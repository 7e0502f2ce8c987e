//! Decoder for the fixed-layout binary files that describe the vehicle and
//! pedestrian path-finding graph of one map area.
//!
//! A file is a 20-byte header of five record counts, followed by the path
//! nodes, the navigation nodes, the links, an opaque filler, the navigation
//! links, the link lengths, the intersection flags and an opaque tail.
//! [`parser::parse_path_file`] turns the bytes of one file into a
//! [`parser::NodeFile`], or says why it could not.
pub mod cursor;
pub mod encoding;
pub mod error;
pub mod layout;
pub mod parser;
