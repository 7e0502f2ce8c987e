//! The sizes, in bytes, of the regions and records of a path file.
//!
//! They are constants of the format: nothing in a file says them.
use vstd::prelude::*;

verus! {

/// The header: five 32-bit counts.
pub const HEADER_SIZE: usize = 20;

/// One path node record.
pub const NODE_SIZE: usize = 28;

/// One navigation node record.
pub const NAVIGATION_NODE_SIZE: usize = 14;

/// One link record.
pub const LINK_SIZE: usize = 4;

/// The opaque region between the links and the navigation links.
pub const FILLER_SIZE: u64 = 768;

/// One navigation link record.
pub const NAVIGATION_LINK_SIZE: usize = 2;

/// One link length record.
pub const LINK_LENGTH_SIZE: usize = 1;

/// One intersection flags record.
pub const PATH_INTERSECTION_FLAGS_SIZE: usize = 1;

/// The opaque region that ends a file.
pub const UNKNOWN_DATA_SIZE: u64 = 384;

/// A position field counts eighths of a map unit.
pub const COORDINATE_SCALE: i16 = 8;

/// A direction field counts hundredths.
pub const DIRECTION_SCALE: i8 = 100;

} // verus!
