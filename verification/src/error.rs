//! Why a path file could not be decoded.
use vstd::prelude::*;

verus! {

/// The two ways in which decoding fails. Either one discards the whole file.
#[derive(Debug, Clone, Copy, PartialEq, Eq, Structural)]
pub enum ParseError {
    /// A header or record was asked for and the bytes ended before it did.
    TruncatedInput,
    /// Every region was consumed and the cursor did not stand at the end of
    /// the bytes.
    UnexpectedFileSize {
        /// The length of the bytes that were given.
        expected: u64,
        /// Where the cursor stood after the last region.
        observed: u64,
    },
}

} // verus!
