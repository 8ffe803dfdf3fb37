//! Errors of file system operations.

use vstd::prelude::*;

verus! {

/// Why a file system operation failed.
#[derive(Debug, Clone, Copy, PartialEq, Eq, Structural)]
pub enum FsError {
    /// No such record.
    NotFound,
    /// The space of inode ids is used up.
    NoSpace,
    /// The store failed to read or write.
    IoError,
    /// A record cannot be encoded, or a stored one cannot be decoded.
    InvalidData,
}

} // verus!
