//! The errors that the storage handle reports.

use crate::file::FileOp;
use vstd::prelude::*;

verus! {

/// Why an operation on the storage was refused or failed.
#[derive(Clone, Copy, Debug, PartialEq, Eq)]
pub enum DiskError {
    /// The request reaches outside the storage. The caller can recover by
    /// asking again with a range inside it.
    OutOfBounds {
        /// Where the refused request starts.
        offset: u64,
        /// Where the refused range ends, capped at `u64::MAX`; `None` where
        /// the start alone was out of bounds.
        end: Option<u64>,
        /// The length of the storage that the request exceeds.
        length: u64,
    },
    /// The file system failed, or did not do what it was asked to.
    IoFailure {
        /// The request to the file that failed, with its range.
        context: FileOp,
        /// The error code of the operating system, where it gave one.
        return_code: Option<i32>,
    },
}

impl DiskError {
    /// The failure of the request `context`, with the error code that the
    /// operating system gave for it, if any: the request is what tells the
    /// caller which operation failed, and on which range.
    pub fn io_failure(context: FileOp, return_code: Option<i32>) -> (error: DiskError)
        ensures
            error == (DiskError::IoFailure { context, return_code }),
    {
        DiskError::IoFailure { context, return_code }
    }
}

} // verus!
