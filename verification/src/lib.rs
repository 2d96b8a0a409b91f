//! A single file as a store of bytes that is read, written, deleted from and
//! truncated by offset.
//!
//! The decisions are kept apart from the input and output. A handle
//! ([`RandomAccessDisk`]) knows the length of its file and the policy it was
//! built with; asked for an operation, it checks the bounds and answers with a
//! [`Plan`], the requests ([`FileOp`]) to carry out on the file. Its caller
//! carries them out, on a disk or on a [`MemoryFile`], and commits the plan
//! once all of them have succeeded.
//!
//! - [`disk`]: the handle and its builder.
//! - [`trim`]: how a range is deleted on each platform, down to the blocks of
//!   the file system.
//! - [`file`]: what each request does to the bytes of a file.
//! - [`laws`] and [`model`]: what holds of every plan, proved against the
//!   bytes; among it that a handle with its file cannot be told from a plain
//!   buffer of bytes.
//! - [`memory`]: a file in memory that carries plans out.
//! - [`sync`]: the plain synchronous handle.
//! - [`error`]: the errors.

use vstd::prelude::*;

pub mod disk;
pub mod error;
pub mod file;
pub mod laws;
pub mod memory;
pub mod model;
pub mod sync;
pub mod trim;

pub use crate::disk::{Builder, Plan, RandomAccessDisk, SetupStep};
pub use crate::error::DiskError;
pub use crate::file::FileOp;
pub use crate::memory::MemoryFile;
pub use crate::sync::{Sync, SyncMethods};
pub use crate::trim::{get_length_and_block_size, set_sparse, trim, Platform};

verus! {

/// `std::path::PathBuf`, which the handles carry as the identity of their
/// file and never look into.
#[verifier::external_type_specification]
#[verifier::external_body]
pub struct ExPathBuf(std::path::PathBuf);

} // verus!
