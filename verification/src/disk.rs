//! The storage handle: one open file, addressed by byte offset.
//!
//! The handle does no input or output of its own. It keeps what it knows of
//! the file (its length, the block size of its file system, the sync policy)
//! and answers every operation with a [`Plan`]: the requests to carry out on
//! the file, in order, and the length that the storage has once all of them
//! succeeded. The caller carries them out and, if none failed, hands the plan
//! to [`RandomAccessDisk::commit`]. A plan that failed half way is dropped, so
//! the handle never records what the file system did not confirm.
//!
//! Only one owner may drive a handle, one operation at a time.

use crate::error::DiskError;
use crate::file::{deleted, outputs, resized, run, written, FileOp};
use crate::laws::{
    lemma_del_effect, lemma_read_effect, lemma_sync_effect, lemma_truncate_effect,
    lemma_write_effect,
};
use crate::trim::{get_length_and_block_size, probed, set_sparse, trim, trim_plan, Platform};
use std::path::PathBuf;
use vstd::prelude::*;

verus! {

/// What a handle knows of its file.
pub struct DiskState {
    /// The path of the file. It never changes.
    pub filename: PathBuf,
    /// The logical length of the storage: the end offset of the file.
    pub length: u64,
    /// The allocation unit of the file system; 0 where it is unknown.
    pub block_size: u64,
    /// Whether every change is flushed to durable storage before it counts.
    pub auto_sync: bool,
    /// The platform, which decides how ranges are deleted.
    pub platform: Platform,
}

/// What a plan says: the requests to the file, and the length of the storage
/// after them.
pub struct Step {
    pub ops: Seq<FileOp>,
    pub length: u64,
}

/// Whether a handle's record agrees with the file: the recorded length is the
/// file's true length. Every plan that is carried out and committed keeps it
/// so.
pub open spec fn tracks(state: DiskState, file: Seq<u8>) -> bool {
    file.len() == state.length
}

/// `n`, or `u64::MAX` where `n` is larger.
pub open spec fn capped(n: int) -> u64 {
    if n <= u64::MAX {
        n as u64
    } else {
        u64::MAX
    }
}

impl DiskState {
    /// The flush that follows a change under the auto-sync policy.
    pub open spec fn flush(self) -> Seq<FileOp> {
        if self.auto_sync {
            seq![FileOp::SyncAll]
        } else {
            Seq::empty()
        }
    }

    /// The state once a plan that ends at `length` went through.
    pub open spec fn with_length(self, length: u64) -> DiskState {
        DiskState { length, ..self }
    }

    /// Writing `count` bytes at `offset`.
    ///
    /// The write is refused where it would end beyond `u64::MAX`, the largest
    /// length that can be recorded. Otherwise the storage grows to the end of
    /// the write if that lies beyond its length. A write of no bytes never
    /// changes the length, wherever it is aimed.
    pub open spec fn write(self, offset: u64, count: nat) -> Result<Step, DiskError> {
        if offset + count > u64::MAX {
            Err(DiskError::OutOfBounds { offset, end: Some(u64::MAX), length: self.length })
        } else {
            Ok(
                Step {
                    ops: seq![FileOp::Write { offset, length: count as u64 }] + self.flush(),
                    length: if count > 0 && offset + count > self.length {
                        (offset + count) as u64
                    } else {
                        self.length
                    },
                },
            )
        }
    }

    /// Reading `length` bytes at `offset`: refused unless the whole range lies
    /// inside the storage.
    pub open spec fn read(self, offset: u64, length: u64) -> Result<Step, DiskError> {
        if offset + length > self.length {
            Err(
                DiskError::OutOfBounds {
                    offset,
                    end: Some(capped(offset + length)),
                    length: self.length,
                },
            )
        } else {
            Ok(Step { ops: seq![FileOp::Read { offset, length }], length: self.length })
        }
    }

    /// Resizing the storage to `length` bytes.
    pub open spec fn truncate(self, length: u64) -> Result<Step, DiskError> {
        Ok(Step { ops: seq![FileOp::SetLen { length }] + self.flush(), length })
    }

    /// Deleting `length` bytes at `offset`.
    ///
    /// A start beyond the end of the storage is refused; a start at the end is
    /// in bounds. Deleting nothing does nothing. Deleting up to the end of the
    /// storage or past it cuts the storage at `offset`. Anything else is a
    /// trim, which leaves the length alone.
    pub open spec fn del(self, offset: u64, length: u64) -> Result<Step, DiskError> {
        if offset > self.length {
            Err(DiskError::OutOfBounds { offset, end: None, length: self.length })
        } else if length == 0 {
            Ok(Step { ops: Seq::empty(), length: self.length })
        } else if offset + length >= self.length {
            self.truncate(offset)
        } else {
            Ok(
                Step {
                    ops: trim_plan(self.platform, offset, length, self.block_size) + self.flush(),
                    length: self.length,
                },
            )
        }
    }

    /// Flushing on request. Under the auto-sync policy everything is flushed
    /// already, and nothing is left to do.
    pub open spec fn sync_all(self) -> Result<Step, DiskError> {
        Ok(
            Step {
                ops: if self.auto_sync {
                    Seq::empty()
                } else {
                    seq![FileOp::SyncAll]
                },
                length: self.length,
            },
        )
    }
}

/// The requests to carry out for one operation, and the length to record once
/// every one of them has succeeded.
#[derive(Debug)]
pub struct Plan {
    /// The requests, in the order in which they are carried out. The first
    /// that fails ends the operation; those before it are not undone.
    pub ops: Vec<FileOp>,
    /// The length of the storage after the last request.
    pub length: u64,
}

impl View for Plan {
    type V = Step;

    open spec fn view(&self) -> Step {
        Step { ops: self.ops@, length: self.length }
    }
}

/// The outcome of planning, with the plan seen as what it says.
pub open spec fn planned(result: Result<Plan, DiskError>) -> Result<Step, DiskError> {
    match result {
        Ok(plan) => Ok(plan@),
        Err(error) => Err(error),
    }
}

/// One open file, addressed by byte offset.
#[derive(Debug)]
pub struct RandomAccessDisk {
    filename: PathBuf,
    length: u64,
    block_size: u64,
    auto_sync: bool,
    platform: Platform,
}

impl View for RandomAccessDisk {
    type V = DiskState;

    closed spec fn view(&self) -> DiskState {
        DiskState {
            filename: self.filename,
            length: self.length,
            block_size: self.block_size,
            auto_sync: self.auto_sync,
            platform: self.platform,
        }
    }
}

impl RandomAccessDisk {
    /// A handle for the file at `filename` with the default configuration:
    /// auto-sync, on a portable platform. `file_length` and `fs_block_size`
    /// are what the metadata of the opened file report.
    pub fn open(filename: PathBuf, file_length: u64, fs_block_size: u64) -> (disk: RandomAccessDisk)
        ensures
            disk@ == (DiskState {
                filename,
                length: file_length,
                block_size: 0,
                auto_sync: true,
                platform: Platform::Portable,
            }),
    {
        Self::builder(filename).build(file_length, fs_block_size)
    }

    /// A builder for a handle on the file at `filename`.
    pub fn builder(filename: PathBuf) -> (builder: Builder)
        ensures
            builder@ == (Config { filename, auto_sync: true, platform: Platform::Portable }),
    {
        Builder::new(filename)
    }

    /// The flush that the auto-sync policy adds to a change.
    fn flush(&self, ops: &mut Vec<FileOp>)
        ensures
            final(ops)@ == old(ops)@ + self@.flush(),
    {
        if self.auto_sync {
            ops.push(FileOp::SyncAll);
            assert(ops@ =~= old(ops)@ + self@.flush());
        } else {
            assert(ops@ =~= old(ops)@ + self@.flush());
        }
    }

    /// Plans writing `data` at `offset`.
    ///
    /// The plan writes the bytes and, under auto-sync, flushes. Its length is
    /// the end of the write where the storage grows, else the length as it is.
    /// Carried out on the file, it puts exactly the bytes of `data` at
    /// `offset`, and the file is then as long as the plan says. The only
    /// refusal is a write that would end beyond `u64::MAX`.
    pub fn write(&self, offset: u64, data: &[u8]) -> (result: Result<Plan, DiskError>)
        ensures
            planned(result) == self@.write(offset, data@.len()),
            result is Ok <==> offset + data@.len() <= u64::MAX,
            result matches Ok(plan) ==> (data@.len() > 0 && offset + data@.len() > self@.length
                ==> plan.length == offset + data@.len()),
            result matches Ok(plan) ==> forall|file: Seq<u8>| #[trigger]
                tracks(self@, file) ==> {
                    &&& run(plan.ops@, file, data@) == written(file, offset as nat, data@)
                    &&& run(plan.ops@, file, data@).len() == plan.length
                },
    {
        let count: u64 = data.len() as u64;
        match offset.checked_add(count) {
            None => Err(
                DiskError::OutOfBounds { offset, end: Some(u64::MAX), length: self.length },
            ),
            Some(end) => {
                let mut ops: Vec<FileOp> = Vec::new();
                ops.push(FileOp::Write { offset, length: count });
                self.flush(&mut ops);
                let length: u64 = if count > 0 && end > self.length {
                    end
                } else {
                    self.length
                };
                assert(ops@ =~= seq![FileOp::Write { offset, length: count }] + self@.flush());
                proof {
                    assert forall|file: Seq<u8>| #[trigger] tracks(self@, file) implies {
                        &&& run(ops@, file, data@) == written(file, offset as nat, data@)
                        &&& run(ops@, file, data@).len() == length
                    } by {
                        lemma_write_effect(self@, file, offset, data@);
                    }
                }
                Ok(Plan { ops, length })
            },
        }
    }

    /// Plans reading `length` bytes at `offset`.
    ///
    /// The read is planned exactly when the range lies inside the storage.
    /// Otherwise it is refused before anything touches the file. Carried out
    /// on the file, the plan brings back the bytes of the range, all of them,
    /// and changes nothing.
    pub fn read(&self, offset: u64, length: u64) -> (result: Result<Plan, DiskError>)
        ensures
            planned(result) == self@.read(offset, length),
            result is Ok <==> offset + length <= self@.length,
            result matches Ok(plan) ==> forall|file: Seq<u8>, data: Seq<u8>|
                tracks(self@, file) ==> {
                    &&& #[trigger] run(plan.ops@, file, data) == file
                    &&& outputs(plan.ops@, file, data) == file.subrange(
                        offset as int,
                        offset + length,
                    )
                },
    {
        match offset.checked_add(length) {
            None => Err(
                DiskError::OutOfBounds { offset, end: Some(u64::MAX), length: self.length },
            ),
            Some(end) => {
                if end > self.length {
                    Err(DiskError::OutOfBounds { offset, end: Some(end), length: self.length })
                } else {
                    let mut ops: Vec<FileOp> = Vec::new();
                    ops.push(FileOp::Read { offset, length });
                    assert(ops@ =~= seq![FileOp::Read { offset, length }]);
                    proof {
                        assert forall|file: Seq<u8>, data: Seq<u8>|
                            tracks(self@, file) implies {
                            &&& #[trigger] run(ops@, file, data) == file
                            &&& outputs(ops@, file, data) == file.subrange(
                                offset as int,
                                offset + length,
                            )
                        } by {
                            lemma_read_effect(self@, file, offset, length, data);
                            crate::file::lemma_outputs_one(ops@[0], file, data);
                        }
                    }
                    Ok(Plan { ops, length: self.length })
                }
            },
        }
    }

    /// Checks the bytes that a planned read of `length` bytes at `offset`
    /// brought back. A read inside the storage is never short: fewer bytes, or
    /// more, are a failure of the file system and reported as one.
    pub fn complete_read(offset: u64, length: u64, bytes: Vec<u8>) -> (result: Result<
        Vec<u8>,
        DiskError,
    >)
        ensures
            bytes@.len() == length ==> result == Ok::<Vec<u8>, DiskError>(bytes),
            bytes@.len() != length ==> result == Err::<Vec<u8>, DiskError>(
                DiskError::IoFailure {
                    context: FileOp::Read { offset, length },
                    return_code: None,
                },
            ),
    {
        if bytes.len() as u64 == length {
            Ok(bytes)
        } else {
            Err(
                DiskError::IoFailure {
                    context: FileOp::Read { offset, length },
                    return_code: None,
                },
            )
        }
    }

    /// Plans deleting `length` bytes at `offset`.
    ///
    /// Refused exactly when `offset` lies beyond the end of the storage.
    /// Deleting nothing plans nothing; deleting up to the end or past it plans
    /// what `truncate(offset)` plans; otherwise the plan is the platform's
    /// trim of the range, flushed under auto-sync, and the length stays.
    /// Carried out on the file, the plan cuts the file at `offset` in the
    /// second case and sets the range to zero in the third, on every platform
    /// alike, and the file is then as long as the plan says.
    pub fn del(&self, offset: u64, length: u64) -> (result: Result<Plan, DiskError>)
        ensures
            planned(result) == self@.del(offset, length),
            result is Ok <==> offset <= self@.length,
            result matches Ok(plan) ==> forall|file: Seq<u8>, data: Seq<u8>|
                tracks(self@, file) ==> {
                    &&& #[trigger] run(plan.ops@, file, data) == deleted(
                        file,
                        offset as nat,
                        length as nat,
                    )
                    &&& run(plan.ops@, file, data).len() == plan.length
                },
    {
        if offset > self.length {
            return Err(DiskError::OutOfBounds { offset, end: None, length: self.length });
        }
        let ghost step = self@.del(offset, length)->Ok_0;
        proof {
            assert forall|file: Seq<u8>, data: Seq<u8>| tracks(self@, file) implies {
                &&& #[trigger] run(step.ops, file, data) == deleted(
                    file,
                    offset as nat,
                    length as nat,
                )
                &&& run(step.ops, file, data).len() == step.length
            } by {
                lemma_del_effect(self@, file, offset, length, data);
            }
        }
        if length == 0 {
            let ops: Vec<FileOp> = Vec::new();
            assert(ops@ =~= step.ops);
            return Ok(Plan { ops, length: self.length });
        }
        let inside: bool = match offset.checked_add(length) {
            None => false,
            Some(end) => end < self.length,
        };
        if !inside {
            let result = self.truncate(offset);
            assert(planned(result) == Ok::<Step, DiskError>(step));
            return result;
        }
        let mut ops: Vec<FileOp> = trim(self.platform, offset, length, self.block_size);
        self.flush(&mut ops);
        assert(ops@ =~= step.ops);
        Ok(Plan { ops, length: self.length })
    }

    /// Plans resizing the storage to `length` bytes: the file is cut or
    /// extended to exactly that length, then flushed under auto-sync. Carried
    /// out on the file, the plan keeps the bytes below `length` and lets
    /// everything beyond the old end read as zero.
    pub fn truncate(&self, length: u64) -> (result: Result<Plan, DiskError>)
        ensures
            planned(result) == self@.truncate(length),
            result is Ok,
            result matches Ok(plan) ==> forall|file: Seq<u8>, data: Seq<u8>|
                tracks(self@, file) ==> #[trigger] run(plan.ops@, file, data) == resized(
                    file,
                    length as nat,
                ),
    {
        let mut ops: Vec<FileOp> = Vec::new();
        ops.push(FileOp::SetLen { length });
        self.flush(&mut ops);
        assert(ops@ =~= seq![FileOp::SetLen { length }] + self@.flush());
        proof {
            assert forall|file: Seq<u8>, data: Seq<u8>| tracks(self@, file) implies #[trigger] run(
                ops@,
                file,
                data,
            ) == resized(file, length as nat) by {
                lemma_truncate_effect(self@, file, length, data);
            }
        }
        Ok(Plan { ops, length })
    }

    /// The length of the storage, from what the handle has recorded.
    pub fn len(&self) -> (result: Result<u64, DiskError>)
        ensures
            result == Ok::<u64, DiskError>(self@.length),
    {
        Ok(self.length)
    }

    /// Whether the storage holds no bytes.
    pub fn is_empty(&self) -> (result: Result<bool, DiskError>)
        ensures
            result == Ok::<bool, DiskError>(self@.length == 0),
    {
        Ok(self.length == 0)
    }

    /// Plans a flush on request: one flush where auto-sync is off, nothing
    /// where it is on and every change was flushed already.
    pub fn sync_all(&self) -> (result: Result<Plan, DiskError>)
        ensures
            planned(result) == self@.sync_all(),
            result is Ok,
            result matches Ok(plan) ==> forall|file: Seq<u8>, data: Seq<u8>| #[trigger]
                run(plan.ops@, file, data) == file,
    {
        let mut ops: Vec<FileOp> = Vec::new();
        if !self.auto_sync {
            ops.push(FileOp::SyncAll);
            assert(ops@ =~= seq![FileOp::SyncAll]);
        }
        proof {
            assert forall|file: Seq<u8>, data: Seq<u8>| #[trigger]
                run(ops@, file, data) == file by {
                lemma_sync_effect(self@, file, data);
            }
        }
        Ok(Plan { ops, length: self.length })
    }

    /// Plans the release of the handle: one flush, whatever the policy, so
    /// that nothing written is lost with the handle. Callers that need their
    /// data durable carry this plan out before they let go of the file.
    pub fn close(&self) -> (plan: Plan)
        ensures
            plan@ == (Step { ops: seq![FileOp::SyncAll], length: self@.length }),
            forall|file: Seq<u8>, data: Seq<u8>| #[trigger] run(plan.ops@, file, data) == file,
    {
        let mut ops: Vec<FileOp> = Vec::new();
        ops.push(FileOp::SyncAll);
        assert(ops@ =~= seq![FileOp::SyncAll]);
        proof {
            assert forall|file: Seq<u8>, data: Seq<u8>| #[trigger]
                run(ops@, file, data) == file by {
                lemma_sync_effect(self@, file, data);
            }
        }
        Plan { ops, length: self.length }
    }

    /// Records that every request of `plan` has succeeded: the storage now has
    /// the plan's length. Nothing else changes.
    pub fn commit(&mut self, plan: &Plan)
        ensures
            final(self)@ == old(self)@.with_length(plan.length),
    {
        self.length = plan.length;
    }
}

/// What a builder has been told.
pub struct Config {
    pub filename: PathBuf,
    pub auto_sync: bool,
    pub platform: Platform,
}

/// One step of opening the file, before a handle exists.
#[derive(Clone, Copy, Debug, PartialEq, Eq, Structural)]
pub enum SetupStep {
    /// Create the chain of directories above the file, as far as it is missing.
    CreateParentDirs,
    /// Open the file for reading and writing. Without `create_new` the file
    /// is created if it is absent and opened as it is otherwise; with it, a
    /// file that exists is refused. No handle of this library asks for
    /// `create_new`: see `lemma_setup_accepts_existing_file`.
    OpenFile { create_new: bool },
    /// Flush the file to durable storage.
    SyncAll,
    /// Mark the file sparse.
    SetSparse,
    /// Read the file's length and the block size of its file system.
    Probe,
}

/// The steps that open the file of a handle on `platform`, in order. An
/// existing file is opened, never refused. The file is flushed once before it
/// is probed, and marked sparse where the platform asks for it.
pub open spec fn setup_steps(platform: Platform) -> Seq<SetupStep> {
    seq![SetupStep::CreateParentDirs, SetupStep::OpenFile { create_new: false }, SetupStep::SyncAll]
        + (if platform == Platform::Windows {
        seq![SetupStep::SetSparse]
    } else {
        Seq::empty()
    }) + seq![SetupStep::Probe]
}

/// Assembles a [`RandomAccessDisk`].
pub struct Builder {
    filename: PathBuf,
    auto_sync: bool,
    platform: Platform,
}

impl View for Builder {
    type V = Config;

    closed spec fn view(&self) -> Config {
        Config { filename: self.filename, auto_sync: self.auto_sync, platform: self.platform }
    }
}

impl Builder {
    /// A builder for the file at `filename`, with auto-sync on and the
    /// portable platform.
    pub fn new(filename: PathBuf) -> (builder: Builder)
        ensures
            builder@ == (Config { filename, auto_sync: true, platform: Platform::Portable }),
    {
        Builder { filename, auto_sync: true, platform: Platform::Portable }
    }

    /// Sets the sync policy. With auto-sync every change is flushed to durable
    /// storage as part of the operation; without it only `sync_all` and
    /// `close` flush.
    pub fn auto_sync(self, auto_sync: bool) -> (builder: Builder)
        ensures
            builder@ == (Config { auto_sync, ..self@ }),
    {
        Builder { filename: self.filename, auto_sync, platform: self.platform }
    }

    /// Sets the platform, and with it the way ranges are deleted.
    pub fn platform(self, platform: Platform) -> (builder: Builder)
        ensures
            builder@ == (Config { platform, ..self@ }),
    {
        Builder { filename: self.filename, auto_sync: self.auto_sync, platform }
    }

    /// The path of the file to open.
    pub fn filename(&self) -> (filename: &PathBuf)
        ensures
            *filename == self@.filename,
    {
        &self.filename
    }

    /// The steps that open the file, to be carried out before `build`.
    pub fn setup(&self) -> (steps: Vec<SetupStep>)
        ensures
            steps@ == setup_steps(self@.platform),
    {
        let mut steps: Vec<SetupStep> = Vec::new();
        steps.push(SetupStep::CreateParentDirs);
        steps.push(SetupStep::OpenFile { create_new: false });
        steps.push(SetupStep::SyncAll);
        if set_sparse(self.platform) {
            steps.push(SetupStep::SetSparse);
        }
        steps.push(SetupStep::Probe);
        assert(steps@ =~= setup_steps(self@.platform));
        steps
    }

    /// The handle for the file that the steps of `setup` have opened, where
    /// the probe reported `file_length` bytes and a block size of
    /// `fs_block_size` (0 where it reported none).
    pub fn build(self, file_length: u64, fs_block_size: u64) -> (disk: RandomAccessDisk)
        ensures
            disk@ == (DiskState {
                filename: self@.filename,
                length: probed(self@.platform, file_length, fs_block_size).0,
                block_size: probed(self@.platform, file_length, fs_block_size).1,
                auto_sync: self@.auto_sync,
                platform: self@.platform,
            }),
    {
        let (length, block_size) = get_length_and_block_size(
            self.platform,
            file_length,
            fs_block_size,
        );
        RandomAccessDisk {
            filename: self.filename,
            length,
            block_size,
            auto_sync: self.auto_sync,
            platform: self.platform,
        }
    }
}

} // verus!
