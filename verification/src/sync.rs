//! The plain synchronous handle: reading, writing and deleting by offset,
//! with no sync policy.
//!
//! It plans as a storage handle does that flushes only on request and
//! overwrites what it deletes; `SyncState::as_disk` names that handle, and
//! every plan of this one is the plan of that. What it adds is that its file
//! is opened on first use: until then `setup` hands out the steps that open
//! it, afterwards none. An existing file is opened as it is, never refused.

use crate::disk::{planned, tracks, DiskState, Plan, RandomAccessDisk, SetupStep, Step};
use crate::error::DiskError;
use crate::file::{deleted, outputs, run, written, FileOp};
use crate::laws::{lemma_del_effect, lemma_read_effect, lemma_write_effect};
use crate::trim::{trim, Platform};
use std::path::PathBuf;
use vstd::prelude::*;

verus! {

/// What a synchronous handle knows of its file.
pub struct SyncState {
    /// The path of the file.
    pub filename: PathBuf,
    /// Whether the file has been opened.
    pub opened: bool,
    /// The logical length of the storage: the end offset of the file.
    pub length: u64,
}

/// The steps that open the file of a synchronous handle, in order. The file
/// is created where it is absent and opened as it is where it exists: opening
/// the same path again succeeds.
pub open spec fn sync_setup_steps() -> Seq<SetupStep> {
    seq![SetupStep::CreateParentDirs, SetupStep::OpenFile { create_new: false }, SetupStep::Probe]
}

impl SyncState {
    /// The state of the storage handle that plans as this one does: on the
    /// same file with the same length, without auto-sync, on the portable
    /// platform.
    pub open spec fn as_disk(self) -> DiskState {
        DiskState {
            filename: self.filename,
            length: self.length,
            block_size: 0,
            auto_sync: false,
            platform: Platform::Portable,
        }
    }

    /// The steps still to be carried out before the first operation: those
    /// that open the file, as long as it is not open.
    pub open spec fn setup(self) -> Seq<SetupStep> {
        if self.opened {
            Seq::empty()
        } else {
            sync_setup_steps()
        }
    }

    /// Writing `count` bytes at `offset`: refused where the write would end
    /// beyond `u64::MAX`; otherwise the storage grows to the end of the write
    /// if that lies beyond its length. A write of no bytes never changes the
    /// length.
    pub open spec fn write(self, offset: u64, count: nat) -> Result<Step, DiskError> {
        self.as_disk().write(offset, count)
    }

    /// Reading `length` bytes at `offset`: refused unless the whole range lies
    /// inside the storage.
    pub open spec fn read(self, offset: u64, length: u64) -> Result<Step, DiskError> {
        self.as_disk().read(offset, length)
    }

    /// Deleting `length` bytes at `offset`: refused where `offset` lies
    /// beyond the end of the storage; nothing for an empty range; a cut at
    /// `offset` where the range reaches the end; otherwise the range is
    /// overwritten with zeros and the length stays.
    pub open spec fn del(self, offset: u64, length: u64) -> Result<Step, DiskError> {
        self.as_disk().del(offset, length)
    }
}

/// Makes synchronous handles.
pub struct Sync {}

/// A synchronous handle on one file.
pub struct SyncMethods {
    filename: PathBuf,
    opened: bool,
    length: u64,
}

impl View for SyncMethods {
    type V = SyncState;

    closed spec fn view(&self) -> SyncState {
        SyncState { filename: self.filename, opened: self.opened, length: self.length }
    }
}

impl Sync {
    /// A handle for the file at `filename`, not opened yet and empty as far
    /// as the handle knows.
    pub fn new(filename: PathBuf) -> (handle: SyncMethods)
        ensures
            handle@ == (SyncState { filename, opened: false, length: 0 }),
    {
        SyncMethods { filename, opened: false, length: 0 }
    }
}

impl SyncMethods {
    /// The path of the file.
    pub fn filename(&self) -> (filename: &PathBuf)
        ensures
            *filename == self@.filename,
    {
        &self.filename
    }

    /// Whether the file has been opened.
    pub fn opened(&self) -> (opened: bool)
        ensures
            opened == self@.opened,
    {
        self.opened
    }

    /// The length of the storage.
    pub fn len(&self) -> (length: u64)
        ensures
            length == self@.length,
    {
        self.length
    }

    /// The steps to carry out before the next operation: those that open the
    /// file while it is not open, and none once it is. Where there are any,
    /// `open` follows them.
    pub fn setup(&self) -> (steps: Vec<SetupStep>)
        ensures
            steps@ == self@.setup(),
    {
        let mut steps: Vec<SetupStep> = Vec::new();
        if !self.opened {
            steps.push(SetupStep::CreateParentDirs);
            steps.push(SetupStep::OpenFile { create_new: false });
            steps.push(SetupStep::Probe);
        }
        assert(steps@ =~= self@.setup());
        steps
    }

    /// Records that the file was opened and is `file_length` bytes long,
    /// whether it was there before or has just been created.
    pub fn open(&mut self, file_length: u64)
        ensures
            final(self)@ == (SyncState { opened: true, length: file_length, ..old(self)@ }),
    {
        self.opened = true;
        self.length = file_length;
    }

    /// Plans writing `data` at `offset`, to be carried out on the opened file.
    ///
    /// Carried out, the plan puts exactly the bytes of `data` at `offset`, and
    /// the file is then as long as the plan says. The only refusal is a write
    /// that would end beyond `u64::MAX`.
    pub fn write(&self, offset: usize, data: &[u8]) -> (result: Result<Plan, DiskError>)
        ensures
            planned(result) == self@.write(offset as u64, data@.len()),
            result is Ok <==> offset + data@.len() <= u64::MAX,
            result matches Ok(plan) ==> forall|file: Seq<u8>| #[trigger]
                tracks(self@.as_disk(), file) ==> {
                    &&& run(plan.ops@, file, data@) == written(file, offset as nat, data@)
                    &&& run(plan.ops@, file, data@).len() == plan.length
                },
    {
        let start: u64 = offset as u64;
        let count: u64 = data.len() as u64;
        match start.checked_add(count) {
            None => Err(
                DiskError::OutOfBounds { offset: start, end: Some(u64::MAX), length: self.length },
            ),
            Some(end) => {
                let mut ops: Vec<FileOp> = Vec::new();
                ops.push(FileOp::Write { offset: start, length: count });
                let length: u64 = if count > 0 && end > self.length {
                    end
                } else {
                    self.length
                };
                let ghost step = self@.write(start, data@.len())->Ok_0;
                assert(ops@ =~= step.ops);
                proof {
                    assert forall|file: Seq<u8>| #[trigger]
                        tracks(self@.as_disk(), file) implies {
                        &&& run(ops@, file, data@) == written(file, offset as nat, data@)
                        &&& run(ops@, file, data@).len() == length
                    } by {
                        lemma_write_effect(self@.as_disk(), file, start, data@);
                    }
                }
                Ok(Plan { ops, length })
            },
        }
    }

    /// Plans reading `length` bytes at `offset`, to be carried out on the
    /// opened file.
    ///
    /// The read is planned exactly when the range lies inside the storage.
    /// Carried out, the plan brings back the bytes of the range, all of them,
    /// and changes nothing.
    pub fn read(&self, offset: usize, length: usize) -> (result: Result<Plan, DiskError>)
        ensures
            planned(result) == self@.read(offset as u64, length as u64),
            result is Ok <==> offset + length <= self@.length,
            result matches Ok(plan) ==> forall|file: Seq<u8>, data: Seq<u8>|
                tracks(self@.as_disk(), file) ==> {
                    &&& #[trigger] run(plan.ops@, file, data) == file
                    &&& outputs(plan.ops@, file, data) == file.subrange(
                        offset as int,
                        offset + length,
                    )
                },
    {
        let start: u64 = offset as u64;
        let count: u64 = length as u64;
        match start.checked_add(count) {
            None => Err(
                DiskError::OutOfBounds { offset: start, end: Some(u64::MAX), length: self.length },
            ),
            Some(end) => {
                if end > self.length {
                    Err(
                        DiskError::OutOfBounds {
                            offset: start,
                            end: Some(end),
                            length: self.length,
                        },
                    )
                } else {
                    let mut ops: Vec<FileOp> = Vec::new();
                    ops.push(FileOp::Read { offset: start, length: count });
                    assert(ops@ =~= seq![FileOp::Read { offset: start, length: count }]);
                    proof {
                        assert forall|file: Seq<u8>, data: Seq<u8>|
                            tracks(self@.as_disk(), file) implies {
                            &&& #[trigger] run(ops@, file, data) == file
                            &&& outputs(ops@, file, data) == file.subrange(
                                offset as int,
                                offset + length,
                            )
                        } by {
                            lemma_read_effect(self@.as_disk(), file, start, count, data);
                            crate::file::lemma_outputs_one(ops@[0], file, data);
                        }
                    }
                    Ok(Plan { ops, length: self.length })
                }
            },
        }
    }

    /// Checks the bytes that a planned read of `length` bytes at `offset`
    /// brought back. A read inside the storage is never short: fewer bytes, or
    /// more, are a failure of the file system and reported as one.
    pub fn complete_read(offset: usize, length: usize, bytes: Vec<u8>) -> (result: Result<
        Vec<u8>,
        DiskError,
    >)
        ensures
            bytes@.len() == length ==> result == Ok::<Vec<u8>, DiskError>(bytes),
            bytes@.len() != length ==> result == Err::<Vec<u8>, DiskError>(
                DiskError::IoFailure {
                    context: FileOp::Read { offset: offset as u64, length: length as u64 },
                    return_code: None,
                },
            ),
    {
        RandomAccessDisk::complete_read(offset as u64, length as u64, bytes)
    }

    /// Plans deleting `length` bytes at `offset`, to be carried out on the
    /// opened file.
    ///
    /// Refused exactly when `offset` lies beyond the end of the storage; a
    /// start at the end is in bounds. Deleting nothing plans nothing; deleting
    /// up to the end or past it plans a cut at `offset`; otherwise the range is
    /// overwritten with zeros and the length stays. Carried out, the plan
    /// leaves the file as `deleted` says, and as long as the plan says.
    pub fn del(&self, offset: usize, length: usize) -> (result: Result<Plan, DiskError>)
        ensures
            planned(result) == self@.del(offset as u64, length as u64),
            result is Ok <==> offset <= self@.length,
            result matches Ok(plan) ==> forall|file: Seq<u8>, data: Seq<u8>|
                tracks(self@.as_disk(), file) ==> {
                    &&& #[trigger] run(plan.ops@, file, data) == deleted(
                        file,
                        offset as nat,
                        length as nat,
                    )
                    &&& run(plan.ops@, file, data).len() == plan.length
                },
    {
        let start: u64 = offset as u64;
        let count: u64 = length as u64;
        if start > self.length {
            return Err(DiskError::OutOfBounds { offset: start, end: None, length: self.length });
        }
        let ghost step = self@.del(start, count)->Ok_0;
        proof {
            assert forall|file: Seq<u8>, data: Seq<u8>|
                tracks(self@.as_disk(), file) implies {
                &&& #[trigger] run(step.ops, file, data) == deleted(
                    file,
                    offset as nat,
                    length as nat,
                )
                &&& run(step.ops, file, data).len() == step.length
            } by {
                lemma_del_effect(self@.as_disk(), file, start, count, data);
            }
        }
        let mut ops: Vec<FileOp> = Vec::new();
        if count == 0 {
            assert(ops@ =~= step.ops);
            return Ok(Plan { ops, length: self.length });
        }
        let inside: bool = match start.checked_add(count) {
            None => false,
            Some(end) => end < self.length,
        };
        if !inside {
            ops.push(FileOp::SetLen { length: start });
            assert(ops@ =~= step.ops);
            return Ok(Plan { ops, length: start });
        }
        let ops: Vec<FileOp> = trim(Platform::Portable, start, count, 0);
        assert(ops@ =~= step.ops);
        Ok(Plan { ops, length: self.length })
    }

    /// Records that every request of `plan` has succeeded: the storage now has
    /// the plan's length.
    pub fn commit(&mut self, plan: &Plan)
        ensures
            final(self)@ == (SyncState { length: plan.length, ..old(self)@ }),
    {
        self.length = plan.length;
    }
}

} // verus!
