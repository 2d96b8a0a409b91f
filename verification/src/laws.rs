//! What holds of the handle whatever it is asked: the laws that tie its plans
//! to the bytes of the file.
//!
//! Each law speaks of a state and a file that agree, the state's length being
//! the file's, takes the plan that the state answers an operation with, and
//! says what the file holds once the plan's requests were carried out.

use crate::disk::{capped, setup_steps, tracks, DiskState, SetupStep, Step};
use crate::error::DiskError;
use crate::file::{
    deleted, lemma_run_concat, lemma_run_one, read_back, resized, run, written, zeros, FileOp,
};
use crate::sync::sync_setup_steps;
use crate::trim::{lemma_trim_zeroes_range, trim_plan, Platform};
use vstd::prelude::*;

verus! {

/// The flush of the sync policy changes no byte of the file.
pub proof fn lemma_flush_keeps_file(state: DiskState, file: Seq<u8>, data: Seq<u8>)
    ensures
        run(state.flush(), file, data) == file,
{
    if state.auto_sync {
        lemma_run_one(FileOp::SyncAll, file, data);
    }
}

/// A planned write puts the bytes into the file at the offset, and the plan's
/// length is the length of the file after it.
pub proof fn lemma_write_effect(state: DiskState, file: Seq<u8>, offset: u64, data: Seq<u8>)
    requires
        tracks(state, file),
        offset + data.len() <= u64::MAX,
    ensures
        state.write(offset, data.len()) matches Ok(step) && {
            &&& run(step.ops, file, data) == written(file, offset as nat, data)
            &&& tracks(state.with_length(step.length), run(step.ops, file, data))
        },
{
    let op = FileOp::Write { offset, length: data.len() as u64 };
    lemma_run_one(op, file, data);
    lemma_run_concat(seq![op], state.flush(), file, data);
    lemma_flush_keeps_file(state, op.effect(file, data), data);
}

/// A write of at least one byte that ends beyond the storage makes the end of
/// the write the length of the storage, and the file is then as long.
pub proof fn lemma_write_extends_length(
    state: DiskState,
    file: Seq<u8>,
    offset: u64,
    data: Seq<u8>,
)
    requires
        tracks(state, file),
        data.len() > 0,
        offset + data.len() > state.length,
        offset + data.len() <= u64::MAX,
    ensures
        state.write(offset, data.len()) matches Ok(step) && {
            &&& step.length == offset + data.len()
            &&& run(step.ops, file, data).len() == offset + data.len()
        },
{
    lemma_write_effect(state, file, offset, data);
}

/// A planned read leaves the file as it is and brings back the bytes of the
/// range, all of them.
pub proof fn lemma_read_effect(
    state: DiskState,
    file: Seq<u8>,
    offset: u64,
    length: u64,
    data: Seq<u8>,
)
    requires
        tracks(state, file),
        offset + length <= state.length,
    ensures
        state.read(offset, length) matches Ok(step) && {
            &&& step.ops == seq![FileOp::Read { offset, length }]
            &&& step.length == state.length
            &&& run(step.ops, file, data) == file
            &&& step.ops[0].output(file) == file.subrange(offset as int, offset + length)
        },
{
    lemma_run_one(FileOp::Read { offset, length }, file, data);
}

/// A planned truncation makes the file exactly as long as asked, and the plan
/// records that length.
pub proof fn lemma_truncate_effect(state: DiskState, file: Seq<u8>, length: u64, data: Seq<u8>)
    requires
        tracks(state, file),
    ensures
        state.truncate(length) matches Ok(step) && {
            &&& step.length == length
            &&& run(step.ops, file, data) == resized(file, length as nat)
            &&& tracks(state.with_length(step.length), run(step.ops, file, data))
        },
{
    let op = FileOp::SetLen { length };
    lemma_run_one(op, file, data);
    lemma_run_concat(seq![op], state.flush(), file, data);
    lemma_flush_keeps_file(state, op.effect(file, data), data);
}

/// Truncation round trip. After `truncate(length)` the storage is `length`
/// bytes long. Where that is more than before, the old bytes are kept and the
/// new region reads as zero. Where it is less, the first `length` bytes are
/// kept, and every read that reaches beyond them is refused as out of bounds.
pub proof fn lemma_truncate_round_trip(
    state: DiskState,
    file: Seq<u8>,
    length: u64,
    data: Seq<u8>,
)
    requires
        tracks(state, file),
    ensures
        state.truncate(length) matches Ok(step) && {
            let after = run(step.ops, file, data);
            let then = state.with_length(step.length);
            &&& then.length == length
            &&& after.len() == length
            &&& length >= state.length ==> {
                &&& after.subrange(0, state.length as int) == file
                &&& read_back(after, state.length as nat, (length - state.length) as nat) == zeros(
                    (length - state.length) as nat,
                )
            }
            &&& length <= state.length ==> after == file.subrange(0, length as int)
            &&& forall|at: u64, count: u64|
                at + count > length ==> #[trigger] then.read(at, count) == Err::<Step, DiskError>(
                    DiskError::OutOfBounds {
                        offset: at,
                        end: Some(capped(at + count)),
                        length,
                    },
                )
        },
{
    lemma_truncate_effect(state, file, length, data);
    let after = resized(file, length as nat);
    if length >= state.length {
        assert(after.subrange(0, state.length as int) =~= file);
        assert(read_back(after, state.length as nat, (length - state.length) as nat) =~= zeros(
            (length - state.length) as nat,
        ));
    }
    if length <= state.length {
        assert(after =~= file.subrange(0, length as int));
    }
}

/// A planned deletion leaves the file as `deleted` says, and the plan's length
/// is the length of the file after it.
pub proof fn lemma_del_effect(
    state: DiskState,
    file: Seq<u8>,
    offset: u64,
    length: u64,
    data: Seq<u8>,
)
    requires
        tracks(state, file),
        offset <= state.length,
    ensures
        state.del(offset, length) matches Ok(step) && {
            &&& run(step.ops, file, data) == deleted(file, offset as nat, length as nat)
            &&& tracks(state.with_length(step.length), run(step.ops, file, data))
        },
{
    if length == 0 {
    } else if offset + length >= state.length {
        lemma_truncate_effect(state, file, offset, data);
    } else {
        let pieces = trim_plan(state.platform, offset, length, state.block_size);
        lemma_trim_zeroes_range(state.platform, offset, length, state.block_size, file, data);
        lemma_run_concat(pieces, state.flush(), file, data);
        lemma_flush_keeps_file(state, run(pieces, file, data), data);
    }
}

/// Delete zeroes. After a deletion that ends before the end of the storage,
/// the length is what it was, a read of the deleted range is in bounds and
/// brings back as many zero bytes as were deleted, and every byte outside the
/// range is what it was. This holds on every platform and for every block
/// size.
pub proof fn lemma_del_zeroes(
    state: DiskState,
    file: Seq<u8>,
    offset: u64,
    length: u64,
    data: Seq<u8>,
)
    requires
        tracks(state, file),
        offset + length < state.length,
    ensures
        state.del(offset, length) matches Ok(step) && {
            let after = run(step.ops, file, data);
            let then = state.with_length(step.length);
            &&& then.length == state.length
            &&& after.len() == file.len()
            &&& then.read(offset, length) matches Ok(reading)
            &&& reading.ops == seq![FileOp::Read { offset, length }]
            &&& reading.ops[0].output(after) == zeros(length as nat)
            &&& forall|i: int|
                0 <= i < file.len() && !(offset <= i < offset + length) ==> after[i] == file[i]
        },
{
    lemma_del_effect(state, file, offset, length, data);
    let after = deleted(file, offset as nat, length as nat);
    assert(read_back(after, offset as nat, length as nat) =~= zeros(length as nat));
}

/// Delete as truncate. A deletion that starts inside the storage or at its
/// end, and reaches its end or beyond, leaves the file and the length exactly
/// as `truncate(offset)` does.
pub proof fn lemma_del_to_end_truncates(
    state: DiskState,
    file: Seq<u8>,
    offset: u64,
    length: u64,
    data: Seq<u8>,
)
    requires
        tracks(state, file),
        offset <= state.length,
        offset + length >= state.length,
    ensures
        state.del(offset, length) matches Ok(deleting) && state.truncate(offset) matches Ok(
            truncating,
        ) && {
            &&& deleting.length == truncating.length
            &&& run(deleting.ops, file, data) == run(truncating.ops, file, data)
            &&& length > 0 ==> deleting == truncating
        },
{
    lemma_del_effect(state, file, offset, length, data);
    lemma_truncate_effect(state, file, offset, data);
    if length == 0 {
        assert(resized(file, offset as nat) =~= file);
    }
}

/// A flush on request, and the flush that releases the handle, change neither
/// the file nor the length.
pub proof fn lemma_sync_effect(state: DiskState, file: Seq<u8>, data: Seq<u8>)
    ensures
        state.sync_all() matches Ok(step) && {
            &&& step.length == state.length
            &&& run(step.ops, file, data) == file
        },
        run(seq![FileOp::SyncAll], file, data) == file,
{
    lemma_run_one(FileOp::SyncAll, file, data);
}

/// Opening never refuses a file that exists. On every platform, and for the
/// synchronous handle too, the steps open the file exactly once, after the
/// directories above it were made and before it is probed, and the open step
/// does not ask for a new file: opening the same path again succeeds.
pub proof fn lemma_setup_accepts_existing_file(platform: Platform)
    ensures
        setup_steps(platform)[0] == SetupStep::CreateParentDirs,
        setup_steps(platform)[1] == (SetupStep::OpenFile { create_new: false }),
        setup_steps(platform).last() == SetupStep::Probe,
        forall|i: int|
            0 <= i < setup_steps(platform).len() && #[trigger] setup_steps(platform)[i] is OpenFile
                ==> i == 1,
        sync_setup_steps()[0] == SetupStep::CreateParentDirs,
        sync_setup_steps()[1] == (SetupStep::OpenFile { create_new: false }),
        sync_setup_steps().last() == SetupStep::Probe,
        forall|i: int|
            0 <= i < sync_setup_steps().len() && #[trigger] sync_setup_steps()[i] is OpenFile
                ==> i == 1,
{
}

} // verus!
