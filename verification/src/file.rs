//! The backing file as the storage handle sees it: a sequence of bytes, and the
//! requests that change or read it.
//!
//! Nothing in this module touches a disk. A [`FileOp`] names one request; the
//! spec functions say what the file holds once the request has been carried
//! out. The handle's contracts and the trim strategy are stated against them.

use vstd::prelude::*;

verus! {

/// One request to the backing file.
///
/// Offsets and lengths count bytes from the start of the file.
#[derive(Clone, Copy, Debug, PartialEq, Eq, Structural)]
pub enum FileOp {
    /// Seek to `offset` and write the caller's `length` bytes there.
    Write { offset: u64, length: u64 },
    /// Seek to `offset` and read `length` bytes.
    Read { offset: u64, length: u64 },
    /// Seek to `offset` and write `length` zero bytes.
    ZeroFill { offset: u64, length: u64 },
    /// Deallocate `length` bytes at `offset`, keeping the file's size.
    PunchHole { offset: u64, length: u64 },
    /// Resize the file to exactly `length` bytes.
    SetLen { length: u64 },
    /// Flush everything written so far to durable storage.
    SyncAll,
}

/// `n` zero bytes.
pub open spec fn zeros(n: nat) -> Seq<u8> {
    Seq::new(n, |i: int| 0u8)
}

/// The file after `bytes` were written at `offset`.
///
/// The bytes replace what was there. A write that ends past the end of the
/// file extends it, and the gap between the old end and `offset`, if any,
/// reads as zero. Writing no bytes changes nothing, wherever it is aimed.
pub open spec fn written(file: Seq<u8>, offset: nat, bytes: Seq<u8>) -> Seq<u8> {
    if bytes.len() == 0 {
        file
    } else {
        Seq::new(
            if file.len() >= offset + bytes.len() {
                file.len()
            } else {
                offset + bytes.len()
            },
            |i: int|
                if offset <= i < offset + bytes.len() {
                    bytes[i - offset]
                } else if i < file.len() {
                    file[i]
                } else {
                    0u8
                },
        )
    }
}

/// The file with the bytes of `[offset, offset + length)` set to zero, as far
/// as the file reaches. Its length does not change.
pub open spec fn zeroed(file: Seq<u8>, offset: nat, length: nat) -> Seq<u8> {
    Seq::new(
        file.len(),
        |i: int|
            if offset <= i < offset + length {
                0u8
            } else {
                file[i]
            },
    )
}

/// The file cut or extended to `length` bytes. Bytes beyond the old end read
/// as zero.
pub open spec fn resized(file: Seq<u8>, length: nat) -> Seq<u8> {
    Seq::new(
        length,
        |i: int|
            if i < file.len() {
                file[i]
            } else {
                0u8
            },
    )
}

/// The file after a deletion of `length` bytes at `offset` that starts inside
/// the file or at its end: unchanged where nothing is deleted, cut at `offset`
/// where the range reaches the end of the file, and otherwise as long as
/// before with the range set to zero.
pub open spec fn deleted(file: Seq<u8>, offset: nat, length: nat) -> Seq<u8> {
    if length == 0 {
        file
    } else if offset + length >= file.len() {
        resized(file, offset)
    } else {
        zeroed(file, offset, length)
    }
}

/// The bytes that a read of `length` bytes at `offset` delivers: those of the
/// range that lie inside the file. The result is shorter than `length` exactly
/// when the range reaches past the end of the file.
pub open spec fn read_back(file: Seq<u8>, offset: nat, length: nat) -> Seq<u8> {
    let start = if offset <= file.len() {
        offset
    } else {
        file.len()
    };
    let end = if offset + length <= file.len() {
        offset + length
    } else {
        file.len()
    };
    file.subrange(start as int, end as int)
}

impl FileOp {
    /// What the file holds after this request, where `data` are the caller's
    /// bytes that a `Write` carries.
    pub open spec fn effect(self, file: Seq<u8>, data: Seq<u8>) -> Seq<u8> {
        match self {
            FileOp::Write { offset, length } => written(file, offset as nat, data),
            FileOp::ZeroFill { offset, length } => written(file, offset as nat, zeros(length as nat)),
            FileOp::PunchHole { offset, length } => zeroed(file, offset as nat, length as nat),
            FileOp::SetLen { length } => resized(file, length as nat),
            FileOp::Read { offset, length } => file,
            FileOp::SyncAll => file,
        }
    }

    /// The bytes that this request hands back: those read, for a `Read`, and
    /// none for every other request.
    pub open spec fn output(self, file: Seq<u8>) -> Seq<u8> {
        match self {
            FileOp::Read { offset, length } => read_back(file, offset as nat, length as nat),
            _ => Seq::empty(),
        }
    }
}

/// What the file holds after the requests of `ops` were carried out in order.
pub open spec fn run(ops: Seq<FileOp>, file: Seq<u8>, data: Seq<u8>) -> Seq<u8>
    decreases ops.len(),
{
    if ops.len() == 0 {
        file
    } else {
        ops.last().effect(run(ops.drop_last(), file, data), data)
    }
}

/// The bytes that the requests of `ops` hand back when they are carried out in
/// order, one after the other: what each `Read` among them delivers from the
/// file as it is at that moment.
pub open spec fn outputs(ops: Seq<FileOp>, file: Seq<u8>, data: Seq<u8>) -> Seq<u8>
    decreases ops.len(),
{
    if ops.len() == 0 {
        Seq::empty()
    } else {
        outputs(ops.drop_last(), file, data) + ops.last().output(
            run(ops.drop_last(), file, data),
        )
    }
}

/// Running a single request has the effect of that request.
pub proof fn lemma_run_one(op: FileOp, file: Seq<u8>, data: Seq<u8>)
    ensures
        run(seq![op], file, data) == op.effect(file, data),
{
    assert(seq![op] =~= Seq::<FileOp>::empty().push(op));
    lemma_run_push(Seq::empty(), op, file, data);
}

/// Running one more request applies it to the result of the others.
pub proof fn lemma_run_push(ops: Seq<FileOp>, op: FileOp, file: Seq<u8>, data: Seq<u8>)
    ensures
        run(ops.push(op), file, data) == op.effect(run(ops, file, data), data),
{
    assert(ops.push(op).drop_last() =~= ops);
}

/// A single request hands back what it reads from the file as it finds it.
pub proof fn lemma_outputs_one(op: FileOp, file: Seq<u8>, data: Seq<u8>)
    ensures
        outputs(seq![op], file, data) == op.output(file),
{
    assert(seq![op].drop_last() =~= Seq::<FileOp>::empty());
    reveal_with_fuel(outputs, 2);
    assert(outputs(seq![op], file, data) =~= op.output(file));
}

/// One more request adds what it reads from the file that the others left.
pub proof fn lemma_outputs_push(ops: Seq<FileOp>, op: FileOp, file: Seq<u8>, data: Seq<u8>)
    ensures
        outputs(ops.push(op), file, data) == outputs(ops, file, data) + op.output(
            run(ops, file, data),
        ),
{
    assert(ops.push(op).drop_last() =~= ops);
}

/// Running two lists one after the other is running their concatenation.
pub proof fn lemma_run_concat(a: Seq<FileOp>, b: Seq<FileOp>, file: Seq<u8>, data: Seq<u8>)
    ensures
        run(a + b, file, data) == run(b, run(a, file, data), data),
    decreases b.len(),
{
    if b.len() == 0 {
        assert(a + b =~= a);
    } else {
        assert((a + b).drop_last() =~= a + b.drop_last());
        lemma_run_concat(a, b.drop_last(), file, data);
    }
}

} // verus!
