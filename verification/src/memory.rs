//! A file held in memory, on which plans can be carried out where no disk is
//! at hand.
//!
//! It does to its bytes what the file model says a file does, request by
//! request, and fails as a full disk does: a request that would make the file
//! larger than the capacity is refused and leaves the file as it was.

use crate::error::DiskError;
use crate::file::{
    lemma_outputs_push, lemma_run_push, outputs, read_back, resized, run, written, zeroed, zeros,
    FileOp,
};
use vstd::prelude::*;

verus! {

impl FileOp {
    /// Whether a file that may hold up to `capacity` bytes can carry out the
    /// request with `data` as the caller's bytes. A write must come with as
    /// many bytes as it announces, and a request that writes or resizes must
    /// end within the capacity. Reading, deallocating and flushing always go
    /// through.
    pub open spec fn fits(self, data: Seq<u8>, capacity: nat) -> bool {
        match self {
            FileOp::Write { offset, length } => data.len() == length && (length == 0 || offset
                + length <= capacity),
            FileOp::ZeroFill { offset, length } => length == 0 || offset + length <= capacity,
            FileOp::SetLen { length } => length <= capacity,
            _ => true,
        }
    }
}

/// The failure of a request that the file could not carry out.
pub open spec fn refusal(op: FileOp) -> DiskError {
    DiskError::IoFailure { context: op, return_code: None }
}

/// A file in memory.
pub struct MemoryFile {
    bytes: Vec<u8>,
    capacity: usize,
}

impl View for MemoryFile {
    type V = Seq<u8>;

    closed spec fn view(&self) -> Seq<u8> {
        self.bytes@
    }
}

/// Extends `bytes` with zeros to `length` bytes, if it is shorter.
fn grow(bytes: &mut Vec<u8>, length: usize)
    ensures
        length >= old(bytes)@.len() ==> final(bytes)@ == resized(old(bytes)@, length as nat),
        length < old(bytes)@.len() ==> final(bytes)@ == old(bytes)@,
{
    while bytes.len() < length
        invariant
            old(bytes)@.len() <= bytes@.len(),
            bytes@.len() <= length || bytes@ == old(bytes)@,
            bytes@ == resized(old(bytes)@, bytes@.len()),
        decreases length - bytes@.len(),
    {
        bytes.push(0u8);
        assert(bytes@ =~= resized(old(bytes)@, bytes@.len()));
    }
    assert(old(bytes)@ =~= resized(old(bytes)@, old(bytes)@.len()));
}

/// Sets the bytes of `[offset, offset + length)` to zero.
fn wipe(bytes: &mut Vec<u8>, offset: usize, length: usize)
    requires
        offset + length <= old(bytes)@.len(),
    ensures
        final(bytes)@ == zeroed(old(bytes)@, offset as nat, length as nat),
{
    let size: usize = bytes.len();
    let mut done: usize = 0;
    assert(bytes@ =~= zeroed(old(bytes)@, offset as nat, 0));
    while done < length
        invariant
            done <= length,
            offset + length <= size,
            bytes@.len() == size,
            bytes@ == zeroed(old(bytes)@, offset as nat, done as nat),
        decreases length - done,
    {
        bytes[offset + done] = 0u8;
        done = done + 1;
        assert(bytes@ =~= zeroed(old(bytes)@, offset as nat, done as nat));
    }
}

/// Copies `data` over the bytes of `[offset, offset + data.len())`.
fn store(bytes: &mut Vec<u8>, offset: usize, data: &[u8])
    requires
        data@.len() > 0,
        offset + data@.len() <= old(bytes)@.len(),
    ensures
        final(bytes)@ == written(old(bytes)@, offset as nat, data@),
{
    let size: usize = bytes.len();
    let mut done: usize = 0;
    while done < data.len()
        invariant
            done <= data@.len(),
            offset + data@.len() <= size,
            bytes@.len() == size,
            old(bytes)@.len() == size,
            forall|i: int|
                0 <= i < bytes@.len() ==> bytes@[i] == if offset <= i < offset + done {
                    data@[i - offset]
                } else {
                    old(bytes)@[i]
                },
        decreases data@.len() - done,
    {
        bytes[offset + done] = data[done];
        done = done + 1;
    }
    assert(bytes@ =~= written(old(bytes)@, offset as nat, data@));
}

impl MemoryFile {
    /// The largest number of bytes that the file may hold.
    pub closed spec fn capacity(&self) -> nat {
        self.capacity as nat
    }

    /// An empty file that may grow to `capacity` bytes.
    pub fn new(capacity: usize) -> (file: MemoryFile)
        ensures
            file@ == Seq::<u8>::empty(),
            file.capacity() == capacity,
    {
        MemoryFile { bytes: Vec::new(), capacity }
    }

    /// The length of the file in bytes.
    pub fn len(&self) -> (length: u64)
        ensures
            length == self@.len(),
    {
        self.bytes.len() as u64
    }

    /// The bytes of the file.
    pub fn contents(&self) -> (bytes: &Vec<u8>)
        ensures
            bytes@ == self@,
    {
        &self.bytes
    }

    /// Carries out one request. `data` are the caller's bytes, which a `Write`
    /// stores; other requests ignore them.
    ///
    /// A request that fits is carried out as the file model says, and hands
    /// back what it read. One that does not fit fails and changes nothing.
    pub fn apply(&mut self, op: FileOp, data: &[u8]) -> (result: Result<Vec<u8>, DiskError>)
        ensures
            final(self).capacity() == old(self).capacity(),
            op.fits(data@, old(self).capacity()) ==> {
                &&& final(self)@ == op.effect(old(self)@, data@)
                &&& result matches Ok(bytes)
                &&& bytes@ == op.output(old(self)@)
            },
            !op.fits(data@, old(self).capacity()) ==> {
                &&& final(self)@ == old(self)@
                &&& result == Err::<Vec<u8>, DiskError>(refusal(op))
            },
    {
        let failed: Result<Vec<u8>, DiskError> = Err(DiskError::io_failure(op, None));
        let limit: u64 = self.capacity as u64;
        let size: u64 = self.bytes.len() as u64;
        match op {
            FileOp::Write { offset, length } => {
                if data.len() as u64 != length {
                    return failed;
                }
                if length > 0 {
                    if length > limit || offset > limit - length {
                        return failed;
                    }
                    grow(&mut self.bytes, (offset + length) as usize);
                    store(&mut self.bytes, offset as usize, data);
                    assert(self.bytes@ =~= written(old(self)@, offset as nat, data@));
                }
                Ok(Vec::new())
            },
            FileOp::ZeroFill { offset, length } => {
                if length > 0 {
                    if length > limit || offset > limit - length {
                        return failed;
                    }
                    grow(&mut self.bytes, (offset + length) as usize);
                    wipe(&mut self.bytes, offset as usize, length as usize);
                    assert(self.bytes@ =~= written(
                        old(self)@,
                        offset as nat,
                        zeros(length as nat),
                    ));
                }
                Ok(Vec::new())
            },
            FileOp::PunchHole { offset, length } => {
                if offset < size {
                    let reach: u64 = if length < size - offset {
                        length
                    } else {
                        size - offset
                    };
                    wipe(&mut self.bytes, offset as usize, reach as usize);
                }
                assert(self.bytes@ =~= zeroed(old(self)@, offset as nat, length as nat));
                Ok(Vec::new())
            },
            FileOp::SetLen { length } => {
                if length > limit {
                    return failed;
                }
                if length <= size {
                    self.bytes.truncate(length as usize);
                    assert(self.bytes@ =~= resized(old(self)@, length as nat));
                } else {
                    grow(&mut self.bytes, length as usize);
                }
                Ok(Vec::new())
            },
            FileOp::Read { offset, length } => {
                let start: u64 = if offset <= size {
                    offset
                } else {
                    size
                };
                let end: u64 = if length <= size - start {
                    start + length
                } else {
                    size
                };
                let mut bytes: Vec<u8> = Vec::new();
                let mut at: usize = start as usize;
                let stop: usize = end as usize;
                while at < stop
                    invariant
                        start <= at <= stop,
                        stop == end,
                        end <= size,
                        size == self.bytes@.len(),
                        bytes@ == self.bytes@.subrange(start as int, at as int),
                    decreases stop - at,
                {
                    bytes.push(self.bytes[at]);
                    at = at + 1;
                    assert(bytes@ =~= self.bytes@.subrange(start as int, at as int));
                }
                assert(bytes@ =~= read_back(old(self)@, offset as nat, length as nat));
                Ok(bytes)
            },
            FileOp::SyncAll => Ok(Vec::new()),
        }
    }

    /// Carries out the requests of `ops` in order, up to the first that does
    /// not fit.
    ///
    /// Where every request fits, the file ends up as the file model says and
    /// the bytes read are handed back. Otherwise the first request that does
    /// not fit is reported as failed, and the file is left as the requests
    /// before it made it: nothing is undone.
    pub fn carry_out(&mut self, ops: &Vec<FileOp>, data: &[u8]) -> (result: Result<
        Vec<u8>,
        DiskError,
    >)
        ensures
            final(self).capacity() == old(self).capacity(),
            match result {
                Ok(bytes) => {
                    &&& forall|i: int|
                        0 <= i < ops@.len() ==> (#[trigger] ops@[i]).fits(
                            data@,
                            old(self).capacity(),
                        )
                    &&& final(self)@ == run(ops@, old(self)@, data@)
                    &&& bytes@ == outputs(ops@, old(self)@, data@)
                },
                Err(error) => exists|k: int|
                    {
                        &&& 0 <= k < ops@.len()
                        &&& forall|i: int|
                            0 <= i < k ==> (#[trigger] ops@[i]).fits(data@, old(self).capacity())
                        &&& !(#[trigger] ops@[k]).fits(data@, old(self).capacity())
                        &&& error == refusal(ops@[k])
                        &&& final(self)@ == run(ops@.take(k), old(self)@, data@)
                    },
            },
    {
        let mut read: Vec<u8> = Vec::new();
        let mut next: usize = 0;
        assert(ops@.take(0) =~= Seq::<FileOp>::empty());
        while next < ops.len()
            invariant
                next <= ops@.len(),
                self.capacity() == old(self).capacity(),
                forall|i: int|
                    0 <= i < next ==> (#[trigger] ops@[i]).fits(data@, old(self).capacity()),
                self@ == run(ops@.take(next as int), old(self)@, data@),
                read@ == outputs(ops@.take(next as int), old(self)@, data@),
            decreases ops@.len() - next,
        {
            let op: FileOp = ops[next];
            let ghost before = ops@.take(next as int);
            proof {
                assert(ops@.take(next + 1) =~= before.push(op));
                lemma_run_push(before, op, old(self)@, data@);
                lemma_outputs_push(before, op, old(self)@, data@);
            }
            match self.apply(op, data) {
                Ok(mut bytes) => {
                    read.append(&mut bytes);
                },
                Err(error) => {
                    return Err(error);
                },
            }
            next = next + 1;
        }
        assert(ops@.take(next as int) =~= ops@);
        Ok(read)
    }
}

} // verus!
