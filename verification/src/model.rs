//! The reference model: a plain buffer of bytes that grows on write and is
//! filled with zeros where bytes are deleted or the buffer is extended.
//!
//! `lemma_model_equivalence` says that no sequence of requests can tell a
//! handle with its file from the model: both give the same replies, and the
//! file holds what the model holds.

use crate::disk::{capped, tracks, DiskState, Step};
use crate::error::DiskError;
use crate::file::{deleted, lemma_outputs_one, outputs, resized, run, written, FileOp};
use crate::laws::{
    lemma_del_effect, lemma_read_effect, lemma_truncate_effect, lemma_write_effect,
};
use vstd::prelude::*;

verus! {

/// One operation asked of a storage.
pub enum Request {
    Write { offset: u64, data: Seq<u8> },
    Read { offset: u64, length: u64 },
    Delete { offset: u64, length: u64 },
    Truncate { length: u64 },
}

/// What a storage answers: the bytes read (none but for a read), or the
/// refusal.
pub type Reply = Result<Seq<u8>, DiskError>;

impl Request {
    /// The bytes that the request brings along.
    pub open spec fn payload(self) -> Seq<u8> {
        match self {
            Request::Write { offset, data } => data,
            _ => Seq::empty(),
        }
    }
}

/// The model after `request`, and its reply.
///
/// A write replaces bytes and grows the buffer as needed; a write of no bytes
/// changes nothing. A read needs its whole range inside the buffer. A deletion
/// needs its start inside the buffer or at its end; it cuts the buffer where
/// it reaches the end, and fills with zeros otherwise. A truncation cuts the
/// buffer, or extends it with zeros.
pub open spec fn model_serve(model: Seq<u8>, request: Request) -> (Seq<u8>, Reply) {
    let size = model.len() as u64;
    match request {
        Request::Write { offset, data } => if offset + data.len() > u64::MAX {
            (model, Err(DiskError::OutOfBounds { offset, end: Some(u64::MAX), length: size }))
        } else {
            (written(model, offset as nat, data), Ok(Seq::empty()))
        },
        Request::Read { offset, length } => if offset + length > model.len() {
            (
                model,
                Err(
                    DiskError::OutOfBounds {
                        offset,
                        end: Some(capped(offset + length)),
                        length: size,
                    },
                ),
            )
        } else {
            (model, Ok(model.subrange(offset as int, offset + length)))
        },
        Request::Delete { offset, length } => if offset > model.len() {
            (model, Err(DiskError::OutOfBounds { offset, end: None, length: size }))
        } else {
            (deleted(model, offset as nat, length as nat), Ok(Seq::empty()))
        },
        Request::Truncate { length } => (resized(model, length as nat), Ok(Seq::empty())),
    }
}

/// The model after all of `requests`, and its replies in order.
pub open spec fn model_serve_all(model: Seq<u8>, requests: Seq<Request>) -> (Seq<u8>, Seq<Reply>)
    decreases requests.len(),
{
    if requests.len() == 0 {
        (model, Seq::empty())
    } else {
        let (before, replies) = model_serve_all(model, requests.drop_last());
        let (after, reply) = model_serve(before, requests.last());
        (after, replies.push(reply))
    }
}

/// A handle's state together with the file that it stands for.
pub struct Storage {
    pub state: DiskState,
    pub file: Seq<u8>,
}

impl Storage {
    /// The plan that the handle answers `request` with.
    pub open spec fn plan(self, request: Request) -> Result<Step, DiskError> {
        match request {
            Request::Write { offset, data } => self.state.write(offset, data.len()),
            Request::Read { offset, length } => self.state.read(offset, length),
            Request::Delete { offset, length } => self.state.del(offset, length),
            Request::Truncate { length } => self.state.truncate(length),
        }
    }

    /// The storage after `request`, and its reply: where the handle plans, the
    /// plan is carried out on the file and committed; where it refuses,
    /// nothing changes.
    pub open spec fn serve(self, request: Request) -> (Storage, Reply) {
        match self.plan(request) {
            Ok(step) => (
                Storage {
                    state: self.state.with_length(step.length),
                    file: run(step.ops, self.file, request.payload()),
                },
                Ok(outputs(step.ops, self.file, request.payload())),
            ),
            Err(error) => (self, Err(error)),
        }
    }

    /// The storage after all of `requests`, and its replies in order.
    pub open spec fn serve_all(self, requests: Seq<Request>) -> (Storage, Seq<Reply>)
        decreases requests.len(),
    {
        if requests.len() == 0 {
            (self, Seq::empty())
        } else {
            let (before, replies) = self.serve_all(requests.drop_last());
            let (after, reply) = before.serve(requests.last());
            (after, replies.push(reply))
        }
    }
}

/// The bytes that a plan hands back where it only changes the file: none.
proof fn lemma_outputs_of_changes(ops: Seq<FileOp>, file: Seq<u8>, data: Seq<u8>)
    requires
        forall|i: int| 0 <= i < ops.len() ==> !(#[trigger] ops[i] is Read),
    ensures
        outputs(ops, file, data) == Seq::<u8>::empty(),
    decreases ops.len(),
{
    if ops.len() > 0 {
        lemma_outputs_of_changes(ops.drop_last(), file, data);
        assert(!(ops[ops.len() - 1] is Read));
        assert(outputs(ops, file, data) =~= Seq::<u8>::empty());
    }
}

/// One request: a storage whose handle agrees with its file answers as the
/// model does, ends up holding what the model holds, and still agrees.
pub proof fn lemma_model_step(storage: Storage, request: Request)
    requires
        tracks(storage.state, storage.file),
    ensures
        storage.serve(request).0.file == model_serve(storage.file, request).0,
        storage.serve(request).1 == model_serve(storage.file, request).1,
        tracks(storage.serve(request).0.state, storage.serve(request).0.file),
{
    let state = storage.state;
    let file = storage.file;
    let data = request.payload();
    match request {
        Request::Write { offset, data } => {
            if offset + data.len() <= u64::MAX {
                lemma_write_effect(state, file, offset, data);
                let step = state.write(offset, data.len())->Ok_0;
                assert forall|i: int| 0 <= i < step.ops.len() implies !(#[trigger] step.ops[i]
                    is Read) by {}
                lemma_outputs_of_changes(step.ops, file, data);
            }
        },
        Request::Read { offset, length } => {
            if offset + length <= state.length {
                lemma_read_effect(state, file, offset, length, data);
                lemma_outputs_one(FileOp::Read { offset, length }, file, data);
            }
        },
        Request::Delete { offset, length } => {
            if offset <= state.length {
                lemma_del_effect(state, file, offset, length, data);
                let step = state.del(offset, length)->Ok_0;
                assert forall|i: int| 0 <= i < step.ops.len() implies !(#[trigger] step.ops[i]
                    is Read) by {}
                lemma_outputs_of_changes(step.ops, file, data);
            }
        },
        Request::Truncate { length } => {
            lemma_truncate_effect(state, file, length, data);
            let step = state.truncate(length)->Ok_0;
            assert forall|i: int| 0 <= i < step.ops.len() implies !(#[trigger] step.ops[i]
                is Read) by {}
            lemma_outputs_of_changes(step.ops, file, data);
        },
    }
}

/// Model equivalence. Whatever requests a storage is sent, in whatever order,
/// its replies are those of the model that started from the same bytes, and
/// its file holds at the end what the model holds. On the way the handle's
/// length never leaves the file's.
pub proof fn lemma_model_equivalence(storage: Storage, requests: Seq<Request>)
    requires
        tracks(storage.state, storage.file),
    ensures
        storage.serve_all(requests).1 == model_serve_all(storage.file, requests).1,
        storage.serve_all(requests).0.file == model_serve_all(storage.file, requests).0,
        tracks(storage.serve_all(requests).0.state, storage.serve_all(requests).0.file),
    decreases requests.len(),
{
    if requests.len() > 0 {
        lemma_model_equivalence(storage, requests.drop_last());
        lemma_model_step(storage.serve_all(requests.drop_last()).0, requests.last());
    }
}

} // verus!
