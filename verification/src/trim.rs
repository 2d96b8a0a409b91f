//! The trim strategy: how a range of bytes is deleted from the middle of the
//! file.
//!
//! Every platform owes the same thing, that the range reads back as zero and
//! the file keeps its length, and pays it differently. Where the system can
//! deallocate any range, the range is handed to it as it stands. Where it
//! deallocates whole blocks only, the range is cut at the block boundaries:
//! the blocks in the middle are deallocated, what is left over at either end
//! is overwritten with zeros. Elsewhere the whole range is overwritten.
//!
//! A trim is not atomic. Its pieces are carried out one after the other, and a
//! failure leaves the pieces before it in place; `lemma_trim_interrupted` says
//! what the file can hold then.

use crate::file::{lemma_run_concat, lemma_run_push, run, zeroed, FileOp};
use vstd::prelude::*;

verus! {

/// The family of systems that the file lives on. It decides how a range is
/// deleted, whether the file has to be marked sparse when it is opened, and
/// whether the block size of the file system is of any use.
#[derive(Clone, Copy, Debug, PartialEq, Eq, Structural)]
pub enum Platform {
    /// No way to deallocate: deleted ranges are overwritten with zeros.
    Portable,
    /// Linux, Android, FreeBSD: any range can be deallocated.
    Linux,
    /// macOS: only whole blocks of the file system can be deallocated.
    MacOs,
    /// Windows: any range can be deallocated, once the file is marked sparse.
    Windows,
}

/// What the handle remembers of a file that was just opened, given the length
/// and the block size that the file's metadata report (`fs_block_size` is 0
/// where they report none). The block size is kept on the Unix family only;
/// elsewhere it is recorded as 0, unknown.
pub open spec fn probed(platform: Platform, file_length: u64, fs_block_size: u64) -> (u64, u64) {
    match platform {
        Platform::Linux | Platform::MacOs => (file_length, fs_block_size),
        Platform::Portable | Platform::Windows => (file_length, 0),
    }
}

/// Length and block size to record for a file that was just opened.
pub fn get_length_and_block_size(platform: Platform, file_length: u64, fs_block_size: u64) -> (probe: (
    u64,
    u64,
))
    ensures
        probe == probed(platform, file_length, fs_block_size),
{
    match platform {
        Platform::Linux | Platform::MacOs => (file_length, fs_block_size),
        Platform::Portable | Platform::Windows => (file_length, 0),
    }
}

/// Whether a file has to be marked sparse before ranges of it can be
/// deallocated. Only Windows asks for it.
pub fn set_sparse(platform: Platform) -> (needed: bool)
    ensures
        needed == (platform == Platform::Windows),
{
    match platform {
        Platform::Windows => true,
        _ => false,
    }
}

/// Bytes from `offset` up to the next block boundary at or after it, but no
/// more than `length`. This is the part of the range in front of its first
/// whole block.
pub open spec fn head_length(offset: int, length: int, block_size: int) -> int {
    let over = offset % block_size;
    let distance = if over == 0 {
        0
    } else {
        block_size - over
    };
    if distance < length {
        distance
    } else {
        length
    }
}

/// Bytes of the range behind its last whole block.
pub open spec fn tail_length(offset: int, length: int, block_size: int) -> int {
    (length - head_length(offset, length, block_size)) % block_size
}

/// Bytes of the range that make up whole blocks.
pub open spec fn middle_length(offset: int, length: int, block_size: int) -> int {
    length - head_length(offset, length, block_size) - tail_length(offset, length, block_size)
}

/// The request that overwrites `[offset, offset + length)` with zeros; none
/// for an empty range.
pub open spec fn zero_fill(offset: int, length: int) -> Seq<FileOp> {
    if length == 0 {
        Seq::empty()
    } else {
        seq![FileOp::ZeroFill { offset: offset as u64, length: length as u64 }]
    }
}

/// The request that deallocates `[offset, offset + length)`; none for an empty
/// range.
pub open spec fn punch_hole(offset: int, length: int) -> Seq<FileOp> {
    if length == 0 {
        Seq::empty()
    } else {
        seq![FileOp::PunchHole { offset: offset as u64, length: length as u64 }]
    }
}

/// The requests that delete `[offset, offset + length)` on `platform`, in the
/// order in which they are carried out.
///
/// On macOS the range falls into a head, overwritten; a middle of whole
/// blocks, deallocated; and a tail, overwritten. Each is left out when it is
/// empty. With an unknown block size (0) nothing can be aligned, and the range
/// is overwritten as on a portable platform.
pub open spec fn trim_plan(platform: Platform, offset: u64, length: u64, block_size: u64) -> Seq<
    FileOp,
> {
    match platform {
        Platform::Portable => zero_fill(offset as int, length as int),
        Platform::Linux | Platform::Windows => punch_hole(offset as int, length as int),
        Platform::MacOs => if block_size == 0 {
            zero_fill(offset as int, length as int)
        } else {
            let head = head_length(offset as int, length as int, block_size as int);
            let middle = middle_length(offset as int, length as int, block_size as int);
            let tail = tail_length(offset as int, length as int, block_size as int);
            zero_fill(offset as int, head) + punch_hole(offset + head, middle) + zero_fill(
                offset + head + middle,
                tail,
            )
        },
    }
}

/// Plans the deletion of `[offset, offset + length)`.
///
/// The range has to end at or below `u64::MAX`, so that its pieces can be
/// written down; the handle only ever trims inside the file. Carried out on a
/// file that holds the range, the plan sets exactly the range to zero and
/// leaves the file as long as it was.
pub fn trim(platform: Platform, offset: u64, length: u64, block_size: u64) -> (plan: Vec<FileOp>)
    requires
        offset + length <= u64::MAX,
    ensures
        plan@ == trim_plan(platform, offset, length, block_size),
        forall|file: Seq<u8>, data: Seq<u8>|
            offset + length <= file.len() <= u64::MAX ==> #[trigger] run(plan@, file, data)
                == zeroed(file, offset as nat, length as nat),
{
    proof {
        assert forall|file: Seq<u8>, data: Seq<u8>|
            offset + length <= file.len() <= u64::MAX implies #[trigger] run(
            trim_plan(platform, offset, length, block_size),
            file,
            data,
        ) == zeroed(file, offset as nat, length as nat) by {
            lemma_trim_zeroes_range(platform, offset, length, block_size, file, data);
        }
    }
    let mut plan: Vec<FileOp> = Vec::new();
    if length == 0 {
        proof {
            lemma_trim_shape(platform, offset, length, block_size);
        }
        assert(plan@ =~= trim_plan(platform, offset, length, block_size));
        return plan;
    }
    match platform {
        Platform::Portable => {
            plan.push(FileOp::ZeroFill { offset, length });
        },
        Platform::Linux | Platform::Windows => {
            plan.push(FileOp::PunchHole { offset, length });
        },
        Platform::MacOs => {
            if block_size == 0 {
                plan.push(FileOp::ZeroFill { offset, length });
            } else {
                let over: u64 = offset % block_size;
                let distance: u64 = if over == 0 {
                    0
                } else {
                    block_size - over
                };
                let head: u64 = if distance < length {
                    distance
                } else {
                    length
                };
                let tail: u64 = (length - head) % block_size;
                proof {
                    vstd::arithmetic::div_mod::lemma_mod_decreases(
                        (length - head) as nat,
                        block_size as nat,
                    );
                }
                let middle: u64 = length - head - tail;
                if head > 0 {
                    plan.push(FileOp::ZeroFill { offset, length: head });
                }
                if middle > 0 {
                    plan.push(FileOp::PunchHole { offset: offset + head, length: middle });
                }
                if tail > 0 {
                    plan.push(FileOp::ZeroFill { offset: offset + head + middle, length: tail });
                }
            }
        },
    }
    assert(plan@ =~= trim_plan(platform, offset, length, block_size));
    plan
}

/// The shape of every trim: at most three requests, each of which overwrites
/// with zeros or deallocates, and none at all for an empty range.
pub proof fn lemma_trim_shape(platform: Platform, offset: u64, length: u64, block_size: u64)
    ensures
        trim_plan(platform, offset, length, block_size).len() <= 3,
        length == 0 ==> trim_plan(platform, offset, length, block_size).len() == 0,
        forall|i: int|
            0 <= i < trim_plan(platform, offset, length, block_size).len() ==> {
                let op = #[trigger] trim_plan(platform, offset, length, block_size)[i];
                op is ZeroFill || op is PunchHole
            },
{
    if block_size != 0 {
        vstd::arithmetic::div_mod::lemma_small_mod(0, block_size as nat);
    }
}

/// How a block-aligned trim cuts its range: the three parts make up the range,
/// head and tail are shorter than a block, and the middle, if there is one,
/// starts on a block boundary and is a whole number of blocks long. So the
/// middle is the largest run of whole blocks inside the range.
pub proof fn lemma_trim_alignment(offset: int, length: int, block_size: int)
    requires
        0 <= offset,
        0 <= length,
        0 < block_size,
    ensures
        ({
            let head = head_length(offset, length, block_size);
            let middle = middle_length(offset, length, block_size);
            let tail = tail_length(offset, length, block_size);
            &&& 0 <= head < block_size
            &&& 0 <= tail < block_size
            &&& 0 <= middle
            &&& head + middle + tail == length
            &&& middle % block_size == 0
            &&& middle > 0 ==> (offset + head) % block_size == 0
        }),
{
    let head = head_length(offset, length, block_size);
    let rest = length - head;
    let over = offset % block_size;
    vstd::arithmetic::div_mod::lemma_fundamental_div_mod(rest, block_size);
    vstd::arithmetic::div_mod::lemma_mod_multiples_basic(rest / block_size, block_size);
    assert(rest - rest % block_size == (rest / block_size) * block_size) by (nonlinear_arith)
        requires
            rest == block_size * (rest / block_size) + rest % block_size,
    ;
    if rest > 0 && over != 0 {
        vstd::arithmetic::div_mod::lemma_fundamental_div_mod(offset, block_size);
        vstd::arithmetic::div_mod::lemma_mod_multiples_basic(offset / block_size + 1, block_size);
        assert(offset + (block_size - over) == (offset / block_size + 1) * block_size)
            by (nonlinear_arith)
            requires
                offset == block_size * (offset / block_size) + over,
        ;
    }
}

/// A trim inside the file does what deleting asks for: the range reads back as
/// zero, every other byte is what it was, and the file keeps its length. It
/// holds on every platform and for every block size.
pub proof fn lemma_trim_zeroes_range(
    platform: Platform,
    offset: u64,
    length: u64,
    block_size: u64,
    file: Seq<u8>,
    data: Seq<u8>,
)
    requires
        offset + length <= file.len(),
        file.len() <= u64::MAX,
    ensures
        run(trim_plan(platform, offset, length, block_size), file, data) == zeroed(
            file,
            offset as nat,
            length as nat,
        ),
{
    if platform == Platform::MacOs && block_size != 0 {
        let head = head_length(offset as int, length as int, block_size as int);
        let middle = middle_length(offset as int, length as int, block_size as int);
        let tail = tail_length(offset as int, length as int, block_size as int);
        lemma_trim_alignment(offset as int, length as int, block_size as int);
        let a = zero_fill(offset as int, head);
        let b = punch_hole(offset + head, middle);
        let c = zero_fill(offset + head + middle, tail);
        let f1 = zeroed(file, offset as nat, head as nat);
        let f2 = zeroed(f1, (offset + head) as nat, middle as nat);
        let f3 = zeroed(f2, (offset + head + middle) as nat, tail as nat);
        lemma_zero_fill_zeroes(offset as int, head, file, data);
        lemma_punch_hole_zeroes(offset + head, middle, f1, data);
        lemma_zero_fill_zeroes(offset + head + middle, tail, f2, data);
        lemma_run_concat(a, b, file, data);
        lemma_run_concat(a + b, c, file, data);
        assert(f3 =~= zeroed(file, offset as nat, length as nat));
    } else if platform == Platform::Linux || platform == Platform::Windows {
        lemma_punch_hole_zeroes(offset as int, length as int, file, data);
    } else {
        lemma_zero_fill_zeroes(offset as int, length as int, file, data);
    }
}

/// Overwriting a range inside the file with zeros sets exactly that range to
/// zero.
pub proof fn lemma_zero_fill_zeroes(offset: int, length: int, file: Seq<u8>, data: Seq<u8>)
    requires
        0 <= offset,
        0 <= length,
        offset + length <= file.len(),
        file.len() <= u64::MAX,
    ensures
        run(zero_fill(offset, length), file, data) == zeroed(file, offset as nat, length as nat),
{
    if length == 0 {
        assert(zeroed(file, offset as nat, 0) =~= file);
    } else {
        let op = FileOp::ZeroFill { offset: offset as u64, length: length as u64 };
        lemma_run_push(Seq::empty(), op, file, data);
        assert(zero_fill(offset, length) =~= Seq::<FileOp>::empty().push(op));
        assert(op.effect(file, data) =~= zeroed(file, offset as nat, length as nat));
    }
}

/// Deallocating a range inside the file sets exactly that range to zero.
pub proof fn lemma_punch_hole_zeroes(offset: int, length: int, file: Seq<u8>, data: Seq<u8>)
    requires
        0 <= offset,
        0 <= length,
        offset + length <= file.len(),
        file.len() <= u64::MAX,
    ensures
        run(punch_hole(offset, length), file, data) == zeroed(file, offset as nat, length as nat),
{
    if length == 0 {
        assert(zeroed(file, offset as nat, 0) =~= file);
    } else {
        let op = FileOp::PunchHole { offset: offset as u64, length: length as u64 };
        lemma_run_push(Seq::empty(), op, file, data);
        assert(punch_hole(offset, length) =~= Seq::<FileOp>::empty().push(op));
    }
}

/// What a trim leaves behind when it is given up half way, after `done` of
/// its requests: the file is as long as before, and a front part of the range
/// is zero while the rest of the file is untouched. A trim is carried out
/// front to back and nothing of it is undone.
pub proof fn lemma_trim_interrupted(
    platform: Platform,
    offset: u64,
    length: u64,
    block_size: u64,
    done: int,
    file: Seq<u8>,
    data: Seq<u8>,
)
    requires
        offset + length <= file.len(),
        file.len() <= u64::MAX,
        0 <= done <= trim_plan(platform, offset, length, block_size).len(),
    ensures
        exists|reach: nat|
            reach <= length && #[trigger] zeroed(file, offset as nat, reach) == run(
                trim_plan(platform, offset, length, block_size).take(done),
                file,
                data,
            ),
{
    let plan = trim_plan(platform, offset, length, block_size);
    let left = run(plan.take(done), file, data);
    if done == 0 {
        assert(plan.take(0) =~= Seq::<FileOp>::empty());
        assert(zeroed(file, offset as nat, 0) =~= file);
        assert(zeroed(file, offset as nat, 0) == left);
    } else if done == plan.len() {
        assert(plan.take(done) =~= plan);
        lemma_trim_zeroes_range(platform, offset, length, block_size, file, data);
        assert(zeroed(file, offset as nat, length as nat) == left);
    } else {
        // Only a block-aligned trim has more than one request.
        let head = head_length(offset as int, length as int, block_size as int);
        let middle = middle_length(offset as int, length as int, block_size as int);
        lemma_trim_alignment(offset as int, length as int, block_size as int);
        let a = zero_fill(offset as int, head);
        let b = punch_hole(offset + head, middle);
        let after_head = zeroed(file, offset as nat, head as nat);
        lemma_zero_fill_zeroes(offset as int, head, file, data);
        if done == a.len() {
            assert(plan.take(done) =~= a);
            assert(zeroed(file, offset as nat, head as nat) == left);
        } else {
            assert(plan.take(done) =~= a + b);
            lemma_punch_hole_zeroes(offset + head, middle, after_head, data);
            lemma_run_concat(a, b, file, data);
            assert(zeroed(after_head, (offset + head) as nat, middle as nat) =~= zeroed(
                file,
                offset as nat,
                (head + middle) as nat,
            ));
            assert(zeroed(file, offset as nat, (head + middle) as nat) == left);
        }
    }
}

} // verus!
