//! Delta application: a stream of copy and insert instructions that builds
//! an object from a base object.

use vstd::prelude::*;
use vstd::slice::slice_subrange;
use crate::varint::{scan_varint, varint};

verus! {

/// 1 when the bit `mask` of `cmd` is set, else 0. `mask` is a power of two.
pub open spec fn present(cmd: u8, mask: int) -> int {
    if (cmd as int / mask) % 2 == 1 {
        1
    } else {
        0
    }
}

/// The argument byte that the bit `mask` of a copy instruction announces: the
/// byte at `at` when the bit is set, and zero when it is not.
pub open spec fn arg(delta: Seq<u8>, at: int, cmd: u8, mask: int) -> int {
    if present(cmd, mask) == 1 {
        delta[at] as int
    } else {
        0
    }
}

/// The arguments of the copy instruction `cmd` whose argument bytes begin at
/// `at`: the offset into the base, the size field as written, and the number
/// of argument bytes. Bits 0x01 to 0x08 announce the bytes of the offset and
/// bits 0x10 to 0x40 those of the size, least significant first.
pub open spec fn copy_args(delta: Seq<u8>, at: int, cmd: u8) -> (int, int, int) {
    let p1 = at + present(cmd, 0x01);
    let p2 = p1 + present(cmd, 0x02);
    let p3 = p2 + present(cmd, 0x04);
    let p4 = p3 + present(cmd, 0x08);
    let p5 = p4 + present(cmd, 0x10);
    let p6 = p5 + present(cmd, 0x20);
    let p7 = p6 + present(cmd, 0x40);
    (
        arg(delta, at, cmd, 0x01) + arg(delta, p1, cmd, 0x02) * 0x100 + arg(delta, p2, cmd, 0x04)
            * 0x1_0000 + arg(delta, p3, cmd, 0x08) * 0x100_0000,
        arg(delta, p4, cmd, 0x10) + arg(delta, p5, cmd, 0x20) * 0x100 + arg(delta, p6, cmd, 0x40)
            * 0x1_0000,
        p7 - at,
    )
}

/// The number of bytes a copy instruction copies: its size field, with zero
/// standing for 0x10000.
pub open spec fn copy_size(field: int) -> int {
    if field == 0 {
        0x1_0000
    } else {
        field
    }
}

/// The instruction at `at`: the bytes it appends to the output and the
/// position of the next instruction.
///
/// A byte with the high bit set copies a range of the base, which must lie
/// inside it. Any other byte but zero inserts that many of the bytes that
/// follow it. `None` for the byte zero, and whenever the instruction reaches
/// past the end of the delta.
pub open spec fn step(base: Seq<u8>, delta: Seq<u8>, at: int) -> Option<(Seq<u8>, int)> {
    let cmd = delta[at];
    if cmd >= 128 {
        let (offset, field, taken) = copy_args(delta, at + 1, cmd);
        if at + 1 + taken > delta.len() || offset + copy_size(field) > base.len() {
            None
        } else {
            Some((base.subrange(offset, offset + copy_size(field)), at + 1 + taken))
        }
    } else if cmd != 0 {
        if at + 1 + cmd > delta.len() {
            None
        } else {
            Some((delta.subrange(at + 1, at + 1 + cmd), at + 1 + cmd))
        }
    } else {
        None
    }
}

/// The output of the instructions from `at` to the end of the delta; `None`
/// when one of them is invalid.
pub open spec fn run(base: Seq<u8>, delta: Seq<u8>, at: int) -> Option<Seq<u8>>
    decreases delta.len() - at,
{
    if at < 0 || at >= delta.len() {
        Some(Seq::empty())
    } else {
        match step(base, delta, at) {
            None => None,
            Some((chunk, next)) => match run(base, delta, next) {
                None => None,
                Some(rest) => Some(chunk + rest),
            },
        }
    }
}

/// The object that `delta` builds from `base`.
///
/// The delta begins with two size integers, the size of the base (which is
/// not held against `base`) and the size of the result; the instructions
/// follow. `None` when a size integer is cut off, an instruction is invalid,
/// or the output does not have the announced size.
pub open spec fn applied(base: Seq<u8>, delta: Seq<u8>) -> Option<Seq<u8>> {
    match varint(delta) {
        None => None,
        Some((_, n1)) => match varint(delta.subrange(n1 as int, delta.len() as int)) {
            None => None,
            Some((size, n2)) => match run(base, delta, (n1 + n2) as int) {
                None => None,
                Some(out) => if out.len() == size {
                    Some(out)
                } else {
                    None
                },
            },
        },
    }
}

/// Every instruction moves forward.
pub proof fn lemma_step_advances(base: Seq<u8>, delta: Seq<u8>, at: int)
    ensures
        step(base, delta, at) matches Some((_, next)) ==> at < next <= delta.len(),
{
}

/// A copy instruction whose size field is zero copies
/// 0x10000 bytes. With the instruction byte 0x90 (only the low size byte
/// follows, and the offset is zero) and a size byte of zero, the instruction
/// emits the first 0x10000 bytes of the base: all of a base of that length.
pub proof fn lemma_copy_zero_size(base: Seq<u8>, delta: Seq<u8>, at: int)
    requires
        0 <= at,
        at + 2 <= delta.len(),
        delta[at] == 0x90,
        delta[at + 1] == 0,
        base.len() >= 0x1_0000,
    ensures
        step(base, delta, at) == Some((base.subrange(0, 0x1_0000), at + 2)),
        base.len() == 0x1_0000 ==> step(base, delta, at) == Some((base, at + 2)),
{
    if base.len() == 0x1_0000 {
        assert(base.subrange(0, 0x1_0000) =~= base);
    }
}

/// An instruction byte `n` from 1 to 127 (0x7F) appends
/// the `n` bytes that follow it, unchanged, and the next instruction begins
/// behind them.
pub proof fn lemma_insert_verbatim(base: Seq<u8>, delta: Seq<u8>, at: int)
    requires
        0 <= at < delta.len(),
        1 <= delta[at] <= 0x7F,
        at + 1 + delta[at] <= delta.len(),
    ensures
        step(base, delta, at) == Some(
            (delta.subrange(at + 1, at + 1 + delta[at]), at + 1 + delta[at]),
        ),
{
}

/// Reads the argument byte that the bit `mask` of `cmd` announces, if any.
/// Returns its value and the position behind it, or `None` when the byte is
/// announced and the delta has ended.
fn take_arg(delta: &[u8], at: usize, cmd: u8, mask: u8) -> (r: Option<(u64, usize)>)
    requires
        at <= delta@.len(),
        mask > 0,
    ensures
        match r {
            Some((v, next)) => v == arg(delta@, at as int, cmd, mask as int) && next == at
                + present(cmd, mask as int) && next <= delta@.len(),
            None => present(cmd, mask as int) == 1 && at == delta@.len(),
        },
{
    if (cmd / mask) % 2 == 1 {
        if at >= delta.len() {
            None
        } else {
            Some((delta[at] as u64, at + 1))
        }
    } else {
        Some((0, at))
    }
}

/// Decodes the copy instruction `cmd` whose argument bytes begin at `at`.
/// Returns the offset, the number of bytes to copy and the position of the
/// next instruction, or `None` when the delta ends inside the arguments.
fn read_copy(delta: &[u8], at: usize, cmd: u8) -> (r: Option<(u64, u64, usize)>)
    requires
        at <= delta@.len(),
    ensures
        match r {
            Some((offset, size, next)) => {
                let (o, f, taken) = copy_args(delta@, at as int, cmd);
                offset == o && size == copy_size(f) && next == at + taken && next <= delta@.len()
            },
            None => at + copy_args(delta@, at as int, cmd).2 > delta@.len(),
        },
{
    let (o0, p1) = match take_arg(delta, at, cmd, 0x01) {
        Some(x) => x,
        None => return None,
    };
    let (o1, p2) = match take_arg(delta, p1, cmd, 0x02) {
        Some(x) => x,
        None => return None,
    };
    let (o2, p3) = match take_arg(delta, p2, cmd, 0x04) {
        Some(x) => x,
        None => return None,
    };
    let (o3, p4) = match take_arg(delta, p3, cmd, 0x08) {
        Some(x) => x,
        None => return None,
    };
    let (s0, p5) = match take_arg(delta, p4, cmd, 0x10) {
        Some(x) => x,
        None => return None,
    };
    let (s1, p6) = match take_arg(delta, p5, cmd, 0x20) {
        Some(x) => x,
        None => return None,
    };
    let (s2, p7) = match take_arg(delta, p6, cmd, 0x40) {
        Some(x) => x,
        None => return None,
    };
    let offset: u64 = o0 + o1 * 0x100 + o2 * 0x1_0000 + o3 * 0x100_0000;
    let field: u64 = s0 + s1 * 0x100 + s2 * 0x1_0000;
    let size: u64 = if field == 0 {
        0x1_0000
    } else {
        field
    };
    Some((offset, size, p7))
}

/// Applies `delta` to `base` and returns the object it builds.
///
/// The result is `None` when the delta is malformed: a size integer or an
/// instruction is cut off, an instruction byte is zero, a copy reaches past
/// the end of `base`, or the output does not have the announced size.
#[verifier::loop_isolation(false)]
pub fn apply_delta(base: &[u8], delta: &[u8]) -> (r: Option<Vec<u8>>)
    ensures
        match applied(base@, delta@) {
            Some(out) => r matches Some(v) && v@ == out,
            None => r is None,
        },
{
    let len: usize = delta.len();
    let base_len: usize = base.len();
    let n1: usize = match scan_varint(delta) {
        Some((_, n)) => n,
        None => return None,
    };
    proof {
        crate::varint::lemma_varint_end_bounds(delta@, 0);
    }
    let (size, n2) = match scan_varint(slice_subrange(delta, n1, len)) {
        Some(x) => x,
        None => return None,
    };
    proof {
        crate::varint::lemma_varint_end_bounds(delta@.subrange(n1 as int, len as int), 0);
    }
    let start: usize = n1 + n2;
    let mut pos: usize = start;
    let mut out: Vec<u8> = Vec::new();
    while pos < len
        invariant
            len == delta@.len(),
            base_len == base@.len(),
            start <= pos <= len,
            run(base@, delta@, start as int) == match run(base@, delta@, pos as int) {
                Some(rest) => Some(out@ + rest),
                None => None,
            },
        decreases len - pos,
    {
        let cmd: u8 = delta[pos];
        let ghost before = out@;
        let ghost at = pos as int;
        if cmd >= 128 {
            let (offset, count, next) = match read_copy(delta, pos + 1, cmd) {
                Some(x) => x,
                None => return None,
            };
            if offset + count > base_len as u64 {
                return None;
            }
            out.extend_from_slice(slice_subrange(base, offset as usize, (offset + count) as usize));
            pos = next;
        } else if cmd != 0 {
            let count: usize = cmd as usize;
            if count > len - pos - 1 {
                return None;
            }
            out.extend_from_slice(slice_subrange(delta, pos + 1, pos + 1 + count));
            pos = pos + 1 + count;
        } else {
            return None;
        }
        proof {
            let (chunk, next) = step(base@, delta@, at)->0;
            assert(next == pos);
            assert(out@ =~= before + chunk);
            if let Some(rest) = run(base@, delta@, next) {
                assert(out@ + rest =~= before + (chunk + rest));
            }
        }
    }
    assert(out@ + Seq::<u8>::empty() =~= out@);
    assert(run(base@, delta@, start as int) == Some(out@));
    let produced: usize = out.len();
    match size {
        Some(n) => if produced == n {
            Some(out)
        } else {
            None
        },
        None => None,
    }
}

} // verus!
