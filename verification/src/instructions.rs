//! The instructions of a delta in the abstract, the bytes that stand for
//! them, and the proof that applying those bytes does what the
//! instructions say.

use vstd::prelude::*;
use crate::delta::{
    applied,
    arg,
    copy_args,
    copy_size,
    lemma_insert_verbatim,
    present,
    run,
    step,
};
use crate::varint::{le_value, pow128, varint, varint_end};

verus! {

/// One instruction of a delta.
pub enum Instruction {
    /// Take `size` bytes of the base, from `offset` on.
    Copy { offset: nat, size: nat },
    /// Take the given bytes.
    Insert { bytes: Seq<u8> },
}

/// An instruction that the format can express on `base`: a copy of 1 to
/// 0xFFFFFF bytes that lie inside the base, from an offset below 2^32; an
/// insertion of 1 to 127 bytes.
pub open spec fn expressible(base: Seq<u8>, i: Instruction) -> bool {
    match i {
        Instruction::Copy { offset, size } => offset < 0x1_0000_0000 && 1 <= size < 0x100_0000
            && offset + size <= base.len(),
        Instruction::Insert { bytes } => 1 <= bytes.len() <= 127,
    }
}

/// The bytes that an instruction adds to the result.
pub open spec fn output(base: Seq<u8>, i: Instruction) -> Seq<u8> {
    match i {
        Instruction::Copy { offset, size } => base.subrange(offset as int, (offset + size) as int),
        Instruction::Insert { bytes } => bytes,
    }
}

/// The result of a list of instructions: their outputs, one after another.
pub open spec fn output_all(base: Seq<u8>, list: Seq<Instruction>) -> Seq<u8>
    decreases list.len(),
{
    if list.len() == 0 {
        Seq::empty()
    } else {
        output(base, list[0]) + output_all(base, list.drop_first())
    }
}

/// An argument byte as it is written: not at all when it is zero.
pub open spec fn written_arg(byte: int) -> Seq<u8> {
    if byte == 0 {
        Seq::empty()
    } else {
        seq![byte as u8]
    }
}

/// The bit that announces an argument byte: `mask` unless the byte is zero.
pub open spec fn announced(byte: int, mask: int) -> int {
    if byte == 0 {
        0
    } else {
        mask
    }
}

/// The instruction byte of a copy with the given argument bytes.
pub open spec fn copy_byte(o0: int, o1: int, o2: int, o3: int, s0: int, s1: int, s2: int) -> int {
    128 + announced(o0, 1) + announced(o1, 2) + announced(o2, 4) + announced(o3, 8) + announced(
        s0,
        16,
    ) + announced(s1, 32) + announced(s2, 64)
}

/// The size field of a copy of `size` bytes: zero stands for 0x10000.
pub open spec fn size_field(size: nat) -> int {
    if size == 0x1_0000 {
        0
    } else {
        size as int
    }
}

/// The seven argument bytes of a copy: four of the offset and three of the
/// size field, least significant first.
pub open spec fn copy_bytes(offset: nat, size: nat) -> Seq<int> {
    let field = size_field(size);
    seq![
        offset as int % 256,
        (offset as int / 0x100) % 256,
        (offset as int / 0x1_0000) % 256,
        (offset as int / 0x100_0000) % 256,
        field % 256,
        (field / 0x100) % 256,
        (field / 0x1_0000) % 256,
    ]
}

/// The argument bytes from the `k`-th on as they are written: those that
/// are not zero, in their order.
pub open spec fn written_args(bytes: Seq<int>, k: int) -> Seq<u8>
    decreases bytes.len() - k,
{
    if k < 0 || k >= bytes.len() {
        Seq::empty()
    } else {
        written_arg(bytes[k]) + written_args(bytes, k + 1)
    }
}

/// A copy as it is written: the instruction byte, then the bytes of the
/// offset and of the size field that are not zero, least significant first.
pub open spec fn written_copy(offset: nat, size: nat) -> Seq<u8> {
    let b = copy_bytes(offset, size);
    seq![copy_byte(b[0], b[1], b[2], b[3], b[4], b[5], b[6]) as u8] + written_args(b, 0)
}

/// An instruction as it is written.
pub open spec fn written(i: Instruction) -> Seq<u8> {
    match i {
        Instruction::Copy { offset, size } => written_copy(offset, size),
        Instruction::Insert { bytes } => seq![bytes.len() as u8] + bytes,
    }
}

/// A list of instructions as it is written.
pub open spec fn written_all(list: Seq<Instruction>) -> Seq<u8>
    decreases list.len(),
{
    if list.len() == 0 {
        Seq::empty()
    } else {
        written(list[0]) + written_all(list.drop_first())
    }
}

/// A size as it is written: seven bits to a byte, least significant first,
/// with the high bit set on every byte but the last.
pub open spec fn written_size(n: nat) -> Seq<u8>
    decreases n,
{
    if n < 128 {
        seq![n as u8]
    } else {
        seq![(128 + n % 128) as u8] + written_size(n / 128)
    }
}

/// A delta as it is written: the size of the base, the size of the result,
/// and the instructions.
pub open spec fn written_delta(base_size: nat, result_size: nat, list: Seq<Instruction>) -> Seq<u8> {
    written_size(base_size) + written_size(result_size) + written_all(list)
}

/// Behind a prefix, an integer ends where it ends without the prefix.
proof fn lemma_varint_end_shift(p: Seq<u8>, s: Seq<u8>, k: int)
    requires
        0 <= k,
    ensures
        varint_end(p + s, p.len() + k) == match varint_end(s, k) {
            Some(n) => Some(p.len() + n),
            None => None,
        },
    decreases s.len() - k,
{
    if k < s.len() {
        assert((p + s)[p.len() + k] == s[k]);
        if s[k] >= 128 {
            lemma_varint_end_shift(p, s, k + 1);
        }
    }
}

/// The value behind a first byte: the low seven bits of the byte, and 128
/// times the value of the bytes that follow.
proof fn lemma_le_value_cons(b: u8, s: Seq<u8>, m: nat)
    requires
        m <= s.len(),
    ensures
        le_value(seq![b] + s, m + 1) == (b % 128) as nat + 128 * le_value(s, m),
    decreases m,
{
    let x = seq![b] + s;
    if m == 0 {
        assert(x[0] == b);
        assert(le_value(x, 0) == 0);
        assert(pow128(0) == 1);
        assert(le_value(x, 1) == le_value(x, 0) + (x[0] % 128) as nat * pow128(0));
    } else {
        lemma_le_value_cons(b, s, (m - 1) as nat);
        assert(x[m as int] == s[m - 1]);
        let g = (s[m - 1] % 128) as nat;
        let p = pow128((m - 1) as nat);
        assert(pow128(m) == 128 * p);
        assert(g * (128 * p) == 128 * (g * p)) by (nonlinear_arith);
        assert(le_value(x, m + 1) == le_value(x, m) + g * pow128(m));
        assert(le_value(s, m) == le_value(s, (m - 1) as nat) + g * p);
    }
}

/// A size that was written is read back, whatever follows it.
pub proof fn lemma_written_size_reads_back(n: nat, rest: Seq<u8>)
    ensures
        varint(written_size(n) + rest) == Some((n, written_size(n).len())),
    decreases n,
{
    let w = written_size(n);
    let data = w + rest;
    if n < 128 {
        assert(data[0] == n as u8);
        assert(le_value(data, 0) == 0);
        assert(pow128(0) == 1);
        assert(le_value(data, 1) == le_value(data, 0) + (data[0] % 128) as nat * pow128(0));
    } else {
        let b = (128 + n % 128) as u8;
        let tail = written_size(n / 128) + rest;
        lemma_written_size_reads_back(n / 128, rest);
        assert(data =~= seq![b] + tail);
        lemma_varint_end_shift(seq![b], tail, 0);
        assert(data[0] == b);
        let m = written_size(n / 128).len();
        crate::varint::lemma_varint_end_bounds(tail, 0);
        lemma_le_value_cons(b, tail, m);
    }
}

/// The bits of the instruction byte of a copy announce exactly the
/// argument bytes that are not zero.
proof fn lemma_copy_byte_bits(o0: int, o1: int, o2: int, o3: int, s0: int, s1: int, s2: int)
    ensures
        ({
            let cmd = copy_byte(o0, o1, o2, o3, s0, s1, s2) as u8;
            &&& cmd >= 128
            &&& cmd == copy_byte(o0, o1, o2, o3, s0, s1, s2)
            &&& present(cmd, 1) == announced(o0, 1)
            &&& present(cmd, 2) * 2 == announced(o1, 2)
            &&& present(cmd, 4) * 4 == announced(o2, 4)
            &&& present(cmd, 8) * 8 == announced(o3, 8)
            &&& present(cmd, 16) * 16 == announced(s0, 16)
            &&& present(cmd, 32) * 32 == announced(s1, 32)
            &&& present(cmd, 64) * 64 == announced(s2, 64)
        }),
{
}

/// The bit that announces the `k`-th argument byte of a copy.
pub open spec fn mask_of(k: int) -> int {
    if k == 0 {
        1
    } else if k == 1 {
        2
    } else if k == 2 {
        4
    } else if k == 3 {
        8
    } else if k == 4 {
        16
    } else if k == 5 {
        32
    } else {
        64
    }
}

/// The argument bytes of the copy `cmd` from the `k`-th on, read from
/// position `at`, and the position behind them.
pub open spec fn read_args(delta: Seq<u8>, at: int, cmd: u8, k: int) -> (Seq<int>, int)
    decreases 7 - k,
{
    if k < 0 || k >= 7 {
        (Seq::empty(), at)
    } else {
        let (values, end) = read_args(delta, at + present(cmd, mask_of(k)), cmd, k + 1);
        (seq![arg(delta, at, cmd, mask_of(k))] + values, end)
    }
}

/// The arguments of a copy are its argument bytes, put together.
proof fn lemma_copy_args_of_bytes(delta: Seq<u8>, at: int, cmd: u8)
    ensures
        ({
            let (v, end) = read_args(delta, at, cmd, 0);
            &&& v.len() == 7
            &&& copy_args(delta, at, cmd) == (
                v[0] + v[1] * 0x100 + v[2] * 0x1_0000 + v[3] * 0x100_0000,
                v[4] + v[5] * 0x100 + v[6] * 0x1_0000,
                end - at,
            )
        }),
{
    reveal_with_fuel(read_args, 8);
}

/// Argument bytes that were written are read back.
proof fn lemma_written_args_read_back(delta: Seq<u8>, at: int, cmd: u8, bytes: Seq<int>, k: int)
    requires
        0 <= k <= 7,
        bytes.len() == 7,
        forall|j: int| 0 <= j < 7 ==> 0 <= #[trigger] bytes[j] < 256,
        forall|j: int|
            k <= j < 7 ==> #[trigger] present(cmd, mask_of(j)) == written_arg(bytes[j]).len(),
        0 <= at,
        at + written_args(bytes, k).len() <= delta.len(),
        delta.subrange(at, at + written_args(bytes, k).len()) == written_args(bytes, k),
    ensures
        read_args(delta, at, cmd, k) == (bytes.skip(k), at + written_args(bytes, k).len()),
    decreases 7 - k,
{
    if k < 7 {
        let w = written_args(bytes, k);
        let rest = written_args(bytes, k + 1);
        let one = written_arg(bytes[k]);
        assert(w == one + rest);
        assert(present(cmd, mask_of(k)) == one.len());
        if bytes[k] != 0 {
            assert(delta.subrange(at, at + w.len())[0] == delta[at]);
            assert(w[0] == bytes[k] as u8);
        }
        assert(delta.subrange(at + one.len(), at + one.len() + rest.len()) =~= rest) by {
            assert forall|j: int| 0 <= j < rest.len() implies delta[at + one.len() + j]
                == rest[j] by {
                assert(delta.subrange(at, at + w.len())[one.len() + j] == delta[at + one.len()
                    + j]);
                assert(w[one.len() + j] == rest[j]);
            }
        }
        lemma_written_args_read_back(delta, at + one.len(), cmd, bytes, k + 1);
        assert(seq![bytes[k]] + bytes.skip(k + 1) =~= bytes.skip(k));
    } else {
        assert(bytes.skip(7) =~= Seq::<int>::empty());
    }
}

/// The instruction byte of a copy with the given argument bytes.
pub open spec fn copy_byte_of(b: Seq<int>) -> u8 {
    copy_byte(b[0], b[1], b[2], b[3], b[4], b[5], b[6]) as u8
}

/// The argument bytes of a copy are bytes, and put together they give the
/// offset and the size field.
proof fn lemma_copy_bytes_digits(offset: nat, size: nat)
    requires
        offset < 0x1_0000_0000,
        1 <= size < 0x100_0000,
    ensures
        ({
            let b = copy_bytes(offset, size);
            &&& b.len() == 7
            &&& forall|j: int| 0 <= j < 7 ==> 0 <= #[trigger] b[j] < 256
            &&& b[0] + b[1] * 0x100 + b[2] * 0x1_0000 + b[3] * 0x100_0000 == offset
            &&& b[4] + b[5] * 0x100 + b[6] * 0x1_0000 == size_field(size)
            &&& copy_size(size_field(size)) == size
        }),
{
}

/// The instruction byte of a copy announces the argument bytes that are
/// written.
proof fn lemma_copy_byte_announces(b: Seq<int>)
    requires
        b.len() == 7,
    ensures
        copy_byte_of(b) >= 128,
        forall|j: int|
            0 <= j < 7 ==> #[trigger] present(copy_byte_of(b), mask_of(j)) == written_arg(
                b[j],
            ).len(),
{
    lemma_copy_byte_bits(b[0], b[1], b[2], b[3], b[4], b[5], b[6]);
    let cmd = copy_byte_of(b);
    assert forall|j: int| 0 <= j < 7 implies #[trigger] present(cmd, mask_of(j)) == written_arg(
        b[j],
    ).len() by {
        if j == 0 {
        } else if j == 1 {
        } else if j == 2 {
        } else if j == 3 {
        } else if j == 4 {
        } else if j == 5 {
        } else {
            assert(j == 6);
        }
    }
}

/// Where a copy stands as written, its instruction byte stands first and
/// its argument bytes behind it.
proof fn lemma_copy_layout(delta: Seq<u8>, at: int, b: Seq<int>)
    requires
        0 <= at,
        at + 1 + written_args(b, 0).len() <= delta.len(),
        delta.subrange(at, at + 1 + written_args(b, 0).len()) == seq![copy_byte_of(b)]
            + written_args(b, 0),
    ensures
        delta[at] == copy_byte_of(b),
        delta.subrange(at + 1, at + 1 + written_args(b, 0).len()) == written_args(b, 0),
{
    let args = written_args(b, 0);
    let w = seq![copy_byte_of(b)] + args;
    assert(delta.subrange(at, at + w.len())[0] == delta[at]);
    assert(w[0] == copy_byte_of(b));
    assert(delta.subrange(at + 1, at + 1 + args.len()) =~= args) by {
        assert forall|j: int| 0 <= j < args.len() implies delta[at + 1 + j] == args[j] by {
            assert(delta.subrange(at, at + w.len())[1 + j] == delta[at + 1 + j]);
            assert(w[1 + j] == args[j]);
        }
    }
}

/// The arguments that are read where argument bytes stand as written are
/// those bytes, put together.
proof fn lemma_copy_args_read_back(delta: Seq<u8>, at: int, b: Seq<int>)
    requires
        b.len() == 7,
        forall|j: int| 0 <= j < 7 ==> 0 <= #[trigger] b[j] < 256,
        0 <= at,
        at + written_args(b, 0).len() <= delta.len(),
        delta.subrange(at, at + written_args(b, 0).len()) == written_args(b, 0),
    ensures
        copy_args(delta, at, copy_byte_of(b)) == (
            b[0] + b[1] * 0x100 + b[2] * 0x1_0000 + b[3] * 0x100_0000,
            b[4] + b[5] * 0x100 + b[6] * 0x1_0000,
            written_args(b, 0).len() as int,
        ),
{
    let cmd = copy_byte_of(b);
    lemma_copy_byte_announces(b);
    lemma_written_args_read_back(delta, at, cmd, b, 0);
    lemma_copy_args_of_bytes(delta, at, cmd);
    assert(b.skip(0) =~= b);
}

/// A copy that was written is read back: at the place where it stands, the
/// delta copies the range of the base that the copy names.
pub proof fn lemma_written_copy_steps(
    base: Seq<u8>,
    delta: Seq<u8>,
    at: int,
    offset: nat,
    size: nat,
)
    requires
        expressible(base, Instruction::Copy { offset, size }),
        0 <= at,
        at + written_copy(offset, size).len() <= delta.len(),
        delta.subrange(at, at + written_copy(offset, size).len()) == written_copy(offset, size),
    ensures
        step(base, delta, at) == Some(
            (
                base.subrange(offset as int, (offset + size) as int),
                at + written_copy(offset, size).len(),
            ),
        ),
{
    let b = copy_bytes(offset, size);
    let cmd = copy_byte_of(b);
    let taken = written_args(b, 0).len() as int;
    assert(written_copy(offset, size) == seq![cmd] + written_args(b, 0));
    lemma_copy_bytes_digits(offset, size);
    lemma_copy_layout(delta, at, b);
    lemma_copy_byte_announces(b);
    lemma_copy_args_read_back(delta, at + 1, b);
    assert(copy_args(delta, at + 1, cmd) == (offset as int, size_field(size), taken));
    assert(delta[at] == cmd);
    assert(cmd >= 128);
}

/// An instruction that was written is read back: at the place where it
/// stands, the delta adds the output of the instruction.
pub proof fn lemma_written_steps(base: Seq<u8>, delta: Seq<u8>, at: int, i: Instruction)
    requires
        expressible(base, i),
        0 <= at,
        at + written(i).len() <= delta.len(),
        delta.subrange(at, at + written(i).len()) == written(i),
    ensures
        written(i).len() >= 1,
        step(base, delta, at) == Some((output(base, i), at + written(i).len())),
{
    match i {
        Instruction::Copy { offset, size } => {
            lemma_written_copy_steps(base, delta, at, offset, size);
        },
        Instruction::Insert { bytes } => {
            let w = written(i);
            assert(delta.subrange(at, at + w.len())[0] == delta[at]);
            assert(w[0] == bytes.len() as u8);
            lemma_insert_verbatim(base, delta, at);
            assert(delta.subrange(at + 1, at + 1 + bytes.len()) =~= bytes) by {
                assert forall|j: int| 0 <= j < bytes.len() implies delta[at + 1 + j]
                    == bytes[j] by {
                    assert(delta.subrange(at, at + w.len())[1 + j] == delta[at + 1 + j]);
                    assert(w[1 + j] == bytes[j]);
                }
            }
        },
    }
}

/// Instructions that were written are read back: where the rest of a delta
/// is a list of instructions as written, running it gives their result.
pub proof fn lemma_written_all_runs(base: Seq<u8>, delta: Seq<u8>, at: int, list: Seq<Instruction>)
    requires
        forall|k: int| 0 <= k < list.len() ==> expressible(base, #[trigger] list[k]),
        0 <= at <= delta.len(),
        delta.skip(at) == written_all(list),
    ensures
        run(base, delta, at) == Some(output_all(base, list)),
    decreases list.len(),
{
    if list.len() == 0 {
        assert(delta.skip(at).len() == 0);
    } else {
        let first = list[0];
        let rest = list.drop_first();
        let w = written(first);
        assert(delta.skip(at).len() == w.len() + written_all(rest).len());
        assert(delta.subrange(at, at + w.len()) =~= w) by {
            assert forall|j: int| 0 <= j < w.len() implies delta[at + j] == w[j] by {
                assert(delta.skip(at)[j] == delta[at + j]);
            }
        }
        lemma_written_steps(base, delta, at, first);
        assert(delta.skip(at + w.len()) =~= written_all(rest)) by {
            assert forall|j: int| 0 <= j < written_all(rest).len() implies delta[at + w.len() + j]
                == written_all(rest)[j] by {
                assert(delta.skip(at)[w.len() + j] == delta[at + w.len() + j]);
            }
        }
        assert forall|k: int| 0 <= k < rest.len() implies expressible(base, #[trigger] rest[k]) by {
            assert(rest[k] == list[k + 1]);
        }
        lemma_written_all_runs(base, delta, at + w.len(), rest);
    }
}

/// Writing a delta and applying it gives the result of its instructions:
/// for any base and any list of instructions that the format can express
/// on it, the delta that holds the size of the result and the instructions
/// as written applies to the base, and builds their outputs one after
/// another. The size of the base that the delta holds plays no part.
pub proof fn lemma_written_delta_applies(base: Seq<u8>, base_size: nat, list: Seq<Instruction>)
    requires
        forall|k: int| 0 <= k < list.len() ==> expressible(base, #[trigger] list[k]),
    ensures
        applied(base, written_delta(base_size, output_all(base, list).len(), list)) == Some(
            output_all(base, list),
        ),
{
    let result_size = output_all(base, list).len();
    let h1 = written_size(base_size);
    let h2 = written_size(result_size);
    let body = written_all(list);
    let delta = written_delta(base_size, result_size, list);
    assert(delta =~= h1 + (h2 + body));
    lemma_written_size_reads_back(base_size, h2 + body);
    assert(delta.subrange(h1.len() as int, delta.len() as int) =~= h2 + body);
    lemma_written_size_reads_back(result_size, body);
    assert(delta.skip((h1.len() + h2.len()) as int) =~= body);
    lemma_written_all_runs(base, delta, (h1.len() + h2.len()) as int, list);
}

} // verus!
