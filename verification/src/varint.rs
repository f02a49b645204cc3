//! The two variable-length integers of the pack format: the little-endian
//! base-128 sizes at the head of a delta, and the big-endian offset-by-one
//! base-128 distance of an offset delta.

use vstd::prelude::*;

verus! {

/// Index just past the first byte at or after `from` whose continuation bit
/// (0x80) is clear; `None` when every byte from `from` on has it set.
pub open spec fn varint_end(data: Seq<u8>, from: int) -> Option<int>
    decreases data.len() - from,
{
    if from < 0 || from >= data.len() {
        None
    } else if data[from] < 128 {
        Some(from + 1)
    } else {
        varint_end(data, from + 1)
    }
}

/// 128 to the power `k`.
pub open spec fn pow128(k: nat) -> nat
    decreases k,
{
    if k == 0 {
        1
    } else {
        128 * pow128((k - 1) as nat)
    }
}

/// Little-endian base-128 value of the low seven bits of the first `n` bytes.
pub open spec fn le_value(data: Seq<u8>, n: nat) -> nat
    decreases n,
{
    if n == 0 {
        0
    } else {
        le_value(data, (n - 1) as nat) + (data[n - 1] % 128) as nat * pow128((n - 1) as nat)
    }
}

/// Value of the first `n` bytes read as an offset-delta distance: the low
/// seven bits of the first byte, and for each further byte the value so far
/// plus one, times 128, plus that byte's low seven bits.
pub open spec fn ofs_value(data: Seq<u8>, n: nat) -> nat
    decreases n,
{
    if n == 0 {
        0
    } else if n == 1 {
        (data[0] % 128) as nat
    } else {
        (ofs_value(data, (n - 1) as nat) + 1) * 128 + (data[n - 1] % 128) as nat
    }
}

/// The size integer at the front of `data`, as `(value, bytes taken)`;
/// `None` when `data` ends before a byte without continuation bit.
pub open spec fn varint(data: Seq<u8>) -> Option<(nat, nat)> {
    match varint_end(data, 0) {
        Some(n) => Some((le_value(data, n as nat), n as nat)),
        None => None,
    }
}

/// The offset-delta distance at the front of `data`, as `(value, bytes
/// taken)`; `None` when `data` ends before a byte without continuation bit.
pub open spec fn ofs_distance(data: Seq<u8>) -> Option<(nat, nat)> {
    match varint_end(data, 0) {
        Some(n) => Some((ofs_value(data, n as nat), n as nat)),
        None => None,
    }
}

/// Bytes with the continuation bit set are skipped over.
pub proof fn lemma_varint_end_skip(data: Seq<u8>, from: int, to: int)
    requires
        0 <= from <= to <= data.len(),
        forall|j: int| from <= j < to ==> data[j] >= 128,
    ensures
        varint_end(data, from) == varint_end(data, to),
    decreases to - from,
{
    if from < to {
        lemma_varint_end_skip(data, from + 1, to);
    }
}

/// The integer ends behind its first byte without continuation bit.
pub proof fn lemma_varint_end_bounds(data: Seq<u8>, from: int)
    requires
        0 <= from,
    ensures
        match varint_end(data, from) {
            Some(n) => from < n <= data.len() && data[n - 1] < 128 && forall|j: int|
                from <= j < n - 1 ==> data[j] >= 128,
            None => forall|j: int| from <= j < data.len() ==> data[j] >= 128,
        },
    decreases data.len() - from,
{
    if from < data.len() && data[from] >= 128 {
        lemma_varint_end_bounds(data, from + 1);
    }
}

/// More bytes never make an offset-delta distance smaller.
pub proof fn lemma_ofs_value_grows(data: Seq<u8>, m: nat, n: nat)
    requires
        m <= n,
    ensures
        ofs_value(data, m) <= ofs_value(data, n),
    decreases n - m,
{
    if m < n {
        lemma_ofs_value_grows(data, m, (n - 1) as nat);
    }
}

proof fn lemma_pow128_positive(k: nat)
    ensures
        pow128(k) >= 1,
    decreases k,
{
    if k > 0 {
        lemma_pow128_positive((k - 1) as nat);
    }
}

/// Finds the end of the variable-length integer that begins at `from`: the
/// position just behind its first byte without continuation bit, or `None`
/// when `data` ends first.
pub fn skip_varint(data: &[u8], from: usize) -> (r: Option<usize>)
    requires
        from <= data@.len(),
    ensures
        match varint_end(data@, from as int) {
            Some(n) => r == Some(n as usize) && from < n <= data@.len(),
            None => r is None,
        },
{
    let len: usize = data.len();
    let mut pos: usize = from;
    while pos < len
        invariant
            len == data@.len(),
            from <= pos <= len,
            varint_end(data@, from as int) == varint_end(data@, pos as int),
        decreases len - pos,
    {
        if data[pos] < 128 {
            return Some(pos + 1);
        }
        pos += 1;
    }
    None
}

/// Walks over the little-endian base-128 integer at the front of `data`.
///
/// Returns `None` when `data` ends before the integer does. Otherwise
/// returns the number of bytes taken, and with it the value, or `None` in
/// its place when the value does not fit in `usize`.
pub fn scan_varint(data: &[u8]) -> (r: Option<(Option<usize>, usize)>)
    ensures
        r == match varint(data@) {
            Some((v, n)) => Some(
                (
                    if v <= usize::MAX {
                        Some(v as usize)
                    } else {
                        None
                    },
                    n as usize,
                ),
            ),
            None => None,
        },
{
    let len: usize = data.len();
    let mut value: Option<usize> = Some(0);
    let mut scale: Option<usize> = Some(1);
    let mut pos: usize = 0;
    while pos < len
        invariant
            len == data@.len(),
            pos <= len,
            forall|j: int| 0 <= j < pos ==> data@[j] >= 128,
            match value {
                Some(v) => v == le_value(data@, pos as nat),
                None => le_value(data@, pos as nat) > usize::MAX,
            },
            match scale {
                Some(m) => m == pow128(pos as nat),
                None => pow128(pos as nat) > usize::MAX,
            },
        decreases len - pos,
    {
        let byte: u8 = data[pos];
        let group: usize = (byte % 128) as usize;
        proof {
            lemma_varint_end_skip(data@, 0, pos as int);
            lemma_varint_end_bounds(data@, pos as int);
            let p = pow128(pos as nat);
            if group >= 1 {
                assert(group as nat * p >= p) by (nonlinear_arith)
                    requires
                        group >= 1,
                ;
            } else {
                assert(0 * p == 0);
            }
        }
        if group != 0 {
            let term: Option<usize> = match scale {
                Some(m) => group.checked_mul(m),
                None => None,
            };
            value = match (value, term) {
                (Some(v), Some(t)) => v.checked_add(t),
                _ => None,
            };
        }
        pos += 1;
        if byte < 128 {
            return Some((value, pos));
        }
        scale = match scale {
            Some(m) => m.checked_mul(128),
            None => None,
        };
        proof {
            lemma_pow128_positive((pos - 1) as nat);
        }
    }
    proof {
        lemma_varint_end_skip(data@, 0, len as int);
    }
    None
}

/// Reads the little-endian base-128 integer at the front of `data`: each
/// byte gives seven bits, least significant group first, and a set high bit
/// says that another byte follows.
///
/// Returns the value and the number of bytes taken. The result is `None`
/// when `data` ends before the integer does, or when the value does not fit
/// in `usize`.
pub fn read_varint(data: &[u8]) -> (r: Option<(usize, usize)>)
    ensures
        r == match varint(data@) {
            Some((v, n)) => if v <= usize::MAX {
                Some((v as usize, n as usize))
            } else {
                None
            },
            None => None,
        },
{
    match scan_varint(data) {
        Some((Some(value), taken)) => Some((value, taken)),
        _ => None,
    }
}

/// Reads the distance of an offset delta at the front of `data`: seven bits
/// per byte, most significant group first, with one added to the value so
/// far before each further group is shifted in.
///
/// Returns the distance and the number of bytes taken. The result is `None`
/// when `data` ends before the integer does, or when the distance does not
/// fit in `u64`.
pub fn read_ofs_delta_offset(data: &[u8]) -> (r: Option<(u64, usize)>)
    ensures
        r == match ofs_distance(data@) {
            Some((v, n)) => if v <= u64::MAX {
                Some((v as u64, n as usize))
            } else {
                None
            },
            None => None,
        },
{
    let len: usize = data.len();
    if len == 0 {
        return None;
    }
    let mut value: u64 = (data[0] % 128) as u64;
    let mut pos: usize = 1;
    proof {
        lemma_varint_end_bounds(data@, 0);
    }
    while data[pos - 1] >= 128
        invariant
            len == data@.len(),
            1 <= pos <= len,
            forall|j: int| 0 <= j < pos - 1 ==> data@[j] >= 128,
            value == ofs_value(data@, pos as nat),
        decreases len - pos,
    {
        proof {
            lemma_varint_end_skip(data@, 0, pos as int);
            lemma_varint_end_bounds(data@, pos as int);
        }
        if pos >= len {
            return None;
        }
        let group: u64 = (data[pos] % 128) as u64;
        let next: Option<u64> = match value.checked_add(1) {
            Some(a) => match a.checked_mul(128) {
                Some(b) => b.checked_add(group),
                None => None,
            },
            None => None,
        };
        match next {
            Some(v) => {
                value = v;
            },
            None => {
                proof {
                    assert(ofs_value(data@, (pos + 1) as nat) > u64::MAX);
                    if let Some(n) = varint_end(data@, 0) {
                        lemma_ofs_value_grows(data@, (pos + 1) as nat, n as nat);
                    }
                }
                return None;
            },
        }
        pos += 1;
    }
    proof {
        lemma_varint_end_skip(data@, 0, pos - 1);
    }
    Some((value, pos))
}

} // verus!
