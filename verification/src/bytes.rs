//! Big-endian integers and byte-range comparison on untrusted buffers.

use vstd::prelude::*;

verus! {

/// The unsigned big-endian value of the four bytes of `s` starting at `at`.
pub open spec fn be32(s: Seq<u8>, at: int) -> int {
    s[at] as int * 0x100_0000 + s[at + 1] as int * 0x1_0000 + s[at + 2] as int * 0x100 + s[at
        + 3] as int
}

/// The unsigned big-endian value of the eight bytes of `s` starting at `at`.
pub open spec fn be64(s: Seq<u8>, at: int) -> int {
    be32(s, at) * 0x1_0000_0000 + be32(s, at + 4)
}

/// A four-byte big-endian value fits in 32 bits.
pub proof fn lemma_be32_range(s: Seq<u8>, at: int)
    ensures
        0 <= be32(s, at) < 0x1_0000_0000,
{
}

/// An eight-byte big-endian value fits in 64 bits.
pub proof fn lemma_be64_range(s: Seq<u8>, at: int)
    ensures
        0 <= be64(s, at) < 0x1_0000_0000_0000_0000,
{
}

/// Reads the big-endian `u32` at `at`.
pub fn read_be32(data: &[u8], at: usize) -> (v: u32)
    requires
        at + 4 <= data@.len(),
    ensures
        v == be32(data@, at as int),
{
    let b0: u32 = data[at] as u32;
    let b1: u32 = data[at + 1] as u32;
    let b2: u32 = data[at + 2] as u32;
    let b3: u32 = data[at + 3] as u32;
    b0 * 0x100_0000 + b1 * 0x1_0000 + b2 * 0x100 + b3
}

/// Reads the big-endian `u64` at `at`.
pub fn read_be64(data: &[u8], at: usize) -> (v: u64)
    requires
        at + 8 <= data@.len(),
    ensures
        v == be64(data@, at as int),
{
    let len: usize = data.len();
    let hi: u64 = read_be32(data, at) as u64;
    let lo: u64 = read_be32(data, at + 4) as u64;
    hi * 0x1_0000_0000 + lo
}

/// Whether the bytes of `data` from `at` on begin with the whole of `needle`.
pub fn range_equals(data: &[u8], at: usize, needle: &[u8]) -> (same: bool)
    requires
        at + needle@.len() <= data@.len(),
    ensures
        same == (data@.subrange(at as int, at + needle@.len()) == needle@),
{
    let n: usize = needle.len();
    let len: usize = data.len();
    let mut k: usize = 0;
    while k < n
        invariant
            n == needle@.len(),
            len == data@.len(),
            at + n <= data@.len(),
            k <= n,
            forall|j: int| 0 <= j < k ==> data@[at + j] == needle@[j],
        decreases n - k,
    {
        if data[at + k] != needle[k] {
            assert(data@.subrange(at as int, at + n)[k as int] == data@[at + k]);
            return false;
        }
        k += 1;
    }
    assert(data@.subrange(at as int, at + n) =~= needle@);
    true
}

} // verus!
