//! Version-2 pack index: from an object id to the offset of its entry in the
//! pack, through the fan-out table and the sorted id table.

use vstd::prelude::*;
use crate::bytes::{be32, be64, lemma_be32_range, lemma_be64_range, range_equals, read_be32, read_be64};

verus! {

/// Length of the header and fan-out table; the id table starts here.
pub const ID_TABLE_START: usize = 1032;

/// The index begins with the magic number and version 2, and holds a whole
/// fan-out table.
pub open spec fn header_ok(idx: Seq<u8>) -> bool {
    &&& idx.len() >= 1032
    &&& idx[0] == 0xff
    &&& idx[1] == 0x74
    &&& idx[2] == 0x4f
    &&& idx[3] == 0x63
    &&& be32(idx, 4) == 2
}

/// Fan-out entry `b`: by the format, the number of ids whose first byte is at most `b`.
pub open spec fn fanout(idx: Seq<u8>, b: int) -> int {
    be32(idx, 8 + 4 * b)
}

/// The number of objects the index announces: the last fan-out entry.
pub open spec fn object_count(idx: Seq<u8>) -> int {
    fanout(idx, 255)
}

/// First slot of the id table that can hold an id with first byte `b`.
pub open spec fn window_start(idx: Seq<u8>, b: int) -> int {
    if b == 0 {
        0
    } else {
        fanout(idx, b - 1)
    }
}

/// Byte position of slot `i` of the id table.
pub open spec fn id_pos(i: int) -> int {
    1032 + 20 * i
}

/// The id stored in slot `i`.
pub open spec fn id_at(idx: Seq<u8>, i: int) -> Seq<u8> {
    idx.subrange(id_pos(i), id_pos(i) + 20)
}

/// Slot `i` lies inside the index and holds `oid`.
pub open spec fn slot_holds(idx: Seq<u8>, i: int, oid: Seq<u8>) -> bool {
    id_pos(i) + 20 <= idx.len() && id_at(idx, i) == oid
}

/// The first slot in `[lo, hi)` that holds `oid`, if there is one.
pub open spec fn first_slot(idx: Seq<u8>, oid: Seq<u8>, lo: int, hi: int) -> Option<int>
    decreases hi - lo,
{
    if lo >= hi {
        None
    } else if slot_holds(idx, lo, oid) {
        Some(lo)
    } else {
        first_slot(idx, oid, lo + 1, hi)
    }
}

/// Byte position of the 4-byte offset of slot `i`, behind the id and CRC tables.
pub open spec fn small_pos(idx: Seq<u8>, i: int) -> int {
    1032 + 24 * object_count(idx) + 4 * i
}

/// Byte position of entry `k` of the 8-byte large-offset table.
pub open spec fn large_pos(idx: Seq<u8>, k: int) -> int {
    1032 + 28 * object_count(idx) + 8 * k
}

/// The pack offset recorded for slot `i`: the 4-byte entry itself, or, when
/// its high bit is set, the large-offset entry that its low 31 bits select.
/// `None` when either read would leave the index.
pub open spec fn slot_offset(idx: Seq<u8>, i: int) -> Option<u64> {
    if small_pos(idx, i) + 4 > idx.len() {
        None
    } else {
        let small = be32(idx, small_pos(idx, i));
        if small < 0x8000_0000 {
            Some(small as u64)
        } else {
            let at = large_pos(idx, small - 0x8000_0000);
            if at + 8 > idx.len() {
                None
            } else {
                Some(be64(idx, at) as u64)
            }
        }
    }
}

/// The pack offset that the index gives for `oid`.
pub open spec fn find_offset(idx: Seq<u8>, oid: Seq<u8>) -> Option<u64> {
    if !header_ok(idx) || oid.len() != 20 {
        None
    } else {
        match first_slot(idx, oid, window_start(idx, oid[0] as int), fanout(idx, oid[0] as int)) {
            Some(i) => slot_offset(idx, i),
            None => None,
        }
    }
}

/// `a` comes before `b` in the byte-wise lexicographic order of 20-byte ids.
pub open spec fn id_less(a: Seq<u8>, b: Seq<u8>) -> bool {
    exists|k: int|
        0 <= k < 20 && #[trigger] a[k] < b[k] && forall|j: int| 0 <= j < k ==> a[j] == b[j]
}

/// First byte of the id in slot `i`.
pub open spec fn first_byte(idx: Seq<u8>, i: int) -> int {
    idx[id_pos(i)] as int
}

/// A well-formed version-2 index: a good header, room for the id, CRC and
/// offset tables, ids in strictly ascending order, a readable offset for
/// every slot, and a fan-out table that marks, for each byte value, the slot
/// where ids with a larger first byte begin.
pub open spec fn well_formed(idx: Seq<u8>) -> bool {
    &&& header_ok(idx)
    &&& idx.len() >= 1032 + 28 * object_count(idx)
    &&& forall|b: int| 0 <= b <= 255 ==> #[trigger] fanout(idx, b) <= object_count(idx)
    &&& forall|i: int, b: int|
        0 <= i < object_count(idx) && 0 <= b <= 255 ==> ((i < #[trigger] fanout(idx, b)) <==> (
        #[trigger] first_byte(idx, i) <= b))
    &&& forall|i: int, j: int|
        0 <= i < j < object_count(idx) ==> id_less(#[trigger] id_at(idx, i), #[trigger] id_at(idx, j))
    &&& forall|i: int| 0 <= i < object_count(idx) ==> (#[trigger] slot_offset(idx, i)) is Some
}

/// How many of the first `n` slots hold an id whose first byte is at most `b`.
pub open spec fn count_first_le(idx: Seq<u8>, b: int, n: int) -> int
    decreases n,
{
    if n <= 0 {
        0
    } else {
        count_first_le(idx, b, n - 1) + if first_byte(idx, n - 1) <= b {
            1int
        } else {
            0int
        }
    }
}

/// `first_slot` returns the least slot of the range that holds the id: a slot
/// that holds it, with no such slot before it in the range, is the answer.
pub proof fn lemma_first_slot_is_least(idx: Seq<u8>, oid: Seq<u8>, lo: int, hi: int, i: int)
    requires
        lo <= i < hi,
        slot_holds(idx, i, oid),
        forall|j: int| lo <= j < i ==> !slot_holds(idx, j, oid),
    ensures
        first_slot(idx, oid, lo, hi) == Some(i),
    decreases i - lo,
{
    if lo < i {
        lemma_first_slot_is_least(idx, oid, lo + 1, hi, i);
    }
}

/// What `first_slot` returns lies in the range and holds the id, and no
/// earlier slot of the range does; it returns `None` only if no slot of the
/// range holds the id.
pub proof fn lemma_first_slot_found(idx: Seq<u8>, oid: Seq<u8>, lo: int, hi: int)
    ensures
        match first_slot(idx, oid, lo, hi) {
            Some(i) => lo <= i < hi && slot_holds(idx, i, oid) && forall|j: int|
                lo <= j < i ==> !slot_holds(idx, j, oid),
            None => forall|j: int| lo <= j < hi ==> !slot_holds(idx, j, oid),
        },
    decreases hi - lo,
{
    if lo < hi && !slot_holds(idx, lo, oid) {
        lemma_first_slot_found(idx, oid, lo + 1, hi);
    }
}

/// In a well-formed index, looking up the id stored
/// in any slot yields the offset recorded for that slot.
pub proof fn lemma_lookup_sound(idx: Seq<u8>, i: int)
    requires
        well_formed(idx),
        0 <= i < object_count(idx),
    ensures
        find_offset(idx, id_at(idx, i)) == slot_offset(idx, i),
        find_offset(idx, id_at(idx, i)) is Some,
{
    let oid = id_at(idx, i);
    let b = first_byte(idx, i);
    assert(oid.len() == 20);
    assert(oid[0] == idx[id_pos(i)]);
    let lo = window_start(idx, b);
    let hi = fanout(idx, b);
    lemma_be32_range(idx, 8 + 4 * (b - 1));
    assert(i < fanout(idx, b));
    if b > 0 {
        assert(!(i < fanout(idx, b - 1)));
    }
    assert forall|j: int| lo <= j < i implies !slot_holds(idx, j, oid) by {
        assert(id_less(id_at(idx, j), id_at(idx, i)));
    }
    lemma_first_slot_is_least(idx, oid, lo, hi, i);
}

/// Below a well-formed fan-out entry lie exactly the slots it counts: among
/// the first `n` slots, those whose first byte is at most `b` number `n` or
/// the entry for `b`, whichever is smaller.
proof fn lemma_count_prefix(idx: Seq<u8>, b: int, n: int)
    requires
        well_formed(idx),
        0 <= b <= 255,
        0 <= n <= object_count(idx),
    ensures
        count_first_le(idx, b, n) == if n <= fanout(idx, b) {
            n
        } else {
            fanout(idx, b)
        },
    decreases n,
{
    lemma_be32_range(idx, 8 + 4 * b);
    if n > 0 {
        lemma_count_prefix(idx, b, n - 1);
        assert((n - 1 < fanout(idx, b)) <==> (first_byte(idx, n - 1) <= b));
    }
}

/// In a well-formed index, entry `b` of the fan-out table
/// equals the number of ids whose first byte is at most `b`.
pub proof fn lemma_fanout_counts(idx: Seq<u8>, b: int)
    requires
        well_formed(idx),
        0 <= b <= 255,
    ensures
        count_first_le(idx, b, object_count(idx)) == fanout(idx, b),
{
    lemma_be32_range(idx, 1028);
    assert(fanout(idx, b) <= object_count(idx));
    lemma_count_prefix(idx, b, object_count(idx));
}

/// Once a slot lies outside the index, so does every later one.
proof fn lemma_no_slot_past_end(idx: Seq<u8>, oid: Seq<u8>, lo: int, hi: int)
    requires
        0 <= lo,
        id_pos(lo) + 20 > idx.len(),
    ensures
        first_slot(idx, oid, lo, hi) is None,
    decreases hi - lo,
{
    if lo < hi {
        lemma_no_slot_past_end(idx, oid, lo + 1, hi);
    }
}

/// Reads the pack offset recorded for slot `i`.
fn read_slot_offset(idx_data: &[u8], i: u64) -> (r: Option<u64>)
    requires
        idx_data@.len() >= 1032,
        i < 0x1_0000_0000,
    ensures
        r == slot_offset(idx_data@, i as int),
{
    proof {
        lemma_be32_range(idx_data@, 1028);
    }
    let len: u64 = idx_data.len() as u64;
    let total: u64 = read_be32(idx_data, 1028) as u64;
    let at: u64 = 1032 + 24 * total + 4 * i;
    if at + 4 > len {
        return None;
    }
    let small: u32 = read_be32(idx_data, at as usize);
    if small < 0x8000_0000 {
        return Some(small as u64);
    }
    let k: u64 = (small - 0x8000_0000) as u64;
    let large_at: u64 = 1032 + 28 * total + 8 * k;
    if large_at + 8 > len {
        return None;
    }
    proof {
        lemma_be64_range(idx_data@, large_at as int);
    }
    Some(read_be64(idx_data, large_at as usize))
}

/// Looks `target_oid` up in a version-2 pack index and returns the offset of
/// its entry in the pack.
///
/// The result is `None` when the index is not a version-2 index with a whole
/// fan-out table, when `target_oid` is not 20 bytes long, when no slot in the
/// fan-out window of its first byte holds it, or when the offset tables end
/// before the entry that the slot refers to.
pub fn find_object_in_index(idx_data: &[u8], target_oid: &[u8]) -> (r: Option<u64>)
    ensures
        r == find_offset(idx_data@, target_oid@),
{
    if idx_data.len() < ID_TABLE_START || target_oid.len() != 20 {
        return None;
    }
    if idx_data[0] != 0xff || idx_data[1] != 0x74 || idx_data[2] != 0x4f || idx_data[3] != 0x63 {
        return None;
    }
    if read_be32(idx_data, 4) != 2 {
        return None;
    }
    let size: usize = idx_data.len();
    let len: u64 = size as u64;
    let first: usize = target_oid[0] as usize;
    let lo: u64 = if first == 0 {
        0
    } else {
        read_be32(idx_data, 8 + 4 * (first - 1)) as u64
    };
    let hi: u64 = read_be32(idx_data, 8 + 4 * first) as u64;
    let mut i: u64 = lo;
    while i < hi
        invariant
            header_ok(idx_data@),
            size == idx_data@.len(),
            len == size,
            target_oid@.len() == 20,
            lo == window_start(idx_data@, target_oid@[0] as int),
            hi == fanout(idx_data@, target_oid@[0] as int),
            hi < 0x1_0000_0000,
            lo <= i,
            first_slot(idx_data@, target_oid@, lo as int, hi as int) == first_slot(
                idx_data@,
                target_oid@,
                i as int,
                hi as int,
            ),
        decreases hi - i,
    {
        let at: u64 = 1032 + 20 * i;
        if at + 20 > len {
            proof {
                lemma_no_slot_past_end(idx_data@, target_oid@, i as int, hi as int);
            }
            return None;
        }
        if range_equals(idx_data, at as usize, target_oid) {
            return read_slot_offset(idx_data, i);
        }
        i += 1;
    }
    None
}

} // verus!
