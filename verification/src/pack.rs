//! Pack entries: the type-and-size header, the four object types, and the
//! two delta types with the chain of bases behind them.

use vstd::prelude::*;
use vstd::slice::slice_subrange;
use crate::delta::{applied, apply_delta};
use crate::frame::{wire, wire_form};
use crate::idx::{find_object_in_index, find_offset};
use crate::varint::{ofs_distance, read_ofs_delta_offset, skip_varint, varint_end};
use crate::zlib::{compress_zlib, decompress_zlib, zlib_deflated, zlib_inflated};

verus! {

/// Pack entry type of a delta whose base lies a given distance before it.
pub const KIND_OFS_DELTA: u8 = 6;

/// Pack entry type of a delta whose base is named by its object id.
pub const KIND_REF_DELTA: u8 = 7;

/// The type of the entry whose header begins with `first`: bits 4 to 6.
pub open spec fn entry_kind(first: u8) -> u8 {
    ((first / 16) % 8) as u8
}

/// The object that a delta builds on a base: the type of the base and the
/// content that the inflated delta makes of the content of the base. `None`
/// when there is no base, the delta stream does not inflate, or the delta
/// does not apply.
pub open spec fn delta_on(base: Option<(u8, Seq<u8>)>, delta: Option<Seq<u8>>) -> Option<
    (u8, Seq<u8>),
> {
    match (base, delta) {
        (Some((kind, content)), Some(d)) => match applied(content, d) {
            Some(out) => Some((kind, out)),
            None => None,
        },
        _ => None,
    }
}

/// What the header of an entry leads to.
pub enum Link {
    /// An object: its zlib stream begins at `body`.
    Object { body: int },
    /// A delta: its base is the entry at `base`, from which `links` further
    /// deltas may be followed, and its zlib stream begins at `stream`.
    Delta { base: int, links: nat, stream: int },
    /// No entry: outside the pack, cut off, of an unknown type, or with a
    /// base that cannot be had.
    Broken,
}

/// Reads the header of the entry at `offset`, when `links` deltas may still
/// be followed to their bases.
///
/// The header is one byte with the type, continued while the high bit is
/// set; the size it announces is not read. An offset delta names its base by
/// a distance back from `offset`, which is at least 1 and at most `offset`.
/// A reference delta names it by an object id, which `idx` resolves. Either
/// uses up one link.
pub open spec fn link(pack: Seq<u8>, idx: Seq<u8>, offset: int, links: nat) -> Link {
    if offset < 0 || offset >= pack.len() {
        Link::Broken
    } else {
        match varint_end(pack, offset) {
            None => Link::Broken,
            Some(body) => {
                let kind = entry_kind(pack[offset]);
                let len = pack.len() as int;
                if 1 <= kind <= 4 {
                    Link::Object { body }
                } else if links == 0 {
                    Link::Broken
                } else if kind == 6 {
                    match ofs_distance(pack.subrange(body, len)) {
                        None => Link::Broken,
                        Some((distance, taken)) => if distance == 0 || distance > offset {
                            Link::Broken
                        } else {
                            Link::Delta {
                                base: offset - distance,
                                links: (links - 1) as nat,
                                stream: body + taken,
                            }
                        },
                    }
                } else if kind == 7 {
                    if body + 20 > len {
                        Link::Broken
                    } else {
                        match find_offset(idx, pack.subrange(body, body + 20)) {
                            None => Link::Broken,
                            Some(base) => Link::Delta {
                                base: base as int,
                                links: (links - 1) as nat,
                                stream: body + 20,
                            },
                        }
                    }
                } else {
                    Link::Broken
                }
            },
        }
    }
}

/// The object stored in the entry at `offset` of `pack`, as type and
/// content, when at most `links` deltas are followed to their bases.
///
/// An object entry holds a zlib stream with the content. A delta entry
/// holds a zlib stream with a delta, which is applied to the object of its
/// base; the result has the type of the base.
pub open spec fn entry(pack: Seq<u8>, idx: Seq<u8>, offset: int, links: nat) -> Option<
    (u8, Seq<u8>),
>
    decreases links,
{
    let len = pack.len() as int;
    match link(pack, idx, offset, links) {
        Link::Broken => None,
        Link::Object { body } => match zlib_inflated(pack.subrange(body, len)) {
            Some(content) => Some((entry_kind(pack[offset]), content)),
            None => None,
        },
        Link::Delta { base, links: left, stream } => delta_on(
            entry(pack, idx, base, left),
            zlib_inflated(pack.subrange(stream, len)),
        ),
    }
}

/// The number of entries on the chain from the entry at `offset` to the
/// object it is built on, or to the place where the chain breaks.
pub open spec fn chain_length(pack: Seq<u8>, idx: Seq<u8>, offset: int, links: nat) -> nat
    decreases links,
{
    match link(pack, idx, offset, links) {
        Link::Delta { base, links: left, stream } => 1 + chain_length(pack, idx, base, left),
        _ => 1,
    }
}

/// Every step along a chain descends: it uses up one link; the base of an
/// offset delta lies inside the pack and strictly before the delta, and the
/// base of a reference delta is what the index gives for an object id.
pub proof fn lemma_link_descends(pack: Seq<u8>, idx: Seq<u8>, offset: int, links: nat)
    ensures
        link(pack, idx, offset, links) matches Link::Delta { base, links: left, stream } ==> {
            &&& left + 1 == links
            &&& offset < stream <= pack.len()
            &&& {
                ||| 0 <= base < offset && entry_kind(pack[offset]) == 6
                ||| entry_kind(pack[offset]) == 7 && exists|oid: Seq<u8>|
                    find_offset(idx, oid) == Some(base as u64)
            }
        },
{
    if let Some(body) = varint_end(pack, offset) {
        crate::varint::lemma_varint_end_bounds(pack, offset);
        let len = pack.len() as int;
        if entry_kind(pack[offset]) == 7 {
            let oid = pack.subrange(body, body + 20);
            if let Some(base) = find_offset(idx, oid) {
                assert(find_offset(idx, oid) == Some(base as int as u64));
            }
        }
        if entry_kind(pack[offset]) == 6 {
            crate::varint::lemma_varint_end_bounds(pack.subrange(body, len), 0);
        }
    }
}

/// Chains are finite: a chain has at most one entry more than the links
/// that may be followed.
pub proof fn lemma_chain_bounded(pack: Seq<u8>, idx: Seq<u8>, offset: int, links: nat)
    ensures
        chain_length(pack, idx, offset, links) <= links + 1,
    decreases links,
{
    match link(pack, idx, offset, links) {
        Link::Delta { base, links: left, stream } => {
            lemma_chain_bounded(pack, idx, base, left);
        },
        _ => {},
    }
}

/// How many deltas a chain may follow: as many as the pack has bytes. A
/// chain that never comes back to an entry is never longer.
pub open spec fn link_limit(pack: Seq<u8>) -> nat {
    pack.len()
}

/// The object stored at `offset` of `pack`, with `idx` as its index.
pub open spec fn pack_object(pack: Seq<u8>, idx: Seq<u8>, offset: int) -> Option<(u8, Seq<u8>)> {
    entry(pack, idx, offset, link_limit(pack))
}

/// The object that the delta streams at the positions `streams` of the pack
/// build on `base`, the last of them applied first.
pub open spec fn replay(pack: Seq<u8>, base: Option<(u8, Seq<u8>)>, streams: Seq<int>) -> Option<
    (u8, Seq<u8>),
>
    decreases streams.len(),
{
    if streams.len() == 0 {
        base
    } else {
        replay(
            pack,
            delta_on(base, zlib_inflated(pack.subrange(streams.last(), pack.len() as int))),
            streams.drop_last(),
        )
    }
}

/// Deltas build nothing on a base that is not there.
proof fn lemma_replay_nothing(pack: Seq<u8>, streams: Seq<int>)
    ensures
        replay(pack, None, streams) is None,
    decreases streams.len(),
{
    if streams.len() > 0 {
        lemma_replay_nothing(pack, streams.drop_last());
    }
}

/// The header of an entry, as it was read.
enum Header {
    Object { body: usize },
    Delta { base: u64, links: usize, stream: usize },
    Broken,
}

/// Reads the header of the entry at `offset`.
fn read_header(pack_data: &[u8], idx_data: &[u8], offset: u64, links: usize) -> (r: Header)
    ensures
        match link(pack_data@, idx_data@, offset as int, links as nat) {
            Link::Object { body } => r matches Header::Object { body: b } && b == body && b
                <= pack_data@.len(),
            Link::Delta { base, links: left, stream } => r matches Header::Delta {
                base: b,
                links: l,
                stream: s,
            } && b == base && l == left && s == stream && s <= pack_data@.len(),
            Link::Broken => r is Broken,
        },
{
    let len: usize = pack_data.len();
    if offset >= len as u64 {
        return Header::Broken;
    }
    let start: usize = offset as usize;
    let kind: u8 = (pack_data[start] / 16) % 8;
    let body: usize = match skip_varint(pack_data, start) {
        Some(n) => n,
        None => return Header::Broken,
    };
    if 1 <= kind && kind <= 4 {
        Header::Object { body }
    } else if links == 0 {
        Header::Broken
    } else if kind == KIND_OFS_DELTA {
        let (distance, taken) = match read_ofs_delta_offset(slice_subrange(pack_data, body, len)) {
            Some(x) => x,
            None => return Header::Broken,
        };
        proof {
            crate::varint::lemma_varint_end_bounds(pack_data@.subrange(body as int, len as int), 0);
        }
        if distance == 0 || distance > offset {
            return Header::Broken;
        }
        Header::Delta { base: offset - distance, links: links - 1, stream: body + taken }
    } else if kind == KIND_REF_DELTA {
        if len - body < 20 {
            return Header::Broken;
        }
        match find_object_in_index(idx_data, slice_subrange(pack_data, body, body + 20)) {
            Some(base) => Header::Delta { base, links: links - 1, stream: body + 20 },
            None => Header::Broken,
        }
    } else {
        Header::Broken
    }
}

/// Reads the entry at `offset`, following at most `links` deltas to their
/// bases. The chain of deltas is walked down to the object it is built on,
/// and the deltas are applied on the way back.
fn read_entry(pack_data: &[u8], idx_data: &[u8], offset: u64, links: usize) -> (r: Option<
    (u8, Vec<u8>),
>)
    ensures
        match entry(pack_data@, idx_data@, offset as int, links as nat) {
            Some((kind, content)) => r matches Some((k, v)) && k == kind && v@ == content,
            None => r is None,
        },
{
    let len: usize = pack_data.len();
    let ghost whole = entry(pack_data@, idx_data@, offset as int, links as nat);
    let mut streams: Vec<usize> = Vec::new();
    let mut at: u64 = offset;
    let mut left: usize = links;
    let body: usize;
    loop
        invariant
            len == pack_data@.len(),
            whole == entry(pack_data@, idx_data@, offset as int, links as nat),
            forall|i: int| 0 <= i < streams@.len() ==> streams@[i] <= len,
            whole == replay(
                pack_data@,
                entry(pack_data@, idx_data@, at as int, left as nat),
                streams@.map_values(|s: usize| s as int),
            ),
        ensures
            body <= len,
            at < len,
            link(pack_data@, idx_data@, at as int, left as nat) == (Link::Object {
                body: body as int,
            }),
            forall|i: int| 0 <= i < streams@.len() ==> streams@[i] <= len,
            whole == replay(
                pack_data@,
                entry(pack_data@, idx_data@, at as int, left as nat),
                streams@.map_values(|s: usize| s as int),
            ),
        decreases left,
    {
        let ghost marks = streams@.map_values(|s: usize| s as int);
        match read_header(pack_data, idx_data, at, left) {
            Header::Broken => {
                proof {
                    lemma_replay_nothing(pack_data@, marks);
                }
                return None;
            },
            Header::Object { body: found } => {
                body = found;
                break ;
            },
            Header::Delta { base, links: fewer, stream } => {
                proof {
                    lemma_link_descends(pack_data@, idx_data@, at as int, left as nat);
                }
                streams.push(stream);
                proof {
                    let more = streams@.map_values(|s: usize| s as int);
                    assert(more.drop_last() =~= marks);
                    assert(more.last() == stream as int);
                }
                at = base;
                left = fewer;
            },
        }
    }
    let kind: u8 = (pack_data[at as usize] / 16) % 8;
    let mut content: Vec<u8> = match decompress_zlib(slice_subrange(pack_data, body, len)) {
        Some(c) => c,
        None => {
            proof {
                lemma_replay_nothing(pack_data@, streams@.map_values(|s: usize| s as int));
            }
            return None;
        },
    };
    let mut k: usize = streams.len();
    assert(streams@.take(k as int) =~= streams@);
    while k > 0
        invariant
            len == pack_data@.len(),
            whole == entry(pack_data@, idx_data@, offset as int, links as nat),
            k <= streams@.len(),
            forall|i: int| 0 <= i < streams@.len() ==> streams@[i] <= len,
            whole == replay(
                pack_data@,
                Some((kind, content@)),
                streams@.take(k as int).map_values(|s: usize| s as int),
            ),
        decreases k,
    {
        let ghost marks = streams@.take(k as int).map_values(|s: usize| s as int);
        k -= 1;
        proof {
            assert(marks.drop_last() =~= streams@.take(k as int).map_values(|s: usize| s as int));
            assert(marks.last() == streams@[k as int] as int);
        }
        let built: Option<Vec<u8>> = match decompress_zlib(
            slice_subrange(pack_data, streams[k], len),
        ) {
            Some(delta) => apply_delta(content.as_slice(), delta.as_slice()),
            None => None,
        };
        match built {
            Some(next) => {
                content = next;
            },
            None => {
                proof {
                    lemma_replay_nothing(pack_data@, marks.drop_last());
                }
                return None;
            },
        }
    }
    Some((kind, content))
}

/// Reads the object stored at `offset` of a pack and returns its type (1
/// commit, 2 tree, 3 blob, 4 tag) and content.
///
/// A delta entry is resolved against its base, and that against its own, to
/// the object at the end of the chain, whose type the result has. The
/// result is `None` when `offset` lies outside the pack, an entry of the
/// chain is cut off or of an unknown type, a stream does not inflate, a
/// base cannot be found, a delta does not apply, or the chain follows more
/// deltas than the pack has bytes, as a chain does that comes back to an
/// entry.
pub fn read_pack_object(pack_data: &[u8], idx_data: &[u8], offset: u64) -> (r: Option<
    (u8, Vec<u8>),
>)
    ensures
        match pack_object(pack_data@, idx_data@, offset as int) {
            Some((kind, content)) => r matches Some((k, v)) && k == kind && v@ == content,
            None => r is None,
        },
{
    read_entry(pack_data, idx_data, offset, pack_data.len())
}

/// The wire form of the object stored at `offset` of `pack`.
pub open spec fn pack_wire(pack: Seq<u8>, idx: Seq<u8>, offset: int) -> Option<Seq<u8>> {
    match pack_object(pack, idx, offset) {
        Some((kind, content)) => wire(kind, content),
        None => None,
    }
}

/// The object stored at `offset` of `pack` in the form in which loose
/// objects are stored: its wire form, deflated.
pub open spec fn pack_stored(pack: Seq<u8>, idx: Seq<u8>, offset: int) -> Option<Seq<u8>> {
    match pack_wire(pack, idx, offset) {
        Some(w) => zlib_deflated(w),
        None => None,
    }
}

/// Reads the object stored at `offset` of a pack and returns it in the form
/// in which loose objects are stored: the wire form, deflated.
///
/// The result is what deflating the wire form of the object yields, and a
/// zlib stream that inflates to that wire form. It is `None` when the
/// object cannot be read, and when the encoder fails.
pub fn extract_object_with_deltas(pack_data: &[u8], idx_data: &[u8], offset: u64) -> (r: Option<
    Vec<u8>,
>)
    ensures
        match pack_stored(pack_data@, idx_data@, offset as int) {
            Some(z) => r matches Some(v) && v@ == z,
            None => r is None,
        },
        r matches Some(v) ==> zlib_inflated(v@) == pack_wire(
            pack_data@,
            idx_data@,
            offset as int,
        ) && pack_wire(pack_data@, idx_data@, offset as int) is Some,
{
    let (kind, content) = match read_pack_object(pack_data, idx_data, offset) {
        Some(x) => x,
        None => return None,
    };
    match wire_form(kind, content.as_slice()) {
        Some(w) => compress_zlib(w.as_slice()),
        None => None,
    }
}

} // verus!
