//! References: loose reference bodies, the packed-refs file, and the list
//! of references that the two make together.

use vstd::prelude::*;
use vstd::string::StringExecFns;
use vstd::utf8::{decode_utf8, valid_utf8};
use crate::text::{
    chars_of,
    find_char,
    has_prefix,
    is_oid,
    is_oid_text,
    lemma_position_first,
    position,
    starts_with,
    text_of,
    trim_bounds,
    trimmed,
};

verus! {

/// Decodes `bytes` as UTF-8.
///
/// Trusted: `std::str::from_utf8` returns the bytes as a string slice when
/// they are valid UTF-8, and an error otherwise. The contract says so over
/// the decoding that `vstd` defines.
#[verifier::external_body]
pub(crate) fn utf8_text(bytes: &[u8]) -> (r: Option<&str>)
    ensures
        match r {
            Some(s) => valid_utf8(bytes@) && s@ == decode_utf8(bytes@),
            None => !valid_utf8(bytes@),
        },
{
    std::str::from_utf8(bytes).ok()
}

/// The bytes of a blob that may be absent.
pub open spec fn bytes_of(body: Option<Vec<u8>>) -> Option<Seq<u8>> {
    match body {
        Some(v) => Some(v@),
        None => None,
    }
}

/// The characters of a string that may be absent.
pub open spec fn chars_opt(s: Option<String>) -> Option<Seq<char>> {
    match s {
        Some(v) => Some(v@),
        None => None,
    }
}

/// A list of references as pairs of name and object id.
pub open spec fn pairs(refs: Seq<(String, String)>) -> Seq<(Seq<char>, Seq<char>)> {
    Seq::new(refs.len(), |i: int| (refs[i].0@, refs[i].1@))
}

/// The text of a blob: its bytes decoded as UTF-8. `None` when the blob is
/// absent or not valid UTF-8.
pub open spec fn blob_text(body: Option<Seq<u8>>) -> Option<Seq<char>> {
    match body {
        Some(b) => if valid_utf8(b) {
            Some(decode_utf8(b))
        } else {
            None
        },
        None => None,
    }
}

/// What a loose reference says: the text of its blob without the white
/// space around it.
pub open spec fn ref_text(body: Option<Seq<u8>>) -> Option<Seq<char>> {
    match blob_text(body) {
        Some(t) => Some(trimmed(t)),
        None => None,
    }
}

/// What a loose reference is.
pub enum RefBody<T> {
    /// `ref: <target>`: another reference, by name.
    Symbolic(T),
    /// An object id.
    Oid(T),
    /// Absent, unreadable, or neither of the two.
    Other,
}

/// The beginning of a symbolic reference: `ref: `.
pub open spec fn symbolic_mark() -> Seq<char> {
    seq!['r', 'e', 'f', ':', ' ']
}

/// Classifies a loose reference by what it says.
pub open spec fn ref_body(body: Option<Seq<u8>>) -> RefBody<Seq<char>> {
    match ref_text(body) {
        None => RefBody::Other,
        Some(t) => if starts_with(t, symbolic_mark()) {
            RefBody::Symbolic(t.skip(5))
        } else if is_oid_text(t) {
            RefBody::Oid(t)
        } else {
            RefBody::Other
        },
    }
}

/// The reference on one line of a packed-refs file, as name and object id.
///
/// The line is trimmed. An empty line, a comment (`#`) and a peeled line
/// (`^`) hold none. Otherwise the object id is what stands before the first
/// space and the name is what follows it; a line without a space holds none.
pub open spec fn packed_entry(line: Seq<char>) -> Option<(Seq<char>, Seq<char>)> {
    let t = trimmed(line);
    if t.len() == 0 || t[0] == '#' || t[0] == '^' {
        None
    } else {
        match position(t, ' ', 0) {
            Some(i) => Some((t.skip(i + 1), t.take(i))),
            None => None,
        }
    }
}

/// The references of one line, as a list of none or one.
pub open spec fn line_refs(line: Seq<char>) -> Seq<(Seq<char>, Seq<char>)> {
    match packed_entry(line) {
        Some(e) => seq![e],
        None => Seq::empty(),
    }
}

/// The references in the text of a packed-refs file, line by line.
pub open spec fn packed_refs(text: Seq<char>) -> Seq<(Seq<char>, Seq<char>)>
    decreases text.len(),
    via packed_refs_decreases
{
    if text.len() == 0 {
        Seq::empty()
    } else {
        match position(text, '\n', 0) {
            Some(i) => line_refs(text.take(i)) + packed_refs(text.skip(i + 1)),
            None => line_refs(text),
        }
    }
}

#[via_fn]
proof fn packed_refs_decreases(text: Seq<char>) {
    lemma_position_first(text, '\n', 0);
}

/// The references of a packed-refs blob. `None` when the blob is absent or
/// not valid UTF-8.
pub open spec fn packed_refs_of(body: Option<Seq<u8>>) -> Option<Seq<(Seq<char>, Seq<char>)>> {
    match blob_text(body) {
        Some(t) => Some(packed_refs(t)),
        None => None,
    }
}

/// The object id of the first reference called `name`.
pub open spec fn lookup(refs: Seq<(Seq<char>, Seq<char>)>, name: Seq<char>) -> Option<Seq<char>>
    decreases refs.len(),
{
    if refs.len() == 0 {
        None
    } else if refs[0].0 == name {
        Some(refs[0].1)
    } else {
        lookup(refs.drop_first(), name)
    }
}

/// Whether a reference called `name` is in the list.
pub open spec fn has_name(refs: Seq<(Seq<char>, Seq<char>)>, name: Seq<char>) -> bool {
    exists|i: int| 0 <= i < refs.len() && (#[trigger] refs[i]).0 == name
}

/// The references whose names begin with `prefix`, in their order.
pub open spec fn with_prefix(refs: Seq<(Seq<char>, Seq<char>)>, prefix: Seq<char>) -> Seq<
    (Seq<char>, Seq<char>),
>
    decreases refs.len(),
{
    if refs.len() == 0 {
        Seq::empty()
    } else if starts_with(refs.last().0, prefix) {
        with_prefix(refs.drop_last(), prefix).push(refs.last())
    } else {
        with_prefix(refs.drop_last(), prefix)
    }
}

/// The packed references that a listing under `prefix` starts from: those
/// whose names begin with it, and none when there is no packed-refs file.
pub open spec fn listed_packed(body: Option<Seq<u8>>, prefix: Seq<char>) -> Seq<
    (Seq<char>, Seq<char>),
> {
    match packed_refs_of(body) {
        Some(refs) => with_prefix(refs, prefix),
        None => Seq::empty(),
    }
}

/// The list after a loose reference was looked at: the reference is added
/// at the end, with what its blob says as object id, unless its blob is
/// absent or unreadable, or a reference of that name is in the list.
pub open spec fn add_loose(
    refs: Seq<(Seq<char>, Seq<char>)>,
    name: Seq<char>,
    body: Option<Seq<u8>>,
) -> Seq<(Seq<char>, Seq<char>)> {
    match ref_text(body) {
        Some(oid) => if has_name(refs, name) {
            refs
        } else {
            refs.push((name, oid))
        },
        None => refs,
    }
}

/// In a list, a name is looked up with success exactly if it is there.
pub proof fn lemma_lookup_finds_names(refs: Seq<(Seq<char>, Seq<char>)>, name: Seq<char>)
    ensures
        lookup(refs, name) is Some <==> has_name(refs, name),
    decreases refs.len(),
{
    if refs.len() > 0 {
        let rest = refs.drop_first();
        lemma_lookup_finds_names(rest, name);
        if refs[0].0 != name {
            if has_name(refs, name) {
                let i = choose|i: int| 0 <= i < refs.len() && (#[trigger] refs[i]).0 == name;
                assert(rest[i - 1] == refs[i]);
            }
            if has_name(rest, name) {
                let i = choose|i: int| 0 <= i < rest.len() && (#[trigger] rest[i]).0 == name;
                assert(refs[i + 1] == rest[i]);
            }
        }
    }
}

/// The trimmed characters of a blob's text.
fn trimmed_chars(body: &Option<Vec<u8>>) -> (r: Option<Vec<char>>)
    ensures
        match ref_text(bytes_of(*body)) {
            Some(t) => r matches Some(v) && v@ == t,
            None => r is None,
        },
{
    let bytes: &Vec<u8> = match body {
        Some(b) => b,
        None => return None,
    };
    let text: &str = match utf8_text(bytes.as_slice()) {
        Some(s) => s,
        None => return None,
    };
    let chars: Vec<char> = chars_of(text);
    let (a, b) = trim_bounds(chars.as_slice(), 0, chars.len());
    let mut out: Vec<char> = Vec::new();
    let mut k: usize = a;
    assert(chars@.subrange(0, chars@.len() as int) =~= chars@);
    while k < b
        invariant
            a <= k <= b <= chars@.len(),
            out@ == chars@.subrange(a as int, k as int),
        decreases b - k,
    {
        out.push(chars[k]);
        k += 1;
        assert(out@ =~= chars@.subrange(a as int, k as int));
    }
    Some(out)
}

/// Reads what a loose reference says from its blob.
pub fn read_ref_text(body: &Option<Vec<u8>>) -> (r: Option<String>)
    ensures
        chars_opt(r) == ref_text(bytes_of(*body)),
{
    match trimmed_chars(body) {
        Some(t) => {
            let s = text_of(t.as_slice(), 0, t.len());
            assert(t@.subrange(0, t@.len() as int) =~= t@);
            Some(s)
        },
        None => None,
    }
}

/// Classifies a loose reference by its blob.
pub fn classify_ref(body: &Option<Vec<u8>>) -> (r: RefBody<String>)
    ensures
        match ref_body(bytes_of(*body)) {
            RefBody::Symbolic(t) => r matches RefBody::Symbolic(s) && s@ == t,
            RefBody::Oid(t) => r matches RefBody::Oid(s) && s@ == t,
            RefBody::Other => r is Other,
        },
{
    let t: Vec<char> = match trimmed_chars(body) {
        Some(t) => t,
        None => return RefBody::Other,
    };
    let mut mark: Vec<char> = Vec::new();
    mark.push('r');
    mark.push('e');
    mark.push('f');
    mark.push(':');
    mark.push(' ');
    proof {
        assert(mark@ =~= symbolic_mark());
        assert(t@.subrange(0, t@.len() as int) =~= t@);
    }
    if has_prefix(t.as_slice(), 0, t.len(), mark.as_slice()) {
        let target = text_of(t.as_slice(), 5, t.len());
        assert(target@ =~= t@.skip(5));
        RefBody::Symbolic(target)
    } else if is_oid(t.as_slice(), 0, t.len()) {
        RefBody::Oid(text_of(t.as_slice(), 0, t.len()))
    } else {
        RefBody::Other
    }
}

/// Reads the reference on the line `text[from..to]`.
fn read_packed_line(text: &[char], from: usize, to: usize) -> (r: Option<(String, String)>)
    requires
        from <= to <= text@.len(),
    ensures
        match packed_entry(text@.subrange(from as int, to as int)) {
            Some(e) => r matches Some(p) && p.0@ == e.0 && p.1@ == e.1,
            None => r is None,
        },
{
    let (a, b) = trim_bounds(text, from, to);
    if a == b {
        return None;
    }
    let ghost t = text@.subrange(a as int, b as int);
    assert(t[0] == text@[a as int]);
    let first: char = text[a];
    if first == '#' || first == '^' {
        return None;
    }
    match find_char(text, a, b, ' ') {
        Some(at) => {
            let name = text_of(text, at + 1, b);
            let oid = text_of(text, a, at);
            proof {
                assert(name@ =~= t.skip(at - a + 1));
                assert(oid@ =~= t.take(at - a));
            }
            Some((name, oid))
        },
        None => None,
    }
}

/// Reads the references in the text of a packed-refs file.
pub fn parse_packed_refs(text: &[char]) -> (refs: Vec<(String, String)>)
    ensures
        pairs(refs@) == packed_refs(text@),
{
    let len: usize = text.len();
    let mut refs: Vec<(String, String)> = Vec::new();
    let mut pos: usize = 0;
    assert(text@.skip(0) =~= text@);
    assert(pairs(refs@) + packed_refs(text@) =~= packed_refs(text@));
    while pos < len
        invariant
            len == text@.len(),
            pos <= len,
            packed_refs(text@) == pairs(refs@) + packed_refs(text@.skip(pos as int)),
        decreases len - pos,
    {
        let ghost rest = text@.skip(pos as int);
        let ghost before = pairs(refs@);
        assert(rest =~= text@.subrange(pos as int, len as int));
        let end: usize = match find_char(text, pos, len, '\n') {
            Some(at) => at,
            None => len,
        };
        assert(text@.subrange(pos as int, end as int) =~= rest.take(end - pos));
        match read_packed_line(text, pos, end) {
            Some(entry) => {
                refs.push(entry);
                assert(pairs(refs@) =~= before + line_refs(rest.take(end - pos)));
            },
            None => {
                assert(pairs(refs@) =~= before + line_refs(rest.take(end - pos)));
            },
        }
        if end < len {
            assert(rest.skip(end - pos + 1) =~= text@.skip(end + 1));
            pos = end + 1;
        } else {
            assert(rest.take(len - pos) =~= rest);
            assert(packed_refs(text@.skip(len as int)) =~= Seq::empty());
            pos = len;
        }
        assert(before + (line_refs(rest.take(end - pos)) + packed_refs(text@.skip(pos as int)))
            =~= (before + line_refs(rest.take(end - pos))) + packed_refs(text@.skip(pos as int)));
    }
    assert(pairs(refs@) + Seq::empty() =~= pairs(refs@));
    refs
}

/// Reads the references of a packed-refs blob. The result is `None` when
/// the blob is absent or not valid UTF-8.
pub fn read_packed_refs(body: &Option<Vec<u8>>) -> (r: Option<Vec<(String, String)>>)
    ensures
        match packed_refs_of(bytes_of(*body)) {
            Some(refs) => r matches Some(v) && pairs(v@) == refs,
            None => r is None,
        },
{
    let bytes: &Vec<u8> = match body {
        Some(b) => b,
        None => return None,
    };
    let text: &str = match utf8_text(bytes.as_slice()) {
        Some(s) => s,
        None => return None,
    };
    let chars: Vec<char> = chars_of(text);
    Some(parse_packed_refs(chars.as_slice()))
}

/// Looks up the first reference called `name`.
pub fn find_ref(refs: &Vec<(String, String)>, name: &str) -> (r: Option<String>)
    ensures
        chars_opt(r) == lookup(pairs(refs@), name@),
{
    let wanted: String = String::from_str(name);
    let n: usize = refs.len();
    let mut k: usize = 0;
    assert(pairs(refs@).skip(0) =~= pairs(refs@));
    while k < n
        invariant
            n == refs@.len(),
            k <= n,
            wanted@ == name@,
            lookup(pairs(refs@), name@) == lookup(pairs(refs@).skip(k as int), name@),
        decreases n - k,
    {
        let ghost rest = pairs(refs@).skip(k as int);
        assert(rest[0] == (refs@[k as int].0@, refs@[k as int].1@));
        assert(rest.drop_first() =~= pairs(refs@).skip(k + 1));
        if refs[k].0 == wanted {
            return Some(refs[k].1.clone());
        }
        k += 1;
    }
    None
}

/// Whether a reference called `name` is in the list.
pub fn contains_name(refs: &Vec<(String, String)>, name: &String) -> (r: bool)
    ensures
        r == has_name(pairs(refs@), name@),
{
    let n: usize = refs.len();
    let mut k: usize = 0;
    while k < n
        invariant
            n == refs@.len(),
            k <= n,
            forall|i: int| 0 <= i < k ==> (#[trigger] pairs(refs@)[i]).0 != name@,
        decreases n - k,
    {
        if refs[k].0 == *name {
            assert(pairs(refs@)[k as int].0 == name@);
            return true;
        }
        k += 1;
    }
    false
}

/// Keeps the references whose names begin with `prefix`.
pub fn keep_prefix(refs: &Vec<(String, String)>, prefix: &str) -> (kept: Vec<(String, String)>)
    ensures
        pairs(kept@) == with_prefix(pairs(refs@), prefix@),
{
    let wanted: Vec<char> = chars_of(prefix);
    let n: usize = refs.len();
    let mut kept: Vec<(String, String)> = Vec::new();
    let mut k: usize = 0;
    assert(pairs(kept@) =~= with_prefix(pairs(refs@).take(0), prefix@));
    while k < n
        invariant
            n == refs@.len(),
            k <= n,
            wanted@ == prefix@,
            pairs(kept@) == with_prefix(pairs(refs@).take(k as int), prefix@),
        decreases n - k,
    {
        let ghost before = pairs(kept@);
        let ghost front = pairs(refs@).take(k + 1);
        assert(front.drop_last() =~= pairs(refs@).take(k as int));
        assert(front.last() == (refs@[k as int].0@, refs@[k as int].1@));
        let name: Vec<char> = chars_of(refs[k].0.as_str());
        assert(name@.subrange(0, name@.len() as int) =~= name@);
        if has_prefix(name.as_slice(), 0, name.len(), wanted.as_slice()) {
            kept.push((refs[k].0.clone(), refs[k].1.clone()));
            assert(pairs(kept@) =~= before.push(front.last()));
        }
        k += 1;
    }
    assert(pairs(refs@).take(n as int) =~= pairs(refs@));
    kept
}

} // verus!
