//! The layout of the blob namespace: where objects, packs and references
//! live below the prefix of a repository.

use vstd::prelude::*;
use vstd::string::StringExecFns;
use crate::text::{chars_of, ends_with, has_prefix, has_suffix, push_chars, starts_with, text_of};

verus! {

/// The key of what is called `name` below `prefix`: `<prefix>/<name>`. This
/// is where a loose reference lives, and the prefix under which the loose
/// references with a common beginning are listed.
pub open spec fn ref_key(prefix: Seq<char>, name: Seq<char>) -> Seq<char> {
    prefix + seq!['/'] + name
}

/// The key of the packed references: `<prefix>/packed-refs`.
pub open spec fn packed_refs_key(prefix: Seq<char>) -> Seq<char> {
    prefix + "/packed-refs"@
}

/// The key prefix of the packs and their indexes: `<prefix>/objects/pack`.
pub open spec fn pack_dir(prefix: Seq<char>) -> Seq<char> {
    prefix + "/objects/pack"@
}

/// Where an object id is cut into directory and file name: after two
/// characters, or at its end when it is shorter.
pub open spec fn fan_cut(oid: Seq<char>) -> int {
    if oid.len() < 2 {
        oid.len() as int
    } else {
        2
    }
}

/// The key of a loose object: `<prefix>/objects/<aa>/<rest>`, with the first
/// two characters of the object id as `<aa>`.
pub open spec fn object_key(prefix: Seq<char>, oid: Seq<char>) -> Seq<char> {
    prefix + "/objects/"@ + oid.take(fan_cut(oid)) + seq!['/'] + oid.skip(fan_cut(oid))
}

/// The ending of the key of a pack index.
pub open spec fn idx_ending() -> Seq<char> {
    seq!['.', 'i', 'd', 'x']
}

/// The ending of the key of a pack.
pub open spec fn pack_ending() -> Seq<char> {
    seq!['.', 'p', 'a', 'c', 'k']
}

/// Whether `key` is the key of a pack index: it ends in `.idx`.
pub open spec fn is_idx_key(key: Seq<char>) -> bool {
    ends_with(key, idx_ending())
}

/// The key of the pack that belongs to the index at `idx_key`: the same key
/// with `.pack` in place of the ending `.idx`.
pub open spec fn pack_sibling(idx_key: Seq<char>) -> Seq<char> {
    idx_key.take(idx_key.len() - 4) + pack_ending()
}

/// The name of the reference stored at `key`: the key without `<prefix>/`
/// at its front, or the whole key when it does not begin so.
pub open spec fn loose_name(prefix: Seq<char>, key: Seq<char>) -> Seq<char> {
    if starts_with(key, prefix + seq!['/']) {
        key.skip(prefix.len() as int + 1)
    } else {
        key
    }
}

/// A key and the name it stores a reference under belong together: the
/// name of the key of a reference is that reference.
pub proof fn lemma_loose_name_of_ref_key(prefix: Seq<char>, name: Seq<char>)
    ensures
        loose_name(prefix, ref_key(prefix, name)) == name,
{
    let key = ref_key(prefix, name);
    let front = prefix + seq!['/'];
    assert(key.take(front.len() as int) =~= front);
    assert(key.skip(prefix.len() as int + 1) =~= name);
}

/// Builds `<prefix>/<name>`.
pub fn make_ref_key(prefix: &str, name: &str) -> (key: String)
    ensures
        key@ == ref_key(prefix@, name@),
{
    let mut key = String::from_str(prefix);
    key.push('/');
    key.append(name);
    assert(key@ =~= ref_key(prefix@, name@));
    key
}

/// Builds `<prefix>/packed-refs`.
pub fn make_packed_refs_key(prefix: &str) -> (key: String)
    ensures
        key@ == packed_refs_key(prefix@),
{
    let mut key = String::from_str(prefix);
    key.append("/packed-refs");
    key
}

/// Builds `<prefix>/objects/pack`.
pub fn make_pack_dir(prefix: &str) -> (key: String)
    ensures
        key@ == pack_dir(prefix@),
{
    let mut key = String::from_str(prefix);
    key.append("/objects/pack");
    key
}

/// Builds the key of the loose object `oid`.
pub fn make_object_key(prefix: &str, oid: &str) -> (key: String)
    ensures
        key@ == object_key(prefix@, oid@),
{
    let id: Vec<char> = chars_of(oid);
    let cut: usize = if id.len() < 2 {
        id.len()
    } else {
        2
    };
    let mut key = String::from_str(prefix);
    key.append("/objects/");
    push_chars(&mut key, id.as_slice(), 0, cut);
    key.push('/');
    push_chars(&mut key, id.as_slice(), cut, id.len());
    proof {
        assert(oid@.subrange(0, cut as int) =~= oid@.take(fan_cut(oid@)));
        assert(oid@.subrange(cut as int, oid@.len() as int) =~= oid@.skip(fan_cut(oid@)));
        assert(key@ =~= object_key(prefix@, oid@));
    }
    key
}

/// The characters `.idx`.
fn idx_ending_chars() -> (v: Vec<char>)
    ensures
        v@ == idx_ending(),
{
    let mut v: Vec<char> = Vec::new();
    v.push('.');
    v.push('i');
    v.push('d');
    v.push('x');
    assert(v@ =~= idx_ending());
    v
}

/// If `key` is the key of a pack index, the key of its pack.
pub fn pack_key_for(key: &str) -> (r: Option<String>)
    ensures
        match r {
            Some(k) => is_idx_key(key@) && k@ == pack_sibling(key@),
            None => !is_idx_key(key@),
        },
{
    let chars: Vec<char> = chars_of(key);
    let ending: Vec<char> = idx_ending_chars();
    if !has_suffix(chars.as_slice(), ending.as_slice()) {
        return None;
    }
    let mut out: String = text_of(chars.as_slice(), 0, chars.len() - 4);
    out.push('.');
    out.push('p');
    out.push('a');
    out.push('c');
    out.push('k');
    proof {
        assert(key@.subrange(0, key@.len() - 4) =~= key@.take(key@.len() - 4));
        assert(out@ =~= pack_sibling(key@));
    }
    Some(out)
}

/// The name of the reference stored at `key`.
pub fn loose_name_of(prefix: &str, key: &str) -> (name: String)
    ensures
        name@ == loose_name(prefix@, key@),
{
    let mut front: Vec<char> = chars_of(prefix);
    front.push('/');
    let chars: Vec<char> = chars_of(key);
    proof {
        assert(front@ =~= prefix@ + seq!['/']);
        assert(chars@.subrange(0, chars@.len() as int) =~= chars@);
    }
    if has_prefix(chars.as_slice(), 0, chars.len(), front.as_slice()) {
        let name = text_of(chars.as_slice(), front.len(), chars.len());
        assert(name@ =~= key@.skip(prefix@.len() as int + 1));
        name
    } else {
        String::from_str(key)
    }
}

} // verus!
