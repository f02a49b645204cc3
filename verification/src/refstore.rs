//! The reference operations of the store: reading and writing a loose
//! reference, listing references, and resolving a name to an object id
//! along symbolic references.

use vstd::prelude::*;
use vstd::string::{StrSliceExecFns, StringExecFns};
use vstd::utf8::encode_utf8;
use crate::keys::{
    loose_name,
    loose_name_of,
    make_packed_refs_key,
    make_ref_key,
    packed_refs_key,
    ref_key,
};
use crate::refs::{
    add_loose,
    bytes_of,
    chars_opt,
    classify_ref,
    contains_name,
    find_ref,
    keep_prefix,
    listed_packed,
    lookup,
    packed_refs_of,
    pairs,
    read_packed_refs,
    read_ref_text,
    ref_body,
    ref_text,
    RefBody,
};
use crate::store::{blob, R2GitStore, Reply, Request, Step};

verus! {

/// How many symbolic references a resolution follows at most.
pub const MAX_DEPTH: u8 = 10;

/// A `resolve_ref` in progress.
pub enum RefWalk {
    /// The loose reference `name` was asked for, after `depth` symbolic
    /// references were followed.
    Loose { name: String, depth: u8 },
    /// The packed references were asked for, to look up `name`.
    Packed { name: String },
}

/// A `list_refs` in progress.
pub enum RefListing {
    /// The packed references were asked for.
    Packed,
    /// The listing of the loose references was asked for; `refs` are the
    /// packed references that are listed.
    Listing { refs: Vec<(String, String)> },
    /// The loose reference at `keys[at]` was asked for; `refs` are listed.
    Loose { refs: Vec<(String, String)>, keys: Vec<String>, at: usize },
}

/// One step of `resolve_ref`: from the state and the reply to the next
/// request or the result.
///
/// A loose reference that holds an object id resolves to it. A symbolic
/// one is followed, unless ten were followed before: then the name
/// resolves to nothing. For any other, and for none, the name is looked up
/// in the packed references. A reply that does not answer the request of
/// the state ends the operation with nothing.
pub open spec fn resolve_next(
    prefix: Seq<char>,
    state: RefWalk,
    reply: Reply,
    step: Step<RefWalk, Option<String>>,
) -> bool {
    match (state, reply) {
        (RefWalk::Loose { name, depth }, Reply::Blob(body)) => if depth > 10 {
            step matches Step::Done(None)
        } else {
            match ref_body(bytes_of(body)) {
                RefBody::Symbolic(target) => if depth >= 10 {
                    step matches Step::Done(None)
                } else {
                    &&& step matches Step::Ask(
                        Request::Get(key),
                        RefWalk::Loose { name: next, depth: deeper },
                    )
                    &&& key@ == ref_key(prefix, target)
                    &&& next@ == target
                    &&& deeper == depth + 1
                },
                RefBody::Oid(oid) => step matches Step::Done(Some(found)) && found@ == oid,
                RefBody::Other => {
                    &&& step matches Step::Ask(Request::Get(key), RefWalk::Packed { name: same })
                    &&& key@ == packed_refs_key(prefix)
                    &&& same@ == name@
                },
            }
        },
        (RefWalk::Packed { name }, Reply::Blob(body)) => match packed_refs_of(bytes_of(body)) {
            Some(refs) => step matches Step::Done(found) && chars_opt(found) == lookup(refs, name@),
            None => step matches Step::Done(None),
        },
        _ => step matches Step::Done(None),
    }
}

/// Going on with a listing at position `at` of the keys, with `refs`
/// listed: the loose reference at that key is asked for, and behind the
/// last key the listing is done.
pub open spec fn visiting(
    refs: Seq<(Seq<char>, Seq<char>)>,
    keys: Seq<String>,
    at: int,
    step: Step<RefListing, Vec<(String, String)>>,
) -> bool {
    if 0 <= at < keys.len() {
        &&& step matches Step::Ask(
            Request::Get(key),
            RefListing::Loose { refs: listed, keys: kept, at: same },
        )
        &&& key@ == keys[at]@
        &&& pairs(listed@) == refs
        &&& kept@ == keys
        &&& same == at
    } else {
        step matches Step::Done(listed) && pairs(listed@) == refs
    }
}

/// One step of `list_refs`: from the state and the reply to the next
/// request or the result.
///
/// The list begins with the packed references whose names begin with
/// `ref_prefix`. The keys below `<prefix>/<ref_prefix>` are listed, and the
/// loose reference at each of them is added in the order of the listing,
/// unless its name is listed already. A reply that does not answer the
/// request of the state ends the operation with an empty list.
pub open spec fn list_next(
    prefix: Seq<char>,
    ref_prefix: Seq<char>,
    state: RefListing,
    reply: Reply,
    step: Step<RefListing, Vec<(String, String)>>,
) -> bool {
    match (state, reply) {
        (RefListing::Packed, Reply::Blob(body)) => {
            &&& step matches Step::Ask(Request::List(dir), RefListing::Listing { refs })
            &&& dir@ == ref_key(prefix, ref_prefix)
            &&& pairs(refs@) == listed_packed(bytes_of(body), ref_prefix)
        },
        (RefListing::Listing { refs }, Reply::Keys(keys)) => visiting(pairs(refs@), keys@, 0, step),
        (RefListing::Loose { refs, keys, at }, Reply::Blob(body)) => if at < keys@.len() {
            visiting(
                add_loose(pairs(refs@), loose_name(prefix, keys@[at as int]@), bytes_of(body)),
                keys@,
                at + 1,
                step,
            )
        } else {
            step matches Step::Done(listed) && pairs(listed@) == pairs(refs@)
        },
        _ => step matches Step::Done(listed) && listed@.len() == 0,
    }
}

/// What looking `name` up in the packed references of a blob namespace
/// gives.
pub open spec fn in_packed(world: Map<Seq<char>, Seq<u8>>, prefix: Seq<char>, name: Seq<char>) -> Option<
    Seq<char>,
> {
    match packed_refs_of(blob(world, packed_refs_key(prefix))) {
        Some(refs) => lookup(refs, name),
        None => None,
    }
}

/// What `name` resolves to in a blob namespace, after `depth` symbolic
/// references were followed.
pub open spec fn resolved_from(
    world: Map<Seq<char>, Seq<u8>>,
    prefix: Seq<char>,
    name: Seq<char>,
    depth: nat,
) -> Option<Seq<char>>
    decreases 11 - depth,
{
    if depth > 10 {
        None
    } else {
        match ref_body(blob(world, ref_key(prefix, name))) {
            RefBody::Symbolic(target) => resolved_from(world, prefix, target, depth + 1),
            RefBody::Oid(oid) => Some(oid),
            RefBody::Other => in_packed(world, prefix, name),
        }
    }
}

/// What `name` resolves to in a blob namespace.
pub open spec fn resolved(world: Map<Seq<char>, Seq<u8>>, prefix: Seq<char>, name: Seq<char>) -> Option<
    Seq<char>,
> {
    resolved_from(world, prefix, name, 0)
}

/// The key that a resolution in `state` has asked for.
pub open spec fn walk_key(prefix: Seq<char>, state: RefWalk) -> Seq<char> {
    match state {
        RefWalk::Loose { name, depth } => ref_key(prefix, name@),
        RefWalk::Packed { name } => packed_refs_key(prefix),
    }
}

/// What a resolution in `state` ends with in a blob namespace.
pub open spec fn walk_outcome(world: Map<Seq<char>, Seq<u8>>, prefix: Seq<char>, state: RefWalk) -> Option<
    Seq<char>,
> {
    match state {
        RefWalk::Loose { name, depth } => resolved_from(world, prefix, name@, depth as nat),
        RefWalk::Packed { name } => in_packed(world, prefix, name@),
    }
}

/// Each step of a resolution keeps what it ends with: when the reply is
/// the blob that the namespace holds under the key asked for, a step that
/// is done returns what the state resolves to, and a step that asks again
/// asks for the key of its new state, which resolves to the same.
pub proof fn lemma_resolve_step(
    world: Map<Seq<char>, Seq<u8>>,
    prefix: Seq<char>,
    state: RefWalk,
    body: Option<Vec<u8>>,
    step: Step<RefWalk, Option<String>>,
)
    requires
        bytes_of(body) == blob(world, walk_key(prefix, state)),
        resolve_next(prefix, state, Reply::Blob(body), step),
    ensures
        match step {
            Step::Done(found) => chars_opt(found) == walk_outcome(world, prefix, state),
            Step::Ask(request, next) => {
                &&& request matches Request::Get(key)
                &&& key@ == walk_key(prefix, next)
                &&& walk_outcome(world, prefix, next) == walk_outcome(world, prefix, state)
            },
        },
{
    reveal_with_fuel(resolved_from, 2);
}

proof fn lemma_self_reference_at(
    world: Map<Seq<char>, Seq<u8>>,
    prefix: Seq<char>,
    name: Seq<char>,
    depth: nat,
)
    requires
        ref_body(blob(world, ref_key(prefix, name))) == RefBody::Symbolic(name),
    ensures
        resolved_from(world, prefix, name, depth) is None,
    decreases 11 - depth,
{
    if depth <= 10 {
        lemma_self_reference_at(world, prefix, name, depth + 1);
    }
}

/// A symbolic reference that names itself resolves to
/// nothing, after eleven reads.
pub proof fn lemma_self_reference_is_absent(
    world: Map<Seq<char>, Seq<u8>>,
    prefix: Seq<char>,
    name: Seq<char>,
)
    requires
        ref_body(blob(world, ref_key(prefix, name))) == RefBody::Symbolic(name),
    ensures
        resolved(world, prefix, name) is None,
{
    lemma_self_reference_at(world, prefix, name, 0);
}

/// The list of references after the loose references at the keys from
/// position `at` on were added to `refs`.
pub open spec fn listed_from(
    world: Map<Seq<char>, Seq<u8>>,
    prefix: Seq<char>,
    refs: Seq<(Seq<char>, Seq<char>)>,
    keys: Seq<String>,
    at: int,
) -> Seq<(Seq<char>, Seq<char>)>
    decreases keys.len() - at,
{
    if 0 <= at < keys.len() {
        listed_from(
            world,
            prefix,
            add_loose(refs, loose_name(prefix, keys[at]@), blob(world, keys[at]@)),
            keys,
            at + 1,
        )
    } else {
        refs
    }
}

/// The references whose names begin with `ref_prefix` in a blob namespace
/// whose listing below `<prefix>/<ref_prefix>` is `keys`.
pub open spec fn listed(
    world: Map<Seq<char>, Seq<u8>>,
    prefix: Seq<char>,
    ref_prefix: Seq<char>,
    keys: Seq<String>,
) -> Seq<(Seq<char>, Seq<char>)> {
    listed_from(
        world,
        prefix,
        listed_packed(blob(world, packed_refs_key(prefix)), ref_prefix),
        keys,
        0,
    )
}

/// What a listing in `state` ends with in a blob namespace whose listing
/// is `keys`.
pub open spec fn listing_outcome(
    world: Map<Seq<char>, Seq<u8>>,
    prefix: Seq<char>,
    ref_prefix: Seq<char>,
    keys: Seq<String>,
    state: RefListing,
) -> Seq<(Seq<char>, Seq<char>)> {
    match state {
        RefListing::Packed => listed(world, prefix, ref_prefix, keys),
        RefListing::Listing { refs } => listed_from(world, prefix, pairs(refs@), keys, 0),
        RefListing::Loose { refs, keys: held, at } => listed_from(
            world,
            prefix,
            pairs(refs@),
            held@,
            at as int,
        ),
    }
}

/// The reply of a blob namespace, whose listing is `keys`, to the request
/// of a listing in `state`.
pub open spec fn listing_reply(
    world: Map<Seq<char>, Seq<u8>>,
    prefix: Seq<char>,
    keys: Seq<String>,
    state: RefListing,
    reply: Reply,
) -> bool {
    match state {
        RefListing::Packed => reply matches Reply::Blob(body) && bytes_of(body) == blob(
            world,
            packed_refs_key(prefix),
        ),
        RefListing::Listing { refs } => reply matches Reply::Keys(found) && found@ == keys,
        RefListing::Loose { refs, keys: held, at } => {
            &&& held@ == keys
            &&& at < keys.len()
            &&& reply matches Reply::Blob(body)
            &&& bytes_of(body) == blob(world, keys[at as int]@)
        },
    }
}

/// Each step of a listing keeps what it ends with: when the reply is what
/// the namespace answers to the request of the state, a step that is done
/// returns the list that the state ends with, and a step that asks again
/// goes to a state that ends with the same.
pub proof fn lemma_list_step(
    world: Map<Seq<char>, Seq<u8>>,
    prefix: Seq<char>,
    ref_prefix: Seq<char>,
    keys: Seq<String>,
    state: RefListing,
    reply: Reply,
    step: Step<RefListing, Vec<(String, String)>>,
)
    requires
        listing_reply(world, prefix, keys, state, reply),
        list_next(prefix, ref_prefix, state, reply, step),
    ensures
        match step {
            Step::Done(found) => pairs(found@) == listing_outcome(
                world,
                prefix,
                ref_prefix,
                keys,
                state,
            ),
            Step::Ask(request, next) => listing_outcome(world, prefix, ref_prefix, keys, next)
                == listing_outcome(world, prefix, ref_prefix, keys, state),
        },
{
    reveal_with_fuel(listed_from, 2);
}

/// Packed references come first and stay: the list begins with the packed
/// references that begin with the prefix, whatever loose references
/// follow.
pub proof fn lemma_listed_keeps(
    world: Map<Seq<char>, Seq<u8>>,
    prefix: Seq<char>,
    refs: Seq<(Seq<char>, Seq<char>)>,
    keys: Seq<String>,
    at: int,
)
    ensures
        refs.is_prefix_of(listed_from(world, prefix, refs, keys, at)),
    decreases keys.len() - at,
{
    if 0 <= at < keys.len() {
        let next = add_loose(refs, loose_name(prefix, keys[at]@), blob(world, keys[at]@));
        lemma_listed_keeps(world, prefix, next, keys, at + 1);
    }
}

/// Asks for the loose reference at `keys[at]`, or ends the listing.
fn visit(refs: Vec<(String, String)>, keys: Vec<String>, at: usize) -> (step: Step<
    RefListing,
    Vec<(String, String)>,
>)
    ensures
        visiting(pairs(refs@), keys@, at as int, step),
{
    if at < keys.len() {
        let key: String = keys[at].clone();
        Step::Ask(Request::Get(key), RefListing::Loose { refs, keys, at })
    } else {
        Step::Done(refs)
    }
}

impl R2GitStore {
    /// Begins to read the loose reference `ref_name`: the blob to get.
    pub fn read_ref(&self, ref_name: &str) -> (req: Request)
        ensures
            req matches Request::Get(key) && key@ == ref_key(self@.prefix, ref_name@),
    {
        Request::Get(make_ref_key(self.repo_prefix(), ref_name))
    }

    /// Ends reading a loose reference: what its blob says, without the
    /// white space around it. `None` when the blob is absent or not valid
    /// UTF-8, and for a reply to another request.
    pub fn read_ref_done(&self, reply: Reply) -> (r: Option<String>)
        ensures
            match reply {
                Reply::Blob(body) => chars_opt(r) == ref_text(bytes_of(body)),
                _ => r is None,
            },
    {
        match reply {
            Reply::Blob(body) => read_ref_text(&body),
            _ => None,
        }
    }

    /// Writes the loose reference `ref_name`: the blob to put, which holds
    /// `oid` and a line feed.
    pub fn write_ref(&self, ref_name: &str, oid: &str) -> (req: Request)
        ensures
            req matches Request::Put(key, body) && key@ == ref_key(self@.prefix, ref_name@)
                && body@ == encode_utf8(oid@.push('\n')),
    {
        let mut line: String = String::from_str(oid);
        line.push('\n');
        Request::Put(make_ref_key(self.repo_prefix(), ref_name), line.as_str().as_bytes_vec())
    }

    /// Begins to list the references whose names begin with `prefix`: the
    /// packed references are asked for.
    pub fn list_refs(&self, prefix: &str) -> (step: Step<RefListing, Vec<(String, String)>>)
        ensures
            step matches Step::Ask(Request::Get(key), RefListing::Packed) && key@
                == packed_refs_key(self@.prefix),
    {
        Step::Ask(Request::Get(make_packed_refs_key(self.repo_prefix())), RefListing::Packed)
    }

    /// Goes on with listing the references whose names begin with `prefix`,
    /// in `state` and with the reply to the request that was asked for.
    pub fn list_refs_resume(&self, prefix: &str, state: RefListing, reply: Reply) -> (step: Step<
        RefListing,
        Vec<(String, String)>,
    >)
        ensures
            list_next(self@.prefix, prefix@, state, reply, step),
    {
        match state {
            RefListing::Packed => match reply {
                Reply::Blob(body) => {
                    let refs: Vec<(String, String)> = match read_packed_refs(&body) {
                        Some(all) => keep_prefix(&all, prefix),
                        None => {
                            let none: Vec<(String, String)> = Vec::new();
                            assert(pairs(none@) =~= Seq::empty());
                            none
                        },
                    };
                    Step::Ask(
                        Request::List(make_ref_key(self.repo_prefix(), prefix)),
                        RefListing::Listing { refs },
                    )
                },
                _ => Step::Done(Vec::new()),
            },
            RefListing::Listing { refs } => match reply {
                Reply::Keys(keys) => visit(refs, keys, 0),
                _ => Step::Done(Vec::new()),
            },
            RefListing::Loose { refs, keys, at } => match reply {
                Reply::Blob(body) => {
                    if at >= keys.len() {
                        return Step::Done(refs);
                    }
                    let name: String = loose_name_of(self.repo_prefix(), keys[at].as_str());
                    let mut listed: Vec<(String, String)> = refs;
                    let ghost before = pairs(listed@);
                    match read_ref_text(&body) {
                        Some(oid) => {
                            if !contains_name(&listed, &name) {
                                listed.push((name, oid));
                                assert(pairs(listed@) =~= before.push((name@, oid@)));
                            }
                        },
                        None => {},
                    }
                    visit(listed, keys, at + 1)
                },
                _ => Step::Done(Vec::new()),
            },
        }
    }

    /// Begins to resolve `ref_name` to an object id: the loose reference is
    /// asked for.
    pub fn resolve_ref(&self, ref_name: &str) -> (step: Step<RefWalk, Option<String>>)
        ensures
            step matches Step::Ask(Request::Get(key), RefWalk::Loose { name, depth }) && key@
                == ref_key(self@.prefix, ref_name@) && name@ == ref_name@ && depth == 0,
    {
        Step::Ask(
            Request::Get(make_ref_key(self.repo_prefix(), ref_name)),
            RefWalk::Loose { name: String::from_str(ref_name), depth: 0 },
        )
    }

    /// Goes on with resolving a name, in `state` and with the reply to the
    /// request that was asked for.
    pub fn resolve_ref_resume(&self, state: RefWalk, reply: Reply) -> (step: Step<
        RefWalk,
        Option<String>,
    >)
        ensures
            resolve_next(self@.prefix, state, reply, step),
    {
        match state {
            RefWalk::Loose { name, depth } => match reply {
                Reply::Blob(body) => {
                    if depth > MAX_DEPTH {
                        return Step::Done(None);
                    }
                    match classify_ref(&body) {
                        RefBody::Symbolic(target) => if depth >= MAX_DEPTH {
                            Step::Done(None)
                        } else {
                            let key: String = make_ref_key(self.repo_prefix(), target.as_str());
                            Step::Ask(
                                Request::Get(key),
                                RefWalk::Loose { name: target, depth: depth + 1 },
                            )
                        },
                        RefBody::Oid(oid) => Step::Done(Some(oid)),
                        RefBody::Other => Step::Ask(
                            Request::Get(make_packed_refs_key(self.repo_prefix())),
                            RefWalk::Packed { name },
                        ),
                    }
                },
                _ => Step::Done(None),
            },
            RefWalk::Packed { name } => match reply {
                Reply::Blob(body) => match read_packed_refs(&body) {
                    Some(refs) => Step::Done(find_ref(&refs, name.as_str())),
                    None => Step::Done(None),
                },
                _ => Step::Done(None),
            },
        }
    }
}

} // verus!
