//! The store: a repository below a prefix of a blob namespace, with a cache
//! of objects and at most one loaded pack.
//!
//! The store performs no input or output. Each operation that needs the
//! blob namespace hands out the request to make and is resumed with the
//! reply; what it decides in between is stated in its contract.

use vstd::hash_map::StringHashMap;
use vstd::prelude::*;
use vstd::slice::slice_to_vec;
use vstd::string::StringExecFns;
use crate::idx::{find_object_in_index, find_offset};
use crate::keys::{is_idx_key, make_object_key, make_pack_dir, object_key, pack_dir, pack_key_for, pack_sibling};
use crate::oid::{decode_hex, hex_decoded};
use crate::pack::{extract_object_with_deltas, pack_wire};
use crate::zlib::{zlib_deflated, zlib_inflated};

verus! {

/// A request to the blob namespace.
pub enum Request {
    /// Fetch the blob stored under a key.
    Get(String),
    /// List the keys that begin with a prefix.
    List(String),
    /// Store a blob under a key.
    Put(String, Vec<u8>),
}

/// The reply of the blob namespace to a request.
pub enum Reply {
    /// To `Get`: the blob, or `None` when there is none or it could not be
    /// fetched.
    Blob(Option<Vec<u8>>),
    /// To `List`: the keys found, in no particular order.
    Keys(Vec<String>),
    /// To `Put`: the blob was stored.
    Stored,
}

/// Where an operation stands: it asks for a request to be made and is to be
/// resumed in the given state with the reply, or it is done.
pub enum Step<S, T> {
    /// The request is to be made, and the operation resumed in the state
    /// with the reply.
    Ask(Request, S),
    /// The operation has ended with this result.
    Done(T),
}

/// A pack and its index.
pub struct PackCache {
    /// The bytes of the pack.
    pub pack_data: Vec<u8>,
    /// The bytes of its version-2 index.
    pub idx_data: Vec<u8>,
}

/// A repository below `prefix`, with what it has in memory.
pub struct R2GitStore {
    /// The prefix of the repository in the blob namespace.
    pub prefix: String,
    object_cache: StringHashMap<Vec<u8>>,
    pack_cache: Option<PackCache>,
}

/// What a store is, for its contracts.
pub struct StoreModel {
    /// The prefix of the repository in the blob namespace.
    pub prefix: Seq<char>,
    /// The cached objects, in their stored form, by object id.
    pub objects: Map<Seq<char>, Seq<u8>>,
    /// The loaded pack and its index.
    pub pack: Option<(Seq<u8>, Seq<u8>)>,
}

impl StoreModel {
    /// The cached object `oid`.
    pub open spec fn cached(self, oid: Seq<char>) -> Option<Seq<u8>> {
        if self.objects.contains_key(oid) {
            Some(self.objects[oid])
        } else {
            None
        }
    }

    /// The store with `data` cached as object `oid`.
    pub open spec fn with_object(self, oid: Seq<char>, data: Seq<u8>) -> StoreModel {
        StoreModel { objects: self.objects.insert(oid, data), ..self }
    }

    /// The store with a pack loaded.
    pub open spec fn with_pack(self, pack_data: Seq<u8>, idx_data: Seq<u8>) -> StoreModel {
        StoreModel { pack: Some((pack_data, idx_data)), ..self }
    }
}

impl View for R2GitStore {
    type V = StoreModel;

    closed spec fn view(&self) -> StoreModel {
        StoreModel {
            prefix: self.prefix@,
            objects: Map::new(
                |k: Seq<char>| self.object_cache@.contains_key(k),
                |k: Seq<char>| self.object_cache@[k]@,
            ),
            pack: match self.pack_cache {
                Some(p) => Some((p.pack_data@, p.idx_data@)),
                None => None,
            },
        }
    }
}

/// A `get_object` in progress.
pub enum ObjectFetch {
    /// The loose object was asked for.
    Loose,
    /// The listing of the pack directory was asked for.
    PackList,
    /// The pack index `keys[at]` was asked for.
    PackIndex { keys: Vec<String>, at: usize },
    /// The pack that belongs to the index `keys[at]` was asked for.
    PackData { keys: Vec<String>, at: usize, idx_data: Vec<u8> },
}

/// The first position at or after `from` of a key of a pack index.
pub open spec fn next_idx_key(keys: Seq<String>, from: int) -> Option<int>
    decreases keys.len() - from,
{
    if from < 0 || from >= keys.len() {
        None
    } else if is_idx_key(keys[from]@) {
        Some(from)
    } else {
        next_idx_key(keys, from + 1)
    }
}

/// The object `oid` of a loaded pack in its wire form: the id is decoded,
/// looked up in the index, read from the pack and framed.
pub open spec fn packed_wire(pack: Option<(Seq<u8>, Seq<u8>)>, oid: Seq<char>) -> Option<Seq<u8>> {
    match pack {
        None => None,
        Some((pack_data, idx_data)) => match hex_decoded(oid) {
            None => None,
            Some(id) => match find_offset(idx_data, id) {
                None => None,
                Some(at) => pack_wire(pack_data, idx_data, at as int),
            },
        },
    }
}

/// Serving `oid` from the loaded pack: what is returned is what deflating
/// the wire form of the object yields, a zlib stream that inflates to that
/// wire form, and it is cached. Nothing is returned, and nothing changes,
/// when the pack does not hold the object or the encoder fails.
pub open spec fn served_from_pack(
    pre: StoreModel,
    oid: Seq<char>,
    post: StoreModel,
    result: Option<Vec<u8>>,
) -> bool {
    match packed_wire(pre.pack, oid) {
        Some(w) => match zlib_deflated(w) {
            Some(z) => {
                &&& result matches Some(v)
                &&& v@ == z
                &&& zlib_inflated(z) == Some(w)
                &&& post == pre.with_object(oid, z)
            },
            None => result is None && post == pre,
        },
        None => result is None && post == pre,
    }
}

/// Looking for a pack from position `from` of the listing: the next pack
/// index is asked for, and when there is none the object is absent.
pub open spec fn probing(
    keys: Seq<String>,
    from: int,
    step: Step<ObjectFetch, Option<Vec<u8>>>,
) -> bool {
    match next_idx_key(keys, from) {
        Some(i) => step matches Step::Ask(
            Request::Get(key),
            ObjectFetch::PackIndex { keys: kept, at },
        ) && key@ == keys[i]@ && kept@ == keys && at == i,
        None => step matches Step::Done(None),
    }
}

/// One step of `get_object`: from the state and the reply to the next
/// request or the result, and to the store afterwards.
///
/// A loose object is cached and returned as it is. Without one, the loaded
/// pack serves the object; when none is loaded, the pack directory is
/// listed and the indexes in it are tried in the order of the listing, each
/// with its pack, until both are there. They are loaded and serve the
/// object. A reply that does not answer the request of the state ends the
/// operation with nothing.
pub open spec fn fetch_next(
    pre: StoreModel,
    oid: Seq<char>,
    state: ObjectFetch,
    reply: Reply,
    post: StoreModel,
    step: Step<ObjectFetch, Option<Vec<u8>>>,
) -> bool {
    match (state, reply) {
        (ObjectFetch::Loose, Reply::Blob(Some(data))) => {
            &&& post == pre.with_object(oid, data@)
            &&& step matches Step::Done(Some(v))
            &&& v@ == data@
        },
        (ObjectFetch::Loose, Reply::Blob(None)) => if pre.pack is Some {
            step matches Step::Done(r) && served_from_pack(pre, oid, post, r)
        } else {
            &&& post == pre
            &&& step matches Step::Ask(Request::List(dir), ObjectFetch::PackList)
            &&& dir@ == pack_dir(pre.prefix)
        },
        (ObjectFetch::PackList, Reply::Keys(keys)) => post == pre && probing(keys@, 0, step),
        (ObjectFetch::PackIndex { keys, at }, Reply::Blob(Some(idx_data))) => {
            &&& post == pre
            &&& if at < keys@.len() && is_idx_key(keys@[at as int]@) {
                &&& step matches Step::Ask(
                    Request::Get(key),
                    ObjectFetch::PackData { keys: kept, at: same, idx_data: held },
                )
                &&& key@ == pack_sibling(keys@[at as int]@)
                &&& kept == keys
                &&& same == at
                &&& held == idx_data
            } else {
                step matches Step::Done(None)
            }
        },
        (ObjectFetch::PackIndex { keys, at }, Reply::Blob(None)) => post == pre && probing(
            keys@,
            at + 1,
            step,
        ),
        (ObjectFetch::PackData { keys, at, idx_data }, Reply::Blob(Some(pack_data))) => {
            step matches Step::Done(r) && served_from_pack(
                pre.with_pack(pack_data@, idx_data@),
                oid,
                post,
                r,
            )
        },
        (ObjectFetch::PackData { keys, at, idx_data }, Reply::Blob(None)) => post == pre
            && probing(keys@, at + 1, step),
        _ => post == pre && step matches Step::Done(None),
    }
}

/// The blob under `key` in a blob namespace, which maps keys to bytes.
pub open spec fn blob(world: Map<Seq<char>, Seq<u8>>, key: Seq<char>) -> Option<Seq<u8>> {
    if world.contains_key(key) {
        Some(world[key])
    } else {
        None
    }
}

/// After an object was put, it is cached
/// as it was put, so that getting it returns it unchanged at once; and no
/// other object of the cache has changed.
pub proof fn lemma_put_then_get_cached(pre: StoreModel, oid: Seq<char>, data: Seq<u8>)
    ensures
        pre.with_object(oid, data).cached(oid) == Some(data),
        forall|other: Seq<char>|
            other != oid ==> pre.with_object(oid, data).cached(other) == pre.cached(other),
{
}

/// The blob that putting an
/// object stores lies under the key that getting it asks for first, and
/// the reply with that blob is returned unchanged, and cached.
pub proof fn lemma_put_then_get_loose(
    world: Map<Seq<char>, Seq<u8>>,
    pre: StoreModel,
    oid: Seq<char>,
    data: Vec<u8>,
    post: StoreModel,
    step: Step<ObjectFetch, Option<Vec<u8>>>,
)
    requires
        fetch_next(pre, oid, ObjectFetch::Loose, Reply::Blob(Some(data)), post, step),
    ensures
        blob(world.insert(object_key(pre.prefix, oid), data@), object_key(pre.prefix, oid)) == Some(
            data@,
        ),
        step matches Step::Done(Some(v)) && v@ == data@,
        post.cached(oid) == Some(data@),
{
}

/// The cache holds only what was returned: a step of `get_object` leaves
/// the cache as it was, or adds to it, under the object id asked for, the
/// very bytes that it returns.
pub proof fn lemma_cache_holds_results(
    pre: StoreModel,
    oid: Seq<char>,
    state: ObjectFetch,
    reply: Reply,
    post: StoreModel,
    step: Step<ObjectFetch, Option<Vec<u8>>>,
)
    requires
        fetch_next(pre, oid, state, reply, post, step),
    ensures
        post.prefix == pre.prefix,
        post.objects == pre.objects || (step matches Step::Done(Some(v)) && post.objects
            == pre.objects.insert(oid, v@)),
{
}

impl R2GitStore {
    /// A store for the repository below `prefix`, with nothing cached and no
    /// pack loaded.
    pub fn new(prefix: String) -> (store: Self)
        ensures
            store@.prefix == prefix@,
            store@.objects == Map::<Seq<char>, Seq<u8>>::empty(),
            store@.pack is None,
    {
        let store = R2GitStore { prefix, object_cache: StringHashMap::new(), pack_cache: None };
        assert(store@.objects =~= Map::<Seq<char>, Seq<u8>>::empty());
        store
    }

    /// The prefix of the repository in the blob namespace.
    pub fn repo_prefix(&self) -> (prefix: &str)
        ensures
            prefix@ == self@.prefix,
    {
        self.prefix.as_str()
    }

    /// The key of the loose object `oid`.
    pub fn object_path(&self, oid: &str) -> (key: String)
        ensures
            key@ == object_key(self@.prefix, oid@),
    {
        make_object_key(self.prefix.as_str(), oid)
    }

    /// Caches `data` as object `oid`.
    fn remember(&mut self, oid: &str, data: Vec<u8>)
        ensures
            final(self)@ == old(self)@.with_object(oid@, data@),
    {
        self.object_cache.insert(String::from_str(oid), data);
        assert(final(self)@.objects =~= old(self)@.objects.insert(oid@, data@));
    }

    /// Serves `oid` from the loaded pack, and caches what it serves.
    fn get_from_pack(&mut self, oid: &str) -> (r: Option<Vec<u8>>)
        ensures
            served_from_pack(old(self)@, oid@, final(self)@, r),
    {
        let found: Option<Vec<u8>> = match &self.pack_cache {
            None => None,
            Some(cache) => match decode_hex(oid) {
                None => None,
                Some(id) => match find_object_in_index(cache.idx_data.as_slice(), id.as_slice()) {
                    None => None,
                    Some(at) => extract_object_with_deltas(
                        cache.pack_data.as_slice(),
                        cache.idx_data.as_slice(),
                        at,
                    ),
                },
            },
        };
        match found {
            Some(z) => {
                let copy: Vec<u8> = slice_to_vec(z.as_slice());
                self.remember(oid, z);
                Some(copy)
            },
            None => None,
        }
    }

    /// Asks for the next pack index of the listing at or after `from`.
    fn next_pack_probe(keys: Vec<String>, from: usize) -> (step: Step<
        ObjectFetch,
        Option<Vec<u8>>,
    >)
        ensures
            probing(keys@, from as int, step),
    {
        let n: usize = keys.len();
        let mut k: usize = from;
        while k < n
            invariant
                n == keys@.len(),
                from <= k,
                next_idx_key(keys@, from as int) == next_idx_key(keys@, k as int),
            decreases n - k,
        {
            if pack_key_for(keys[k].as_str()).is_some() {
                let key: String = keys[k].clone();
                return Step::Ask(Request::Get(key), ObjectFetch::PackIndex { keys, at: k });
            }
            k += 1;
        }
        Step::Done(None)
    }

    /// Begins to get the object `oid` in its stored form: the wire form,
    /// deflated. A cached object is returned at once. Otherwise the loose
    /// object is asked for.
    pub fn get_object(&self, oid: &str) -> (step: Step<ObjectFetch, Option<Vec<u8>>>)
        ensures
            match self@.cached(oid@) {
                Some(data) => step matches Step::Done(Some(v)) && v@ == data,
                None => step matches Step::Ask(Request::Get(key), ObjectFetch::Loose) && key@
                    == object_key(self@.prefix, oid@),
            },
    {
        match self.object_cache.get(oid) {
            Some(data) => Step::Done(Some(slice_to_vec(data.as_slice()))),
            None => Step::Ask(Request::Get(self.object_path(oid)), ObjectFetch::Loose),
        }
    }

    /// Goes on with getting the object `oid`, in `state` and with the reply
    /// to the request that was asked for.
    pub fn get_object_resume(&mut self, oid: &str, state: ObjectFetch, reply: Reply) -> (step: Step<
        ObjectFetch,
        Option<Vec<u8>>,
    >)
        ensures
            fetch_next(old(self)@, oid@, state, reply, final(self)@, step),
    {
        match state {
            ObjectFetch::Loose => match reply {
                Reply::Blob(Some(data)) => {
                    let copy: Vec<u8> = slice_to_vec(data.as_slice());
                    self.remember(oid, data);
                    Step::Done(Some(copy))
                },
                Reply::Blob(None) => if self.pack_cache.is_some() {
                    Step::Done(self.get_from_pack(oid))
                } else {
                    Step::Ask(
                        Request::List(make_pack_dir(self.prefix.as_str())),
                        ObjectFetch::PackList,
                    )
                },
                _ => Step::Done(None),
            },
            ObjectFetch::PackList => match reply {
                Reply::Keys(keys) => Self::next_pack_probe(keys, 0),
                _ => Step::Done(None),
            },
            ObjectFetch::PackIndex { keys, at } => match reply {
                Reply::Blob(Some(idx_data)) => {
                    if at < keys.len() {
                        match pack_key_for(keys[at].as_str()) {
                            Some(key) => Step::Ask(
                                Request::Get(key),
                                ObjectFetch::PackData { keys, at, idx_data },
                            ),
                            None => Step::Done(None),
                        }
                    } else {
                        Step::Done(None)
                    }
                },
                Reply::Blob(None) => if at < keys.len() {
                    Self::next_pack_probe(keys, at + 1)
                } else {
                    Step::Done(None)
                },
                _ => Step::Done(None),
            },
            ObjectFetch::PackData { keys, at, idx_data } => match reply {
                Reply::Blob(Some(pack_data)) => {
                    self.pack_cache = Some(PackCache { pack_data, idx_data });
                    Step::Done(self.get_from_pack(oid))
                },
                Reply::Blob(None) => if at < keys.len() {
                    Self::next_pack_probe(keys, at + 1)
                } else {
                    Step::Done(None)
                },
                _ => Step::Done(None),
            },
        }
    }

    /// Begins to store `data` as the loose object `oid`: the blob to put.
    /// When it is stored, `put_object_done` caches the object.
    pub fn put_object(&self, oid: &str, data: &[u8]) -> (req: Request)
        ensures
            req matches Request::Put(key, body) && key@ == object_key(self@.prefix, oid@) && body@
                == data@,
    {
        Request::Put(self.object_path(oid), slice_to_vec(data))
    }

    /// Ends storing `data` as the loose object `oid`, after the blob was
    /// stored: the object is cached.
    pub fn put_object_done(&mut self, oid: &str, data: Vec<u8>)
        ensures
            final(self)@ == old(self)@.with_object(oid@, data@),
    {
        self.remember(oid, data);
    }
}

} // verus!
