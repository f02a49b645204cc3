use std::collections::BTreeMap;
use std::io::{Read, Write};

use gitstore::refstore::{RefListing, RefWalk};
use gitstore::store::{ObjectFetch, R2GitStore, Reply, Request, Step};

const DEADBEEF: &str = "deadbeefdeadbeefdeadbeefdeadbeefdeadbeef";
const A: &str = "aaaaaaaaaaaaaaaaaaaaaaaaaaaaaaaaaaaaaaaa";
const B: &str = "bbbbbbbbbbbbbbbbbbbbbbbbbbbbbbbbbbbbbbbb";
const C: &str = "cccccccccccccccccccccccccccccccccccccccc";

/// A blob namespace in memory, which counts the requests it serves.
struct World {
    blobs: BTreeMap<String, Vec<u8>>,
    gets: Vec<String>,
    lists: Vec<String>,
}

impl World {
    fn new() -> Self {
        World { blobs: BTreeMap::new(), gets: Vec::new(), lists: Vec::new() }
    }

    fn with(mut self, key: &str, body: &[u8]) -> Self {
        self.blobs.insert(key.to_string(), body.to_vec());
        self
    }

    fn perform(&mut self, request: Request) -> Reply {
        match request {
            Request::Get(key) => {
                self.gets.push(key.clone());
                Reply::Blob(self.blobs.get(&key).cloned())
            }
            Request::List(prefix) => {
                self.lists.push(prefix.clone());
                Reply::Keys(self.blobs.keys().filter(|k| k.starts_with(&prefix)).cloned().collect())
            }
            Request::Put(key, body) => {
                self.blobs.insert(key, body);
                Reply::Stored
            }
        }
    }
}

fn get_object(store: &mut R2GitStore, world: &mut World, oid: &str) -> Option<Vec<u8>> {
    let mut step = store.get_object(oid);
    loop {
        match step {
            Step::Done(found) => return found,
            Step::Ask(request, state) => {
                let reply = world.perform(request);
                step = store.get_object_resume(oid, state, reply);
            }
        }
    }
}

fn put_object(store: &mut R2GitStore, world: &mut World, oid: &str, data: Vec<u8>) {
    let request = store.put_object(oid, &data);
    assert!(matches!(world.perform(request), Reply::Stored));
    store.put_object_done(oid, data);
}

fn read_ref(store: &R2GitStore, world: &mut World, name: &str) -> Option<String> {
    let reply = world.perform(store.read_ref(name));
    store.read_ref_done(reply)
}

fn resolve_ref(store: &R2GitStore, world: &mut World, name: &str) -> Option<String> {
    let mut step = store.resolve_ref(name);
    loop {
        match step {
            Step::Done(found) => return found,
            Step::Ask(request, state) => {
                let reply = world.perform(request);
                step = store.resolve_ref_resume(state, reply);
            }
        }
    }
}

fn list_refs(store: &R2GitStore, world: &mut World, prefix: &str) -> Vec<(String, String)> {
    let mut step = store.list_refs(prefix);
    loop {
        match step {
            Step::Done(found) => return found,
            Step::Ask(request, state) => {
                let reply = world.perform(request);
                step = store.list_refs_resume(prefix, state, reply);
            }
        }
    }
}

fn pair(name: &str, oid: &str) -> (String, String) {
    (name.to_string(), oid.to_string())
}

fn deflate(data: &[u8]) -> Vec<u8> {
    let mut enc = flate2::write::ZlibEncoder::new(Vec::new(), flate2::Compression::default());
    enc.write_all(data).unwrap();
    enc.finish().unwrap()
}

fn inflate(data: &[u8]) -> Vec<u8> {
    let mut out = Vec::new();
    flate2::read::ZlibDecoder::new(data).read_to_end(&mut out).unwrap();
    out
}

fn oid_bytes(first: u8) -> [u8; 20] {
    let mut id = [0x11u8; 20];
    id[0] = first;
    id
}

fn oid_text(first: u8) -> String {
    hex::encode(oid_bytes(first))
}

fn build_idx(entries: &[([u8; 20], u32)]) -> Vec<u8> {
    let mut out = vec![0xff, 0x74, 0x4f, 0x63, 0, 0, 0, 2];
    for b in 0..256usize {
        let n = entries.iter().filter(|(id, _)| (id[0] as usize) <= b).count() as u32;
        out.extend_from_slice(&n.to_be_bytes());
    }
    for (id, _) in entries {
        out.extend_from_slice(id);
    }
    for _ in entries {
        out.extend_from_slice(&[0, 0, 0, 0]);
    }
    for (_, offset) in entries {
        out.extend_from_slice(&offset.to_be_bytes());
    }
    out.extend_from_slice(&[0u8; 40]);
    out
}

/// A pack with a blob `abc` (id 0x0a…) and a reference delta on it that
/// builds `XYZabc` (id 0xf0…), and its index.
fn pack_and_idx() -> (Vec<u8>, Vec<u8>) {
    let mut pack = b"PACK\0\0\0\x02\0\0\0\x02".to_vec();
    pack.push(0x33);
    pack.extend_from_slice(&deflate(b"abc"));
    let at = pack.len() as u32;
    pack.push(0x78);
    pack.extend_from_slice(&oid_bytes(0x0a));
    pack.extend_from_slice(&deflate(&[0x03, 0x06, 0x03, b'X', b'Y', b'Z', 0x90, 0x03]));
    let idx = build_idx(&[(oid_bytes(0x0a), 12), (oid_bytes(0xf0), at)]);
    (pack, idx)
}

#[test]
fn put_then_get_returns_the_bytes_unchanged() {
    let mut world = World::new();
    let mut store = R2GitStore::new("repo".to_string());
    let wire = deflate(b"blob 3\0abc");
    put_object(&mut store, &mut world, DEADBEEF, wire.clone());
    assert_eq!(world.blobs.get("repo/objects/de/adbeefdeadbeefdeadbeefdeadbeefdeadbeef"), Some(&wire));
    assert_eq!(get_object(&mut store, &mut world, DEADBEEF), Some(wire.clone()));
    assert!(world.gets.is_empty());
    // another store on the same namespace reads the loose object
    let mut other = R2GitStore::new("repo".to_string());
    assert_eq!(get_object(&mut other, &mut world, DEADBEEF), Some(wire.clone()));
    assert_eq!(world.gets, vec!["repo/objects/de/adbeefdeadbeefdeadbeefdeadbeefdeadbeef".to_string()]);
    // and has it cached afterwards
    assert_eq!(get_object(&mut other, &mut world, DEADBEEF), Some(wire));
    assert_eq!(world.gets.len(), 1);
}

#[test]
fn put_object_asks_to_store_the_data_under_the_object_key() {
    let store = R2GitStore::new("p".to_string());
    match store.put_object(A, b"payload") {
        Request::Put(key, body) => {
            assert_eq!(key, format!("p/objects/aa/{}", &A[2..]));
            assert_eq!(body, b"payload".to_vec());
        }
        _ => panic!("not a put"),
    }
}

#[test]
fn object_path_cuts_after_two_characters() {
    let store = R2GitStore::new("a/b".to_string());
    assert_eq!(store.object_path("0123456789"), "a/b/objects/01/23456789");
    assert_eq!(store.object_path("01"), "a/b/objects/01/");
    assert_eq!(store.object_path("0"), "a/b/objects/0/");
    assert_eq!(store.object_path(""), "a/b/objects//");
    assert_eq!(store.repo_prefix(), "a/b");
}

#[test]
fn absent_object_without_a_pack() {
    let mut world = World::new().with("repo/objects/pack/readme.txt", b"x");
    let mut store = R2GitStore::new("repo".to_string());
    assert_eq!(get_object(&mut store, &mut world, A), None);
    assert_eq!(world.gets, vec![format!("repo/objects/aa/{}", &A[2..])]);
    assert_eq!(world.lists, vec!["repo/objects/pack".to_string()]);
}

#[test]
fn object_from_the_pack_is_framed_deflated_and_cached() {
    let (pack, idx) = pack_and_idx();
    let mut world = World::new()
        .with("repo/objects/pack/pack-1.idx", &idx)
        .with("repo/objects/pack/pack-1.pack", &pack);
    let mut store = R2GitStore::new("repo".to_string());
    let delta = get_object(&mut store, &mut world, &oid_text(0xf0)).unwrap();
    assert_eq!(inflate(&delta), b"blob 6\0XYZabc".to_vec());
    let gets = world.gets.len();
    assert_eq!(world.lists.len(), 1);
    // the second object comes from the loaded pack: one loose probe, no listing
    let blob = get_object(&mut store, &mut world, &oid_text(0x0a)).unwrap();
    assert_eq!(inflate(&blob), b"blob 3\0abc".to_vec());
    assert_eq!(world.gets.len(), gets + 1);
    assert_eq!(world.lists.len(), 1);
    // the first is cached
    assert_eq!(get_object(&mut store, &mut world, &oid_text(0xf0)), Some(delta));
    assert_eq!(world.gets.len(), gets + 1);
    // an id that the index does not hold, and ids that are none
    assert_eq!(get_object(&mut store, &mut world, &oid_text(0x33)), None);
    assert_eq!(get_object(&mut store, &mut world, "f0"), None);
    assert_eq!(get_object(&mut store, &mut world, "not an object id at all, but 40 chars!!"), None);
}

#[test]
fn object_id_in_upper_case_is_found_in_the_pack() {
    let (pack, idx) = pack_and_idx();
    let mut world = World::new()
        .with("repo/objects/pack/p.idx", &idx)
        .with("repo/objects/pack/p.pack", &pack);
    let mut store = R2GitStore::new("repo".to_string());
    let upper = oid_text(0x0a).to_uppercase();
    let blob = get_object(&mut store, &mut world, &upper).unwrap();
    assert_eq!(inflate(&blob), b"blob 3\0abc".to_vec());
}

#[test]
fn first_index_with_its_pack_is_loaded() {
    let (pack, idx) = pack_and_idx();
    let mut world = World::new()
        .with("repo/objects/pack/a.idx", b"index without a pack")
        .with("repo/objects/pack/b.pack", b"pack without an index")
        .with("repo/objects/pack/c.idx", &idx)
        .with("repo/objects/pack/c.pack", &pack)
        .with("repo/objects/pack/d.idx", b"never asked for");
    let mut store = R2GitStore::new("repo".to_string());
    let blob = get_object(&mut store, &mut world, &oid_text(0x0a)).unwrap();
    assert_eq!(inflate(&blob), b"blob 3\0abc".to_vec());
    assert_eq!(
        world.gets[1..],
        [
            "repo/objects/pack/a.idx".to_string(),
            "repo/objects/pack/a.pack".to_string(),
            "repo/objects/pack/c.idx".to_string(),
            "repo/objects/pack/c.pack".to_string(),
        ]
    );
}

#[test]
fn pack_key_replaces_only_the_ending() {
    let mut store = R2GitStore::new("r.idx".to_string());
    let state = ObjectFetch::PackIndex { keys: vec!["r.idx/objects/pack/x.idx".to_string()], at: 0 };
    match store.get_object_resume(A, state, Reply::Blob(Some(vec![1, 2, 3]))) {
        Step::Ask(Request::Get(key), ObjectFetch::PackData { at, idx_data, .. }) => {
            assert_eq!(key, "r.idx/objects/pack/x.pack");
            assert_eq!(at, 0);
            assert_eq!(idx_data, vec![1, 2, 3]);
        }
        _ => panic!("the pack was not asked for"),
    }
}

#[test]
fn a_reply_to_another_request_ends_the_operation() {
    let mut store = R2GitStore::new("repo".to_string());
    assert!(matches!(store.get_object_resume(A, ObjectFetch::Loose, Reply::Stored), Step::Done(None)));
    assert!(matches!(
        store.get_object_resume(A, ObjectFetch::PackList, Reply::Blob(None)),
        Step::Done(None)
    ));
    let out_of_range = ObjectFetch::PackIndex { keys: Vec::new(), at: 3 };
    assert!(matches!(
        store.get_object_resume(A, out_of_range, Reply::Blob(Some(Vec::new()))),
        Step::Done(None)
    ));
    assert!(matches!(
        store.resolve_ref_resume(RefWalk::Packed { name: "x".to_string() }, Reply::Stored),
        Step::Done(None)
    ));
    match store.list_refs_resume("refs/", RefListing::Packed, Reply::Keys(Vec::new())) {
        Step::Done(found) => assert!(found.is_empty()),
        _ => panic!("not done"),
    }
    assert_eq!(store.read_ref_done(Reply::Stored), None);
}

#[test]
fn read_ref_trims_the_body() {
    let mut world = World::new()
        .with("repo/HEAD", b"ref: refs/heads/main\n")
        .with("repo/refs/heads/main", format!("  {DEADBEEF}\r\n\t").as_bytes())
        .with("repo/refs/heads/bad", &[0xff, 0xfe, b'\n'])
        .with("repo/refs/heads/wide", "\u{3000}\u{a0}x y\u{2028}\u{85}".as_bytes())
        .with("repo/refs/heads/blank", b" \n ");
    let store = R2GitStore::new("repo".to_string());
    assert_eq!(read_ref(&store, &mut world, "HEAD"), Some("ref: refs/heads/main".to_string()));
    assert_eq!(read_ref(&store, &mut world, "refs/heads/main"), Some(DEADBEEF.to_string()));
    assert_eq!(read_ref(&store, &mut world, "refs/heads/bad"), None);
    assert_eq!(read_ref(&store, &mut world, "refs/heads/wide"), Some("x y".to_string()));
    assert_eq!(read_ref(&store, &mut world, "refs/heads/blank"), Some(String::new()));
    assert_eq!(read_ref(&store, &mut world, "refs/heads/none"), None);
    assert_eq!(world.gets[0], "repo/HEAD");
}

#[test]
fn write_ref_stores_the_id_and_a_line_feed() {
    let store = R2GitStore::new("repo".to_string());
    match store.write_ref("refs/heads/main", DEADBEEF) {
        Request::Put(key, body) => {
            assert_eq!(key, "repo/refs/heads/main");
            assert_eq!(body, format!("{DEADBEEF}\n").into_bytes());
        }
        _ => panic!("not a put"),
    }
}

#[test]
fn written_ref_is_read_and_resolved() {
    let mut world = World::new();
    let store = R2GitStore::new("repo".to_string());
    let request = store.write_ref("refs/tags/v1", A);
    world.perform(request);
    assert_eq!(read_ref(&store, &mut world, "refs/tags/v1"), Some(A.to_string()));
    assert_eq!(resolve_ref(&store, &mut world, "refs/tags/v1"), Some(A.to_string()));
}

#[test]
fn resolve_head_through_a_symbolic_ref() {
    let mut world = World::new()
        .with("repo/HEAD", b"ref: refs/heads/main\n")
        .with("repo/refs/heads/main", format!("{DEADBEEF}\n").as_bytes());
    let store = R2GitStore::new("repo".to_string());
    assert_eq!(resolve_ref(&store, &mut world, "HEAD"), Some(DEADBEEF.to_string()));
    assert_eq!(world.gets, vec!["repo/HEAD".to_string(), "repo/refs/heads/main".to_string()]);
}

#[test]
fn resolve_self_reference_ends_in_absence() {
    let mut world = World::new()
        .with("repo/refs/heads/loop", b"ref: refs/heads/loop\n")
        .with("repo/packed-refs", format!("{A} refs/heads/loop\n").as_bytes());
    let store = R2GitStore::new("repo".to_string());
    assert_eq!(resolve_ref(&store, &mut world, "refs/heads/loop"), None);
    assert_eq!(world.gets.len(), 11);
    assert!(world.gets.iter().all(|k| k == "repo/refs/heads/loop"));
}

#[test]
fn resolve_follows_ten_symbolic_refs_and_no_more() {
    let mut world = World::new().with("repo/r10", A.as_bytes()).with("repo/s11", A.as_bytes());
    for i in 0..10 {
        world = world.with(&format!("repo/r{i}"), format!("ref: r{}\n", i + 1).as_bytes());
    }
    for i in 0..11 {
        world = world.with(&format!("repo/s{i}"), format!("ref: s{}\n", i + 1).as_bytes());
    }
    let store = R2GitStore::new("repo".to_string());
    assert_eq!(resolve_ref(&store, &mut world, "r0"), Some(A.to_string()));
    assert_eq!(resolve_ref(&store, &mut world, "s0"), None);
    assert_eq!(resolve_ref(&store, &mut world, "s1"), Some(A.to_string()));
}

#[test]
fn resolve_falls_back_to_the_packed_refs() {
    let packed = format!("# pack-refs with: peeled fully-peeled sorted\n{A} refs/heads/main\n{B} refs/tags/v1\n^{C}\n");
    let mut world = World::new()
        .with("repo/packed-refs", packed.as_bytes())
        .with("repo/refs/heads/short", b"deadbeef\n")
        .with("repo/refs/heads/upper", DEADBEEF.to_uppercase().as_bytes())
        .with("repo/HEAD", b"ref: refs/heads/main\n");
    let store = R2GitStore::new("repo".to_string());
    assert_eq!(resolve_ref(&store, &mut world, "refs/heads/main"), Some(A.to_string()));
    assert_eq!(resolve_ref(&store, &mut world, "refs/tags/v1"), Some(B.to_string()));
    assert_eq!(resolve_ref(&store, &mut world, "HEAD"), Some(A.to_string()));
    assert_eq!(resolve_ref(&store, &mut world, "refs/heads/none"), None);
    // a body that is no object id in 40 lower-case digits is no answer
    assert_eq!(resolve_ref(&store, &mut world, "refs/heads/short"), None);
    assert_eq!(resolve_ref(&store, &mut world, "refs/heads/upper"), None);
}

#[test]
fn resolve_without_any_blob_is_absent() {
    let mut world = World::new();
    let store = R2GitStore::new("repo".to_string());
    assert_eq!(resolve_ref(&store, &mut world, "HEAD"), None);
    assert_eq!(world.gets, vec!["repo/HEAD".to_string(), "repo/packed-refs".to_string()]);
}

#[test]
fn list_refs_packed_and_loose() {
    let packed = format!("{A} refs/heads/main\n{B} refs/heads/dev\n");
    let mut world = World::new()
        .with("repo/packed-refs", packed.as_bytes())
        .with("repo/refs/heads/dev", format!("{C}\n").as_bytes());
    let store = R2GitStore::new("repo".to_string());
    let refs = list_refs(&store, &mut world, "refs/heads/");
    assert_eq!(refs, vec![pair("refs/heads/main", A), pair("refs/heads/dev", B)]);
    assert_eq!(world.lists, vec!["repo/refs/heads/".to_string()]);
}

#[test]
fn list_refs_adds_loose_refs_behind_the_packed_ones() {
    let packed = format!("{A} refs/heads/main\n{B} refs/tags/v1\n");
    let mut world = World::new()
        .with("repo/packed-refs", packed.as_bytes())
        .with("repo/refs/heads/topic", format!(" {C}\n").as_bytes())
        .with("repo/refs/heads/broken", &[0xc3, 0x28])
        .with("repo/refs/heads/alpha", b"ref: refs/heads/main\n")
        .with("repo/refs/tags/v2", A.as_bytes());
    let store = R2GitStore::new("repo".to_string());
    assert_eq!(
        list_refs(&store, &mut world, "refs/heads/"),
        vec![
            pair("refs/heads/main", A),
            pair("refs/heads/alpha", "ref: refs/heads/main"),
            pair("refs/heads/topic", C),
        ]
    );
    assert_eq!(
        list_refs(&store, &mut world, "refs/"),
        vec![
            pair("refs/heads/main", A),
            pair("refs/tags/v1", B),
            pair("refs/heads/alpha", "ref: refs/heads/main"),
            pair("refs/heads/topic", C),
            pair("refs/tags/v2", A),
        ]
    );
    assert_eq!(list_refs(&store, &mut world, "refs/remotes/"), Vec::new());
}

#[test]
fn list_refs_without_packed_refs() {
    let mut world = World::new().with("repo/refs/heads/main", A.as_bytes());
    let store = R2GitStore::new("repo".to_string());
    assert_eq!(list_refs(&store, &mut world, "refs/heads/"), vec![pair("refs/heads/main", A)]);
    let mut empty = World::new();
    assert_eq!(list_refs(&store, &mut empty, "refs/heads/"), Vec::new());
}

#[test]
fn list_refs_keeps_a_key_outside_the_prefix_as_its_name() {
    let store = R2GitStore::new("repo".to_string());
    let state = RefListing::Listing { refs: Vec::new() };
    let keys = vec!["elsewhere/refs/x".to_string(), "repo/refs/x".to_string(), "repo/refs/x".to_string()];
    let mut step = store.list_refs_resume("refs/", state, Reply::Keys(keys));
    let mut asked = Vec::new();
    let found = loop {
        match step {
            Step::Done(found) => break found,
            Step::Ask(Request::Get(key), state) => {
                asked.push(key);
                step = store.list_refs_resume("refs/", state, Reply::Blob(Some(A.as_bytes().to_vec())));
            }
            Step::Ask(_, _) => panic!("only blobs are asked for here"),
        }
    };
    assert_eq!(asked.len(), 3);
    assert_eq!(found, vec![pair("elsewhere/refs/x", A), pair("refs/x", A)]);
}
