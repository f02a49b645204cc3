use gitstore::keys::{loose_name_of, make_object_key, make_pack_dir, make_packed_refs_key, make_ref_key, pack_key_for};
use gitstore::refs::{classify_ref, find_ref, keep_prefix, parse_packed_refs, read_packed_refs, read_ref_text, RefBody};
use gitstore::text::{chars_of, char_is_space, find_char, has_prefix, has_suffix, is_oid, text_of, trim_bounds};

fn chars(s: &str) -> Vec<char> {
    s.chars().collect()
}

fn pair(name: &str, oid: &str) -> (String, String) {
    (name.to_string(), oid.to_string())
}

#[test]
fn chars_and_text_convert_both_ways() {
    assert_eq!(chars_of("héllo ✓"), chars("héllo ✓"));
    assert_eq!(chars_of(""), Vec::<char>::new());
    let c = chars("héllo ✓");
    assert_eq!(text_of(&c, 0, c.len()), "héllo ✓");
    assert_eq!(text_of(&c, 1, 3), "él");
    assert_eq!(text_of(&c, 4, 4), "");
}

#[test]
fn white_space_is_what_std_trims() {
    for n in 0..0x11_0000u32 {
        if let Some(c) = char::from_u32(n) {
            assert_eq!(char_is_space(c), c.is_whitespace(), "U+{n:04X}");
        }
    }
}

#[test]
fn trim_bounds_match_str_trim() {
    for s in ["", " ", "a", " a", "a ", "  a b  ", "\t\r\n x \u{a0}", "\u{2003}é\u{3000}", " \n "] {
        let c = chars(s);
        let (a, b) = trim_bounds(&c, 0, c.len());
        assert_eq!(text_of(&c, a, b), s.trim(), "{s:?}");
    }
    let c = chars("ab  cd  ef");
    assert_eq!(trim_bounds(&c, 2, 8), (4, 6));
    assert_eq!(trim_bounds(&c, 2, 4), (4, 4));
}

#[test]
fn searching_and_matching() {
    let c = chars("a b c");
    assert_eq!(find_char(&c, 0, 5, ' '), Some(1));
    assert_eq!(find_char(&c, 2, 5, ' '), Some(3));
    assert_eq!(find_char(&c, 4, 5, ' '), None);
    assert_eq!(find_char(&c, 0, 1, ' '), None);
    assert!(has_prefix(&c, 0, 5, &chars("a b")));
    assert!(has_prefix(&c, 2, 5, &chars("b ")));
    assert!(has_prefix(&c, 2, 2, &chars("")));
    assert!(!has_prefix(&c, 0, 2, &chars("a b")));
    assert!(!has_prefix(&c, 0, 5, &chars("a c")));
    assert!(has_suffix(&c, &chars("b c")));
    assert!(has_suffix(&c, &chars("")));
    assert!(!has_suffix(&c, &chars("a b c d")));
    assert!(!has_suffix(&c, &chars("b d")));
}

#[test]
fn object_id_text_is_40_lower_case_hex_digits() {
    let good = chars("0123456789abcdef0123456789abcdef01234567");
    assert!(is_oid(&good, 0, 40));
    assert!(!is_oid(&good, 0, 39));
    assert!(!is_oid(&chars("0123456789ABCDEF0123456789abcdef01234567"), 0, 40));
    assert!(!is_oid(&chars("0123456789abcdeg0123456789abcdef01234567"), 0, 40));
    assert!(!is_oid(&chars("0123456789abcdef0123456789abcdef0123456/"), 0, 40));
    assert!(!is_oid(&chars("0123456789abcdef0123456789abcdef0123456:"), 0, 40));
    assert!(!is_oid(&chars("0123456789abcdef0123456789abcdef0123456`"), 0, 40));
    let longer = chars("x0123456789abcdef0123456789abcdef01234567y");
    assert!(is_oid(&longer, 1, 41));
    assert!(!is_oid(&longer, 0, 40));
}

#[test]
fn keys_of_the_namespace() {
    assert_eq!(make_ref_key("repo", "refs/heads/main"), "repo/refs/heads/main");
    assert_eq!(make_ref_key("", "HEAD"), "/HEAD");
    assert_eq!(make_packed_refs_key("a/b"), "a/b/packed-refs");
    assert_eq!(make_pack_dir("a/b"), "a/b/objects/pack");
    assert_eq!(
        make_object_key("a", "deadbeefdeadbeefdeadbeefdeadbeefdeadbeef"),
        "a/objects/de/adbeefdeadbeefdeadbeefdeadbeefdeadbeef"
    );
    assert_eq!(pack_key_for("p/pack-1.idx"), Some("p/pack-1.pack".to_string()));
    assert_eq!(pack_key_for("a.idx/b.idx"), Some("a.idx/b.pack".to_string()));
    assert_eq!(pack_key_for(".idx"), Some(".pack".to_string()));
    assert_eq!(pack_key_for("p/pack-1.pack"), None);
    assert_eq!(pack_key_for("p/pack-1.idx.bak"), None);
    assert_eq!(pack_key_for("idx"), None);
    assert_eq!(loose_name_of("repo", "repo/refs/heads/x"), "refs/heads/x");
    assert_eq!(loose_name_of("repo", "repository/refs/x"), "repository/refs/x");
    assert_eq!(loose_name_of("repo", "repo/"), "");
    assert_eq!(loose_name_of("repo", "repo"), "repo");
}

#[test]
fn ref_text_is_the_trimmed_utf8_body() {
    assert_eq!(read_ref_text(&Some(b" abc \n".to_vec())), Some("abc".to_string()));
    assert_eq!(read_ref_text(&Some(Vec::new())), Some(String::new()));
    assert_eq!(read_ref_text(&Some(vec![b'a', 0x80])), None);
    assert_eq!(read_ref_text(&None), None);
}

#[test]
fn ref_bodies_are_told_apart() {
    let oid = "0123456789abcdef0123456789abcdef01234567";
    match classify_ref(&Some(format!("{oid}\n").into_bytes())) {
        RefBody::Oid(found) => assert_eq!(found, oid),
        _ => panic!("not an object id"),
    }
    match classify_ref(&Some(b"ref: refs/heads/main\n".to_vec())) {
        RefBody::Symbolic(target) => assert_eq!(target, "refs/heads/main"),
        _ => panic!("not symbolic"),
    }
    match classify_ref(&Some(b"ref: ".to_vec())) {
        RefBody::Other => {}
        _ => panic!("the trimmed body is `ref:`, which is no symbolic reference"),
    }
    match classify_ref(&Some(b"ref:  two\n".to_vec())) {
        RefBody::Symbolic(target) => assert_eq!(target, " two"),
        _ => panic!("not symbolic"),
    }
    assert!(matches!(classify_ref(&Some(b"ref:refs/heads/main".to_vec())), RefBody::Other));
    assert!(matches!(classify_ref(&Some(oid[1..].as_bytes().to_vec())), RefBody::Other));
    assert!(matches!(classify_ref(&Some(vec![0xff])), RefBody::Other));
    assert!(matches!(classify_ref(&None), RefBody::Other));
}

#[test]
fn packed_refs_lines() {
    let text = "# pack-refs with: peeled\n\
                aaaa refs/heads/main\r\n\
                \n\
                ^bbbb\n\
                   cccc refs/tags/v1   \n\
                nospace\n\
                dddd  two spaces\n\
                eeee refs/heads/last";
    assert_eq!(
        parse_packed_refs(&chars(text)),
        vec![
            pair("refs/heads/main", "aaaa"),
            pair("refs/tags/v1", "cccc"),
            pair(" two spaces", "dddd"),
            pair("refs/heads/last", "eeee"),
        ]
    );
    assert_eq!(parse_packed_refs(&chars("")), Vec::new());
    assert_eq!(parse_packed_refs(&chars("\n\n")), Vec::new());
    assert_eq!(parse_packed_refs(&chars("a b\n")), vec![pair("b", "a")]);
}

#[test]
fn packed_refs_blob() {
    assert_eq!(read_packed_refs(&Some(b"a b\nc d\n".to_vec())), Some(vec![pair("b", "a"), pair("d", "c")]));
    assert_eq!(read_packed_refs(&Some(Vec::new())), Some(Vec::new()));
    assert_eq!(read_packed_refs(&Some(vec![b'a', b' ', 0xff])), None);
    assert_eq!(read_packed_refs(&None), None);
}

#[test]
fn lookup_and_prefix_filter() {
    let refs = vec![pair("refs/heads/a", "1"), pair("refs/tags/a", "2"), pair("refs/heads/a", "3")];
    assert_eq!(find_ref(&refs, "refs/heads/a"), Some("1".to_string()));
    assert_eq!(find_ref(&refs, "refs/tags/a"), Some("2".to_string()));
    assert_eq!(find_ref(&refs, "refs/heads"), None);
    assert_eq!(
        keep_prefix(&refs, "refs/heads/"),
        vec![pair("refs/heads/a", "1"), pair("refs/heads/a", "3")]
    );
    assert_eq!(keep_prefix(&refs, ""), refs);
    assert_eq!(keep_prefix(&refs, "refs/heads/a/b"), Vec::new());
}
