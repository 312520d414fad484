use drpc::json::{entries_find, entries_get, entries_insert, entries_set, str_eq, Json};

fn parse(text: &str) -> Json {
    Json::parse_text(text).unwrap()
}

#[test]
fn text_is_compact_json() {
    let v = Json::Object(vec![
        ("b".to_string(), Json::Array(vec![Json::uint(1), Json::Null, Json::Bool(false)])),
        ("a".to_string(), Json::string("x\"y")),
    ]);
    assert_eq!(v.to_text(), "{\"a\":\"x\\\"y\",\"b\":[1,null,false]}");
    assert_eq!(v.to_bytes(), v.to_text().into_bytes());
}

#[test]
fn parse_reads_back_what_was_written() {
    let v = parse("{\"n\":-3,\"big\":18446744073709551615,\"f\":1.5,\"s\":\"\\u00e9\",\"l\":[[],{}]}");
    let again = Json::parse_bytes(&v.to_bytes()).unwrap();
    assert_eq!(again, v);
    assert_eq!(v.get("n").unwrap().as_i64(), Some(-3));
    assert_eq!(v.get("n").unwrap().as_u64(), None);
    assert_eq!(v.get("big").unwrap().as_u64(), Some(u64::MAX));
    assert_eq!(v.get("big").unwrap().as_i64(), None);
    assert_eq!(v.get("f").unwrap().as_u64(), None);
    assert_eq!(v.get("s").unwrap().as_str(), Some("\u{e9}"));
}

#[test]
fn floats_read_back_exactly() {
    for text in ["0.1", "1e300", "-2.2250738585072014e-308", "123456789.12345678", "5e-324"] {
        let v = parse(text);
        assert_eq!(Json::parse_text(&v.to_text()).unwrap(), v, "{text}");
    }
}

#[test]
fn parse_rejects_what_is_no_json() {
    assert!(Json::parse_text("").is_err());
    assert!(Json::parse_text("{").is_err());
    assert!(Json::parse_text("{} x").is_err());
    assert!(Json::parse_bytes(&[0xff, 0xfe]).is_err());
}

#[test]
fn nesting_beyond_the_reader_is_rejected() {
    let deep_ok = format!("{}{}", "[".repeat(127), "]".repeat(127));
    let too_deep = format!("{}{}", "[".repeat(128), "]".repeat(128));
    assert!(Json::parse_text(&deep_ok).is_ok());
    assert!(Json::parse_text(&too_deep).is_err());
}

#[test]
fn get_finds_members_of_objects_only() {
    let v = parse("{\"a\":{\"b\":2}}");
    assert_eq!(v.get("a").unwrap().get("b").unwrap().as_u64(), Some(2));
    assert!(v.get("missing").is_none());
    assert!(Json::Array(vec![]).get("a").is_none());
    assert!(Json::string("a").get("a").is_none());
}

#[test]
fn later_entry_counts_for_a_repeated_key() {
    let v = Json::Object(vec![
        ("k".to_string(), Json::uint(1)),
        ("other".to_string(), Json::Null),
        ("k".to_string(), Json::uint(2)),
    ]);
    assert_eq!(v.get("k").unwrap().as_u64(), Some(2));
    assert_eq!(v.to_text(), "{\"k\":2,\"other\":null}");
}

#[test]
fn accessors_tell_the_kinds_apart() {
    assert!(Json::Null.is_null());
    assert!(!Json::Bool(false).is_null());
    assert!(Json::empty_object().is_object());
    assert!(!Json::Array(vec![]).is_object());
    assert_eq!(Json::Bool(true).as_bool(), Some(true));
    assert_eq!(Json::uint(1).as_bool(), None);
    assert_eq!(Json::string("s").as_str(), Some("s"));
    assert_eq!(Json::uint(7).as_str(), None);
    assert_eq!(Json::Array(vec![Json::Null]).as_array().map(|a| a.len()), Some(1));
    assert!(Json::empty_object().as_array().is_none());
    assert_eq!(Json::signed(5).as_u64(), Some(5));
    assert_eq!(Json::signed(-5).as_i64(), Some(-5));
    assert_eq!(Json::uint(u64::MAX).as_i64(), None);
}

#[test]
fn clone_copies_the_whole_tree() {
    let v = parse("{\"a\":[1,{\"b\":[true,null,\"s\",2.5]}]}");
    assert_eq!(v.deep_clone(), v);
    assert_eq!(v.clone(), v);
}

#[test]
fn entries_insert_appends_and_set_replaces() {
    let mut e: Vec<(String, Json)> = Vec::new();
    entries_insert(&mut e, "a", Json::uint(1));
    entries_insert(&mut e, "a", Json::uint(2));
    assert_eq!(e.len(), 2);
    assert_eq!(entries_get(&e, "a").unwrap().as_u64(), Some(2));
    assert_eq!(entries_find(&e, "a"), Some(1));
    entries_set(&mut e, "a", Json::uint(3));
    assert_eq!(e.len(), 2);
    assert_eq!(entries_get(&e, "a").unwrap().as_u64(), Some(3));
    entries_set(&mut e, "b", Json::Null);
    assert_eq!(e.len(), 3);
    assert_eq!(entries_find(&e, "b"), Some(2));
    assert_eq!(entries_find(&e, "c"), None);
    assert!(entries_get(&e, "c").is_none());
}

#[test]
fn str_eq_compares_characters() {
    assert!(str_eq("", ""));
    assert!(str_eq("h\u{e9}llo", "h\u{e9}llo"));
    assert!(!str_eq("hello", "hellO"));
    assert!(!str_eq("hello", "hell"));
}
