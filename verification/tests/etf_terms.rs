use drpc::etf::{
    decode_frame_etf, encode_frame_etf, encode_term, encode_value_etf, json_to_term, term_to_json,
    EtfEncodeError, EtfKey, EtfTerm,
};
use drpc::json::Json;
use drpc::protocol::ready_frame;
use eetf::{Atom, BigInteger, Binary, FixInteger, Float, List, Term};

fn parse(text: &str) -> Json {
    Json::parse_text(text).unwrap()
}

fn bin(text: &str) -> EtfTerm {
    EtfTerm::Binary(text.as_bytes().to_vec())
}

#[test]
fn scalars_become_atoms_integers_and_binaries() {
    assert_eq!(json_to_term(&Json::Null), EtfTerm::Atom("nil".into()));
    assert_eq!(json_to_term(&Json::Bool(true)), EtfTerm::Atom("true".into()));
    assert_eq!(json_to_term(&Json::Bool(false)), EtfTerm::Atom("false".into()));
    assert_eq!(json_to_term(&Json::uint(0)), EtfTerm::FixInteger(0));
    assert_eq!(json_to_term(&Json::signed(-7)), EtfTerm::FixInteger(-7));
    assert_eq!(json_to_term(&Json::string("h\u{e9}")), bin("h\u{e9}"));
    assert_eq!(json_to_term(&Json::string("nil")), bin("nil"));
}

#[test]
fn integers_beyond_32_bits_become_big_integers() {
    assert_eq!(json_to_term(&Json::signed(i32::MAX as i64)), EtfTerm::FixInteger(i32::MAX));
    assert_eq!(json_to_term(&Json::signed(i32::MIN as i64)), EtfTerm::FixInteger(i32::MIN));
    assert_eq!(
        json_to_term(&Json::signed(i32::MAX as i64 + 1)),
        EtfTerm::BigInteger(i32::MAX as i128 + 1)
    );
    assert_eq!(
        json_to_term(&Json::signed(i32::MIN as i64 - 1)),
        EtfTerm::BigInteger(i32::MIN as i128 - 1)
    );
    assert_eq!(json_to_term(&Json::uint(u64::MAX)), EtfTerm::BigInteger(u64::MAX as i128));
    assert_eq!(json_to_term(&Json::signed(i64::MIN)), EtfTerm::BigInteger(i64::MIN as i128));
}

#[test]
fn containers_keep_their_order() {
    let v = Json::Object(vec![
        ("b".to_string(), Json::Array(vec![Json::uint(1), Json::Null])),
        ("a".to_string(), Json::empty_object()),
    ]);
    assert_eq!(
        json_to_term(&v),
        EtfTerm::Dict(vec![
            (
                EtfKey::Binary(b"b".to_vec()),
                EtfTerm::List(vec![EtfTerm::FixInteger(1), EtfTerm::Atom("nil".into())])
            ),
            (EtfKey::Binary(b"a".to_vec()), EtfTerm::Dict(vec![])),
        ])
    );
}

#[test]
fn terms_are_read_back_as_the_values_they_were_written_for() {
    for text in [
        "null",
        "true",
        "false",
        "0",
        "-2147483649",
        "18446744073709551615",
        "1.5",
        "-0.0",
        "\"text\"",
        "[1,[2,[3]],{}]",
        "{\"cmd\":\"DISPATCH\",\"data\":{\"code\":4000,\"list\":[null,\"x\"]},\"nonce\":\"n\"}",
    ] {
        let v = parse(text);
        assert_eq!(term_to_json(&json_to_term(&v)).to_text(), v.to_text(), "{text}");
    }
}

#[test]
fn other_terms_are_read_as_best_they_can() {
    assert_eq!(term_to_json(&EtfTerm::Atom("ok".into())), Json::string("ok"));
    assert_eq!(term_to_json(&EtfTerm::Atom("nil".into())), Json::Null);
    assert_eq!(term_to_json(&EtfTerm::Atom("true".into())), Json::Bool(true));
    assert_eq!(term_to_json(&EtfTerm::BigInteger(5)), Json::uint(5));
    assert_eq!(term_to_json(&EtfTerm::BigInteger(-5)), Json::signed(-5));
    assert_eq!(
        term_to_json(&EtfTerm::BigInteger(u64::MAX as i128 + 1)),
        Json::string("18446744073709551616")
    );
    assert_eq!(
        term_to_json(&EtfTerm::BigInteger(i64::MIN as i128 - 1)),
        Json::string("-9223372036854775809")
    );
    assert_eq!(term_to_json(&EtfTerm::BigInteger(i128::MIN)), Json::string(&i128::MIN.to_string()));
    assert_eq!(term_to_json(&EtfTerm::HugeInteger("1234".into())), Json::string("1234"));
    assert_eq!(term_to_json(&EtfTerm::ByteList(b"abc".to_vec())), Json::string("abc"));
    assert_eq!(term_to_json(&EtfTerm::Binary(vec![b'a', 0xff])), Json::string("a\u{fffd}"));
    assert_eq!(
        term_to_json(&EtfTerm::Tuple(vec![EtfTerm::FixInteger(1), bin("x")])),
        Json::Array(vec![Json::uint(1), Json::string("x")])
    );
    assert_eq!(term_to_json(&EtfTerm::Other("Pid(..)".into())), Json::string("Pid(..)"));
    let not_finite = eetf::Float { value: f64::NAN };
    assert_eq!(term_to_json(&EtfTerm::Float(not_finite)), Json::Null);
    assert_eq!(term_to_json(&EtfTerm::Float(eetf::Float { value: 2.5 })).to_text(), "2.5");
    assert_eq!(term_to_json(&EtfTerm::Float(eetf::Float { value: 2.0 })).to_text(), "2.0");
}

#[test]
fn map_keys_become_names_and_the_later_entry_counts() {
    let term = EtfTerm::Dict(vec![
        (EtfKey::Atom("cmd".into()), bin("PING")),
        (EtfKey::ByteList(b"k".to_vec()), EtfTerm::FixInteger(1)),
        (EtfKey::Other("{1,2}".into()), EtfTerm::Atom("nil".into())),
        (EtfKey::Binary(b"k".to_vec()), EtfTerm::FixInteger(2)),
    ]);
    assert_eq!(decode_frame_etf(&term).to_text(), "{\"cmd\":\"PING\",\"k\":2,\"{1,2}\":null}");
}

#[test]
fn encoded_value_is_what_the_codec_reads_back() {
    let v = parse("{\"a\":[1,300,-70000,5000000000,null,true,\"s\",1.25],\"b\":{\"c\":[]}}");
    let bytes = encode_value_etf(&v).unwrap();
    assert_eq!(bytes[0], 131);
    let mut expected = std::collections::HashMap::new();
    expected.insert(
        Term::from(Binary::from(b"a".to_vec())),
        Term::from(List::from(vec![
            Term::from(FixInteger::from(1)),
            Term::from(FixInteger::from(300)),
            Term::from(FixInteger::from(-70000)),
            Term::from(BigInteger::from(5000000000i64)),
            Term::from(Atom::from("nil")),
            Term::from(Atom::from("true")),
            Term::from(Binary::from(b"s".to_vec())),
            Term::from(Float::try_from(1.25).unwrap()),
        ])),
    );
    let mut inner = std::collections::HashMap::new();
    inner.insert(Term::from(Binary::from(b"c".to_vec())), Term::from(List::nil()));
    expected.insert(Term::from(Binary::from(b"b".to_vec())), Term::from(eetf::Map::from(inner)));
    assert_eq!(Term::decode(&bytes[..]).unwrap(), Term::from(eetf::Map::from(expected)));
}

#[test]
fn terms_that_no_json_is_written_as_are_refused() {
    for term in [
        EtfTerm::Other("x".into()),
        EtfTerm::HugeInteger("1".into()),
        EtfTerm::Tuple(vec![]),
        EtfTerm::ByteList(vec![]),
        EtfTerm::List(vec![EtfTerm::FixInteger(1), EtfTerm::Tuple(vec![])]),
        EtfTerm::Dict(vec![(EtfKey::Atom("a".into()), EtfTerm::FixInteger(1))]),
        EtfTerm::Dict(vec![(EtfKey::Binary(vec![]), EtfTerm::Other("x".into()))]),
    ] {
        assert!(matches!(encode_term(&term), Err(EtfEncodeError::NotJsonShaped)), "{term:?}");
    }
    assert_eq!(encode_term(&EtfTerm::FixInteger(7)).unwrap(), vec![131, 97, 7]);
}

#[test]
fn codec_refuses_an_atom_that_is_too_long() {
    let long = EtfTerm::Atom("a".repeat(70000));
    assert!(matches!(encode_term(&long), Err(EtfEncodeError::Codec(_))));
}

#[test]
fn ready_frame_as_a_term() {
    let bytes = encode_frame_etf(&ready_frame()).unwrap();
    assert_eq!(bytes[0], 131);
    assert!(Term::decode(&bytes[..]).is_ok());
    let id = b"961950517370097704";
    assert!(bytes.windows(id.len()).any(|w| w == id));
}

#[test]
fn written_bytes_do_not_depend_on_the_order_of_entries() {
    let sorted = |v: &Json| {
        let mut bytes = encode_value_etf(v).unwrap();
        bytes.sort();
        bytes
    };
    let one = parse("{\"a\":[1,{\"x\":null,\"y\":\"s\"}],\"b\":2.5}");
    let other = Json::Object(vec![
        ("b".to_string(), parse("2.5")),
        ("a".to_string(), Json::uint(7)),
        (
            "a".to_string(),
            Json::Array(vec![
                Json::uint(1),
                Json::Object(vec![
                    ("y".to_string(), Json::string("s")),
                    ("x".to_string(), Json::Null),
                ]),
            ]),
        ),
    ]);
    assert_eq!(sorted(&one), sorted(&other));
    assert_ne!(sorted(&one), sorted(&parse("{\"a\":[1,{\"x\":null,\"y\":\"t\"}],\"b\":2.5}")));
    assert!(encode_value_etf(&one).unwrap().len() > 1);
    assert_eq!(encode_value_etf(&Json::uint(0)).unwrap(), vec![131, 97, 0]);
    assert_eq!(encode_value_etf(&Json::uint(7)).unwrap(), vec![131, 97, 7]);
}
