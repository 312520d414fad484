use drpc::connection::{Connection, Encoding, Transport};
use drpc::etf::{json_to_term, EtfTerm};
use drpc::event::{EventBus, EventKind};
use drpc::json::Json;
use drpc::ws::{
    probe_port, send_json_or_etf, validate_upgrade, validate_upgrade_as, UpgradeError, WsAction,
    WsIncoming, WsOutgoing, WsQuery,
};

fn parse(text: &str) -> Json {
    Json::parse_text(text).unwrap()
}

fn conn(encoding: Encoding) -> Connection {
    Connection::with_id("ws-1".to_string(), Transport::Ws, encoding)
}

fn query(v: Option<u8>, encoding: Option<&str>, client_id: Option<&str>) -> WsQuery {
    WsQuery { v, encoding: encoding.map(String::from), client_id: client_id.map(String::from) }
}

fn reply_text(action: WsAction) -> Json {
    assert!(!action.close);
    match action.send {
        Some(WsOutgoing::Text(t)) => parse(&t),
        other => panic!("expected text got {other:?}"),
    }
}

fn contains(hay: &[u8], needle: &[u8]) -> bool {
    hay.windows(needle.len()).any(|w| w == needle)
}

const NOW_MS: u64 = 1_700_000_000_000;

#[test]
fn ports_are_probed_in_order_then_any() {
    let tried: Vec<Option<u16>> = (0..13).map(probe_port).collect();
    let mut expected: Vec<Option<u16>> = (6463..=6472).map(Some).collect();
    expected.push(Some(0));
    expected.push(None);
    expected.push(None);
    assert_eq!(tried, expected);
}

#[test]
fn upgrade_needs_client_id_and_known_encoding() {
    let ok = validate_upgrade(None, false, &query(Some(1), Some("json"), Some("abc")));
    assert_eq!(ok, Ok(Encoding::Json));
    assert_eq!(validate_upgrade(None, false, &query(None, None, Some(""))), Ok(Encoding::Json));
    assert_eq!(
        validate_upgrade(None, false, &query(Some(1), Some("ETF"), Some("abc"))),
        Ok(Encoding::BinaryTerm)
    );
    for q in [
        query(Some(2), Some("json"), Some("abc")),
        query(Some(0), None, Some("abc")),
        query(Some(1), Some("xml"), Some("abc")),
        query(Some(1), Some(""), Some("abc")),
        query(Some(1), Some("json"), None),
    ] {
        let r = validate_upgrade(None, false, &q);
        assert_eq!(r, Err(UpgradeError::BadRequest), "{q:?}");
    }
    assert_eq!(UpgradeError::BadRequest.status(), 400);
    assert_eq!(UpgradeError::Forbidden.status(), 403);
}

#[test]
fn origin_must_be_on_the_list_unless_debugging() {
    let q = query(Some(1), None, Some("abc"));
    for origin in ["https://discord.com", "https://ptb.discord.com", "https://canary.discord.com"] {
        assert_eq!(validate_upgrade(Some(origin), false, &q), Ok(Encoding::Json));
    }
    for origin in ["", "https://example.com", "http://discord.com", "https://discord.com/"] {
        assert_eq!(validate_upgrade(Some(origin), false, &q), Err(UpgradeError::Forbidden));
        assert_eq!(validate_upgrade(Some(origin), true, &q), Ok(Encoding::Json));
    }
    // The origin is looked at before the query.
    let bad = query(Some(7), Some("xml"), None);
    assert_eq!(validate_upgrade(Some("https://evil"), false, &bad), Err(UpgradeError::Forbidden));
    assert_eq!(validate_upgrade(Some("https://evil"), true, &bad), Err(UpgradeError::BadRequest));
}

#[test]
fn greeting_is_the_ready_frame() {
    let mut c = conn(Encoding::Json);
    let ready = match c.ws_greeting() {
        WsOutgoing::Text(t) => parse(&t),
        other => panic!("expected text got {other:?}"),
    };
    assert!(c.handshook);
    assert_eq!(ready.get("evt").and_then(|e| e.as_str()), Some("READY"));
    assert_eq!(ready.get("cmd").and_then(|e| e.as_str()), Some("DISPATCH"));
    assert_eq!(ready.get("data").unwrap().get("v").unwrap().as_u64(), Some(1));
    assert!(ready.get("nonce").is_none() && ready.get("pid").is_none());
}

#[test]
fn ws_etf_query_fallbacks() {
    let mut c = conn(Encoding::BinaryTerm);
    match c.ws_greeting() {
        WsOutgoing::Binary(bin) => {
            assert_eq!(bin[0], 131, "expected ETF version tag");
            assert!(contains(&bin, b"evt"), "evt key missing in etf frame");
            assert!(contains(&bin, b"READY"));
        }
        other => panic!("expected binary etf frame got {other:?}"),
    }
}

#[test]
fn text_command_is_answered_as_text() {
    let mut bus = EventBus::new();
    let mut c = conn(Encoding::Json);
    let msg = WsIncoming::Text("{\"cmd\":\"DOES_NOT_EXIST\",\"nonce\":\"nx\",\"args\":{}}".to_string());
    let resp = reply_text(c.on_ws_message_at(&msg, &mut bus, NOW_MS));
    assert_eq!(
        resp.to_text(),
        "{\"cmd\":\"DOES_NOT_EXIST\",\"data\":{\"code\":4000,\"message\":\"Unknown command\"},\"evt\":\"ERROR\",\"nonce\":\"nx\"}"
    );
}

#[test]
fn text_that_is_no_json_is_an_unknown_command() {
    let mut bus = EventBus::new();
    let mut c = conn(Encoding::Json);
    let resp = reply_text(c.on_ws_message(&WsIncoming::Text("not json".to_string()), &mut bus));
    assert_eq!(
        resp.to_text(),
        "{\"cmd\":\"\",\"data\":{\"code\":4000,\"message\":\"Unknown command\"},\"evt\":\"ERROR\"}"
    );
}

#[test]
fn ws_set_activity_nonce_pid_etf() {
    let mut bus = EventBus::new();
    let sub = bus.subscribe();
    let mut c = conn(Encoding::BinaryTerm);
    let msg = WsIncoming::Text(
        "{\"cmd\":\"SET_ACTIVITY\",\"nonce\":\"n-999\",\"args\":{\"pid\":777,\"activity\":{\"name\":\"ETFGame\"}}}"
            .to_string(),
    );
    let action = c.on_ws_message_at(&msg, &mut bus, NOW_MS);
    match action.send {
        Some(WsOutgoing::Binary(bin)) => {
            assert_eq!(bin[0], 131, "ETF version tag");
            assert!(contains(&bin, b"n-999"), "nonce missing in ETF payload");
            assert!(contains(&bin, b"ETFGame"), "activity name missing");
        }
        other => panic!("expected binary ETF frame got {other:?}"),
    }
    assert!(matches!(bus.try_recv(&sub), Some(EventKind::ActivityUpdate { .. })));
}

#[test]
fn ws_etf_unknown_command_binary_error() {
    let mut bus = EventBus::new();
    let mut c = conn(Encoding::BinaryTerm);
    let msg = WsIncoming::Text("{\"cmd\":\"WHAT\",\"nonce\":\"n\"}".to_string());
    match c.on_ws_message_at(&msg, &mut bus, NOW_MS).send {
        Some(WsOutgoing::Binary(bin)) => {
            assert_eq!(bin[0], 131, "ETF tag");
            assert!(contains(&bin, b"ERROR"), "missing ERROR");
            let code = eetf::Term::from(eetf::FixInteger::from(4000));
            let term = eetf::Term::decode(&bin[..]).unwrap();
            let data = match &term {
                eetf::Term::Map(m) => m.map.get(&eetf::Term::from(eetf::Binary::from(b"data".to_vec()))),
                _ => None,
            };
            let has_code = match data {
                Some(eetf::Term::Map(d)) => d.map.values().any(|v| *v == code),
                _ => false,
            };
            assert!(has_code, "missing code 4000");
        }
        other => panic!("expected binary, got {other:?}"),
    }
}

#[test]
fn etf_missing_args_errors_binary() {
    let mut bus = EventBus::new();
    let mut c = conn(Encoding::BinaryTerm);
    let msg = WsIncoming::Text("{\"cmd\":\"SET_ACTIVITY\",\"nonce\":\"n1\"}".to_string());
    match c.on_ws_message_at(&msg, &mut bus, NOW_MS).send {
        Some(WsOutgoing::Binary(bin)) => {
            assert_eq!(bin[0], 131);
            assert!(contains(&bin, b"ERROR"));
            assert!(contains(&bin, b"missing args"));
        }
        other => panic!("expected binary, got {other:?}"),
    }
}

#[test]
fn binary_term_is_dispatched_on_a_term_connection_only() {
    let request = parse("{\"cmd\":\"PING\",\"nonce\":\"b\"}");
    let incoming = || WsIncoming::Binary { len: 40, term: Some(json_to_term(&request)) };
    let mut bus = EventBus::new();
    let mut c = conn(Encoding::BinaryTerm);
    match c.on_ws_message_at(&incoming(), &mut bus, NOW_MS).send {
        Some(WsOutgoing::Binary(bin)) => assert!(contains(&bin, b"PONG")),
        other => panic!("expected binary, got {other:?}"),
    }
    let mut c = conn(Encoding::Json);
    let action = c.on_ws_message_at(&incoming(), &mut bus, NOW_MS);
    assert!(action.send.is_none() && !action.close);
    let mut c = conn(Encoding::BinaryTerm);
    let action = c.on_ws_message_at(&WsIncoming::Binary { len: 3, term: None }, &mut bus, NOW_MS);
    assert!(action.send.is_none() && !action.close);
    let atom = WsIncoming::Binary { len: 3, term: Some(EtfTerm::Atom("x".into())) };
    match c.on_ws_message_at(&atom, &mut bus, NOW_MS).send {
        Some(WsOutgoing::Binary(bin)) => assert!(contains(&bin, b"Unknown command")),
        other => panic!("expected binary, got {other:?}"),
    }
}

#[test]
fn ws_rejects_large_payload() {
    let mut bus = EventBus::new();
    let sub = bus.subscribe();
    let mut c = conn(Encoding::Json);
    let big_name = "A".repeat(70 * 1024);
    let msg = WsIncoming::Text(format!(
        "{{\"cmd\":\"SET_ACTIVITY\",\"args\":{{\"activity\":{{\"name\":\"{}\"}}}}}}",
        big_name
    ));
    let action = c.on_ws_message_at(&msg, &mut bus, NOW_MS);
    assert!(
        matches!(action.send, Some(WsOutgoing::Close)),
        "expected Close frame, got {:?}",
        action.send
    );
    assert!(action.close, "connection not terminated after close frame");
    assert!(bus.try_recv(&sub).is_none());
}

#[test]
fn payload_limit_is_counted_in_bytes() {
    let mut bus = EventBus::new();
    let mut c = conn(Encoding::Json);
    let padded = |n: usize| WsIncoming::Text(format!("{{\"cmd\":\"PING\"}}{}", " ".repeat(n - 14)));
    assert!(!c.on_ws_message_at(&padded(65536), &mut bus, NOW_MS).close);
    assert!(c.on_ws_message_at(&padded(65537), &mut bus, NOW_MS).close);
    let two_bytes_each = WsIncoming::Text("\u{e9}".repeat(32769));
    assert!(c.on_ws_message_at(&two_bytes_each, &mut bus, NOW_MS).close);
    let bin = |len| WsIncoming::Binary { len, term: None };
    assert!(!c.on_ws_message_at(&bin(65536), &mut bus, NOW_MS).close);
    let refused = c.on_ws_message_at(&bin(65537), &mut bus, NOW_MS);
    assert!(refused.close && matches!(refused.send, Some(WsOutgoing::Close)));
}

#[test]
fn control_messages() {
    let mut bus = EventBus::new();
    let mut c = conn(Encoding::Json);
    let pong = c.on_ws_message_at(&WsIncoming::Ping(vec![1, 2, 3]), &mut bus, NOW_MS);
    assert_eq!(pong.send, Some(WsOutgoing::Pong(vec![1, 2, 3])));
    assert!(!pong.close);
    let nothing = c.on_ws_message_at(&WsIncoming::Pong(vec![1]), &mut bus, NOW_MS);
    assert!(nothing.send.is_none() && !nothing.close);
    let end = c.on_ws_message_at(&WsIncoming::Close, &mut bus, NOW_MS);
    assert!(end.send.is_none() && end.close);
}

#[test]
fn frames_follow_the_encoding() {
    let frame = parse("{\"cmd\":\"DISPATCH\",\"data\":{\"n\":[1,-70000,5000000000,true,null,\"s\"]}}");
    assert_eq!(send_json_or_etf(&frame, Encoding::Json), WsOutgoing::Text(frame.to_text()));
    match send_json_or_etf(&frame, Encoding::BinaryTerm) {
        WsOutgoing::Binary(bin) => {
            assert_eq!(bin[0], 131);
            assert!(eetf::Term::decode(&bin[..]).is_ok());
        }
        other => panic!("expected binary, got {other:?}"),
    }
}

fn etf_reply(text: &str) -> Vec<u8> {
    let mut bus = EventBus::new();
    let mut c = conn(Encoding::BinaryTerm);
    match c.on_ws_message_at(&WsIncoming::Text(text.to_string()), &mut bus, NOW_MS).send {
        Some(WsOutgoing::Binary(bin)) => bin,
        other => panic!("expected binary, got {other:?}"),
    }
}

fn has_code(bin: &[u8], code: i32) -> bool {
    let wanted = eetf::Term::from(eetf::FixInteger::from(code));
    let data_key = eetf::Term::from(eetf::Binary::from(b"data".to_vec()));
    match eetf::Term::decode(bin) {
        Ok(eetf::Term::Map(m)) => match m.map.get(&data_key) {
            Some(eetf::Term::Map(d)) => d.map.values().any(|v| *v == wanted),
            _ => false,
        },
        _ => false,
    }
}

#[test]
fn ws_ready_and_set_activity() {
    let mut bus = EventBus::new();
    let mut c = conn(Encoding::Json);
    match c.ws_greeting() {
        WsOutgoing::Text(t) => assert!(t.contains("READY")),
        _ => panic!("expected text"),
    }
    let msg = WsIncoming::Text("{\"cmd\":\"SET_ACTIVITY\",\"args\":{\"activity\":{\"name\":\"Test\"}}}".to_string());
    match c.on_ws_message(&msg, &mut bus).send {
        Some(WsOutgoing::Text(t)) => assert!(t.contains("ACTIVITY_UPDATE")),
        other => panic!("expected text got {other:?}"),
    }
}

#[test]
fn ws_etf_buttons_over_limit_binary_error() {
    let bin = etf_reply(
        "{\"cmd\":\"SET_ACTIVITY\",\"nonce\":\"nb\",\"args\":{\"activity\":{\"name\":\"TooMany\",\"buttons\":[\
         {\"label\":\"a\",\"url\":\"https://a\"},{\"label\":\"b\",\"url\":\"https://b\"},{\"label\":\"c\",\"url\":\"https://c\"}]}}}",
    );
    assert_eq!(bin[0], 131);
    assert!(contains(&bin, b"ERROR"));
    assert!(has_code(&bin, 4002));
}

#[test]
fn etf_missing_activity_errors_binary() {
    let bin = etf_reply("{\"cmd\":\"SET_ACTIVITY\",\"nonce\":\"n2\",\"args\":{}}");
    assert_eq!(bin[0], 131);
    assert!(contains(&bin, b"ERROR"));
    assert!(has_code(&bin, 4000));
}

#[test]
fn etf_non_object_activity_errors_binary() {
    let bin = etf_reply("{\"cmd\":\"SET_ACTIVITY\",\"nonce\":\"n3\",\"args\":{\"activity\":123}}");
    assert_eq!(bin[0], 131);
    assert!(contains(&bin, b"ERROR"));
    assert!(has_code(&bin, 4000));
}

#[test]
fn etf_invalid_button_shape_errors_binary() {
    let bin = etf_reply(
        "{\"cmd\":\"SET_ACTIVITY\",\"nonce\":\"n4\",\"args\":{\"activity\":{\"name\":\"Bads\",\"buttons\":[{\"label\":1,\"url\":\"u\"}]}}}",
    );
    assert_eq!(bin[0], 131);
    assert!(contains(&bin, b"ERROR"));
    assert!(has_code(&bin, 4000));
}

#[test]
fn upgrade_goes_by_the_encoding_it_is_given() {
    assert_eq!(validate_upgrade_as(None, false, Some(1), "json", true), Ok(Encoding::Json));
    assert_eq!(validate_upgrade_as(None, false, None, "etf", true), Ok(Encoding::BinaryTerm));
    assert_eq!(validate_upgrade_as(None, false, None, "ETF", true), Err(UpgradeError::BadRequest));
    assert_eq!(validate_upgrade_as(None, false, Some(3), "etf", true), Err(UpgradeError::BadRequest));
    assert_eq!(validate_upgrade_as(None, false, None, "json", false), Err(UpgradeError::BadRequest));
    assert_eq!(
        validate_upgrade_as(Some("https://evil"), false, None, "json", true),
        Err(UpgradeError::Forbidden)
    );
}

#[test]
fn term_message_takes_the_bytes_or_falls_back_to_text() {
    let frame = parse("{\"cmd\":\"DISPATCH\",\"data\":{}}");
    assert_eq!(
        drpc::ws::term_message(&frame, Ok(vec![131, 97, 1])),
        WsOutgoing::Binary(vec![131, 97, 1])
    );
    assert_eq!(
        drpc::ws::term_message(&frame, Err(drpc::etf::EtfEncodeError::NotJsonShaped)),
        WsOutgoing::Text("{\"cmd\":\"DISPATCH\",\"data\":{}}".to_string())
    );
}
