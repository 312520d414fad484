use drpc::connection::{declared_length, Connection, Encoding, IpcAction, Transport};
use drpc::event::{EventBus, EventKind, Subscription};
use drpc::frame::{decode_frame, encode_frame, IpcOp, RawFrame};
use drpc::json::Json;

fn parse(text: &str) -> Json {
    Json::parse_text(text).unwrap()
}

fn text_of<'a>(v: &'a Json, key: &str) -> Option<&'a str> {
    v.get(key).and_then(|x| x.as_str())
}

fn conn(id: &str) -> Connection {
    Connection::with_id(id.to_string(), Transport::Ipc, Encoding::Json)
}

fn sent(action: IpcAction) -> RawFrame {
    match action {
        IpcAction::Send(bytes) => decode_frame(&bytes).unwrap(),
        other => panic!("expected a frame to send, got {other:?}"),
    }
}

fn drain(bus: &mut EventBus, sub: &Subscription) -> Vec<EventKind> {
    let mut out = Vec::new();
    while let Some(e) = bus.try_recv(sub) {
        out.push(e);
    }
    out
}

const NOW_MS: u64 = 1_700_000_000_000;

#[test]
fn lib_handshake_and_ready() {
    let mut bus = EventBus::new();
    let mut c = conn("c1");
    let hs = parse("{\"v\":1,\"client_id\":\"123\"}");
    let buf = encode_frame(IpcOp::Handshake, &hs);
    let frame = sent(c.on_ipc_frame(&buf, &mut bus));
    assert_eq!(frame.op as i32, IpcOp::Frame as i32);
    assert!(frame.body.get("evt").and_then(|e| e.as_str()).unwrap_or("") == "READY");
    assert_eq!(frame.body.get("data").unwrap().get("v").unwrap().as_u64(), Some(1));
    assert_eq!(
        frame.body.get("data").unwrap().get("user").unwrap().get("bot").unwrap().as_bool(),
        Some(true)
    );
    assert!(c.handshook);
}

#[test]
fn handshake_then_set_activity() {
    let mut bus = EventBus::new();
    let mut c = conn("c1");
    let hs = parse("{\"v\":1,\"client_id\":\"123\"}");
    let _ready = sent(c.on_ipc_frame(&encode_frame(IpcOp::Handshake, &hs), &mut bus));
    let set = parse("{\"cmd\":\"SET_ACTIVITY\",\"args\":{\"activity\":{\"name\":\"TestGame\"}}}");
    let frame2 = sent(c.on_ipc_frame(&encode_frame(IpcOp::Frame, &set), &mut bus));
    assert_eq!(frame2.op as i32, IpcOp::Frame as i32);
    let evt = frame2.body.get("evt").and_then(|e| e.as_str()).unwrap_or("");
    assert_eq!(evt, "ACTIVITY_UPDATE");
    assert_eq!(text_of(&frame2.body, "cmd"), Some("DISPATCH"));
    let name = frame2
        .body
        .get("data")
        .and_then(|d| d.get("activity"))
        .and_then(|a| a.get("name"))
        .and_then(|n| n.as_str())
        .unwrap_or("");
    assert_eq!(name, "TestGame");
}

#[test]
fn ready_frame_in_full() {
    let mut bus = EventBus::new();
    let mut c = conn("c1");
    let frame = sent(c.on_ipc_frame_at(&encode_frame(IpcOp::Handshake, &Json::Null), &mut bus, NOW_MS));
    assert_eq!(
        frame.body.to_text(),
        "{\"cmd\":\"DISPATCH\",\"data\":{\"config\":{\"api_endpoint\":\"//discord.com/api\",\
         \"cdn_host\":\"cdn.discordapp.com\",\"environment\":\"production\"},\
         \"user\":{\"avatar\":\"a_39e73cb4db97d204c41e5328c85dc993\",\"bot\":true,\
         \"discriminator\":\"0000\",\"id\":\"961950517370097704\",\"username\":\"drpc\"},\"v\":1},\
         \"evt\":\"READY\"}"
    );
}

#[test]
fn first_frame_must_be_a_handshake() {
    for op in [IpcOp::Frame, IpcOp::Close, IpcOp::Ping, IpcOp::Pong] {
        let mut bus = EventBus::new();
        let sub = bus.subscribe();
        let mut c = conn("c1");
        let set = parse("{\"cmd\":\"SET_ACTIVITY\",\"args\":{\"activity\":{\"name\":\"G\"}}}");
        assert_eq!(c.on_ipc_frame_at(&encode_frame(op, &set), &mut bus, NOW_MS), IpcAction::Close);
        assert!(!c.handshook);
        assert!(bus.try_recv(&sub).is_none());
    }
}

#[test]
fn open_connection_answers_by_op() {
    let mut bus = EventBus::new();
    let mut c = conn("c1");
    let _ = c.on_ipc_frame_at(&encode_frame(IpcOp::Handshake, &Json::Null), &mut bus, NOW_MS);
    let pong = sent(c.on_ipc_frame_at(&encode_frame(IpcOp::Ping, &parse("{\"x\":1}")), &mut bus, NOW_MS));
    assert_eq!(pong.op, IpcOp::Pong);
    assert_eq!(pong.body.to_text(), "{}");
    assert_eq!(
        c.on_ipc_frame_at(&encode_frame(IpcOp::Pong, &Json::Null), &mut bus, NOW_MS),
        IpcAction::Nothing
    );
    assert_eq!(
        c.on_ipc_frame_at(&encode_frame(IpcOp::Handshake, &Json::Null), &mut bus, NOW_MS),
        IpcAction::Nothing
    );
    let err = sent(c.on_ipc_frame_at(&encode_frame(IpcOp::Frame, &parse("{\"cmd\":\"NOPE\",\"nonce\":\"n\"}")), &mut bus, NOW_MS));
    assert_eq!(err.op, IpcOp::Frame);
    assert_eq!(text_of(&err.body, "evt"), Some("ERROR"));
    assert_eq!(text_of(&err.body, "nonce"), Some("n"));
    assert_eq!(
        c.on_ipc_frame_at(&encode_frame(IpcOp::Close, &Json::Null), &mut bus, NOW_MS),
        IpcAction::Close
    );
    assert!(c.handshook);
}

#[test]
fn malformed_and_oversized_frames_close() {
    let mut bus = EventBus::new();
    let mut c = conn("c1");
    let _ = c.on_ipc_frame_at(&encode_frame(IpcOp::Handshake, &Json::Null), &mut bus, NOW_MS);
    assert_eq!(c.on_ipc_frame_at(&[1, 0, 0], &mut bus, NOW_MS), IpcAction::Close);
    assert_eq!(c.on_ipc_frame_at(&[9, 0, 0, 0, 2, 0, 0, 0, b'{', b'}'], &mut bus, NOW_MS), IpcAction::Close);
    assert_eq!(c.on_ipc_frame_at(&[3, 0, 0, 0, 2, 0, 0, 0, b'{', b'x'], &mut bus, NOW_MS), IpcAction::Close);
    // 64 KiB are accepted, one byte more is not.
    let pad = |n: usize| Json::string(&"a".repeat(n - 2));
    let at_limit = encode_frame(IpcOp::Ping, &pad(65536));
    assert_eq!(declared_length(&at_limit), Some(65536));
    assert!(matches!(c.on_ipc_frame_at(&at_limit, &mut bus, NOW_MS), IpcAction::Send(_)));
    let over = encode_frame(IpcOp::Ping, &pad(65537));
    assert_eq!(declared_length(&over), Some(65537));
    assert_eq!(c.on_ipc_frame_at(&over, &mut bus, NOW_MS), IpcAction::Close);
    assert_eq!(declared_length(&[0; 7]), None);
}

#[test]
fn finished_connection_is_cleared_once() {
    let mut bus = EventBus::new();
    let sub = bus.subscribe();
    let mut c = Connection::open(Transport::Ipc, Encoding::Json, &mut bus);
    assert_eq!(bus.metrics().active_connections, 1);
    assert_eq!(c.socket_id.len(), 36);
    let id = c.socket_id.clone();
    let _ = c.on_ipc_frame(&encode_frame(IpcOp::Handshake, &Json::Null), &mut bus);
    let set = parse("{\"cmd\":\"SET_ACTIVITY\",\"args\":{\"activity\":{\"name\":\"G\"}}}");
    let _ = c.on_ipc_frame(&encode_frame(IpcOp::Frame, &set), &mut bus);
    let _ = c.on_ipc_frame(&encode_frame(IpcOp::Frame, &set), &mut bus);
    c.finish(&mut bus);
    assert_eq!(bus.metrics().active_connections, 0);
    let events = drain(&mut bus, &sub);
    assert_eq!(events.len(), 3);
    let clears = events.iter().filter(|e| matches!(e, EventKind::Clear { .. })).count();
    assert_eq!(clears, 1);
    assert!(matches!(&events[2], EventKind::Clear { socket_id } if *socket_id == id));
    assert!(matches!(&events[0], EventKind::ActivityUpdate { socket_id, .. } if *socket_id == id));
}

#[test]
fn fresh_ids_differ() {
    let mut bus = EventBus::new();
    let a = Connection::open(Transport::Ipc, Encoding::Json, &mut bus);
    let b = Connection::open(Transport::Ws, Encoding::BinaryTerm, &mut bus);
    assert_ne!(a.socket_id, b.socket_id);
    assert_eq!(b.transport, Transport::Ws);
    assert_eq!(b.encoding, Encoding::BinaryTerm);
    assert!(!a.handshook && !b.handshook);
}

#[test]
fn recorded_session_ends_with_one_clear() {
    let set = |name: &str| {
        encode_frame(
            IpcOp::Frame,
            &parse(&format!("{{\"cmd\":\"SET_ACTIVITY\",\"args\":{{\"activity\":{{\"name\":\"{name}\"}}}}}}")),
        )
    };
    let frames = vec![
        encode_frame(IpcOp::Handshake, &Json::Null),
        set("one"),
        encode_frame(IpcOp::Ping, &Json::Null),
        set("two"),
        encode_frame(IpcOp::Close, &Json::Null),
        set("after the end"),
    ];
    let mut bus = EventBus::new();
    let sub = bus.subscribe();
    let out = conn("c9").serve_ipc_frames_at(&frames, &mut bus, NOW_MS);
    assert_eq!(out.len(), 4);
    let answers: Vec<(IpcOp, String)> = out
        .iter()
        .map(|bytes| decode_frame(bytes).unwrap())
        .map(|f| (f.op, f.body.get("evt").and_then(|e| e.as_str()).unwrap_or("").to_string()))
        .collect();
    assert_eq!(
        answers,
        vec![
            (IpcOp::Frame, "READY".to_string()),
            (IpcOp::Frame, "ACTIVITY_UPDATE".to_string()),
            (IpcOp::Pong, String::new()),
            (IpcOp::Frame, "ACTIVITY_UPDATE".to_string()),
        ]
    );
    assert_eq!(
        decode_frame(&out[3]).unwrap().body.get("data").unwrap().to_text(),
        "{\"activity\":{\"name\":\"two\"}}"
    );
    let events = drain(&mut bus, &sub);
    let shown: Vec<String> = events
        .iter()
        .map(|e| match e {
            EventKind::ActivityUpdate { socket_id, payload } => {
                format!("{socket_id} {}", payload.to_text())
            }
            EventKind::Clear { socket_id } => format!("{socket_id} clear"),
            EventKind::PrivacyRefresh => "refresh".to_string(),
        })
        .collect();
    assert_eq!(shown, vec!["c9 {\"name\":\"one\"}", "c9 {\"name\":\"two\"}", "c9 clear"]);
}

#[test]
fn session_without_handshake_publishes_only_the_clear() {
    let frames = vec![encode_frame(
        IpcOp::Frame,
        &parse("{\"cmd\":\"SET_ACTIVITY\",\"args\":{\"activity\":{\"name\":\"G\"}}}"),
    )];
    let mut bus = EventBus::new();
    let sub = bus.subscribe();
    let out = conn("c2").serve_ipc_frames_at(&frames, &mut bus, NOW_MS);
    assert!(out.is_empty());
    let events = drain(&mut bus, &sub);
    assert_eq!(events.len(), 1);
    assert!(matches!(&events[0], EventKind::Clear { socket_id } if socket_id == "c2"));
    let mut bus = EventBus::new();
    let sub = bus.subscribe();
    let _ = conn("c3").serve_ipc_frames_at(&Vec::new(), &mut bus, NOW_MS);
    assert_eq!(drain(&mut bus, &sub).len(), 1);
}
