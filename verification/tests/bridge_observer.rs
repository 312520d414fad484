use drpc::bridge::{
    message_for, message_for_event, replay_messages, Bridge, BridgeState, ObserverId,
    DEFAULT_BRIDGE_PORT,
};
use drpc::connection::{Connection, Encoding, Transport};
use drpc::event::{EventBus, EventKind};
use drpc::json::Json;
use drpc::ws::WsIncoming;

fn named(name: &str) -> Json {
    Json::Object(vec![("name".to_string(), Json::string(name))])
}

fn update(id: &str, name: &str) -> EventKind {
    EventKind::ActivityUpdate { socket_id: id.to_string(), payload: named(name) }
}

#[test]
fn port_defaults_to_1337() {
    assert_eq!(DEFAULT_BRIDGE_PORT, 1337);
    assert_eq!(Bridge::new(None).port(), 1337);
    assert_eq!(Bridge::new(Some(4000)).port(), 4000);
    assert_eq!(Bridge::new(Some(0)).port(), 0);
}

#[test]
fn messages_name_the_socket_and_its_activity() {
    assert_eq!(
        message_for("s1", named("G")).to_text(),
        "{\"activity\":{\"name\":\"G\"},\"socketId\":\"s1\"}"
    );
    assert_eq!(
        message_for_event(&EventKind::Clear { socket_id: "s1".into() }).unwrap().to_text(),
        "{\"activity\":null,\"socketId\":\"s1\"}"
    );
    assert_eq!(
        message_for_event(&update("s2", "H")).unwrap().to_text(),
        "{\"activity\":{\"name\":\"H\"},\"socketId\":\"s2\"}"
    );
    assert!(message_for_event(&EventKind::PrivacyRefresh).is_none());
}

#[test]
fn replay_has_one_message_for_each_entry() {
    let entries = vec![("a".to_string(), named("A")), ("b".to_string(), Json::uint(1))];
    assert_eq!(
        replay_messages(&entries),
        vec![
            "{\"activity\":{\"name\":\"A\"},\"socketId\":\"a\"}",
            "{\"activity\":1,\"socketId\":\"b\"}"
        ]
    );
    assert!(replay_messages(&Vec::new()).is_empty());
}

#[test]
fn newcomer_gets_exactly_the_live_activities_first() {
    let mut state = BridgeState::new();
    state.on_event(&update("a", "A"));
    state.on_event(&update("b", "B"));
    state.on_event(&update("c", "C"));
    state.on_event(&update("a", "A2"));
    state.on_event(&EventKind::Clear { socket_id: "b".into() });
    state.on_event(&EventKind::Clear { socket_id: "unknown".into() });
    let (id, mut replay) = state.connect();
    replay.sort();
    assert_eq!(
        replay,
        vec![
            "{\"activity\":{\"name\":\"A2\"},\"socketId\":\"a\"}",
            "{\"activity\":{\"name\":\"C\"},\"socketId\":\"c\"}"
        ]
    );
    assert!(state.take_outbox(&id).is_empty());
}

#[test]
fn observers_get_every_later_event_in_order() {
    let mut state = BridgeState::new();
    let (first, replay) = state.connect();
    assert!(replay.is_empty());
    state.on_event(&update("a", "A"));
    let (second, replay) = state.connect();
    assert_eq!(replay.len(), 1);
    state.on_event(&EventKind::PrivacyRefresh);
    state.on_event(&EventKind::Clear { socket_id: "zz".into() });
    assert_eq!(
        state.take_outbox(&first),
        vec![
            "{\"activity\":{\"name\":\"A\"},\"socketId\":\"a\"}",
            "{\"activity\":null,\"socketId\":\"zz\"}"
        ]
    );
    assert_eq!(state.take_outbox(&second), vec!["{\"activity\":null,\"socketId\":\"zz\"}"]);
    assert!(state.take_outbox(&first).is_empty());
}

#[test]
fn observer_that_is_gone_gets_nothing() {
    let mut state = BridgeState::new();
    let (gone, _) = state.connect();
    let (stays, _) = state.connect();
    state.disconnect(&gone);
    state.disconnect(&ObserverId { index: 17 });
    state.on_event(&update("a", "A"));
    assert!(state.take_outbox(&gone).is_empty());
    assert_eq!(state.take_outbox(&stays).len(), 1);
    assert!(state.take_outbox(&ObserverId { index: 17 }).is_empty());
}

#[test]
fn e2e_ws_activity_replay() {
    let mut bus = EventBus::new();
    let bridge_sub = bus.subscribe();
    let mut bridge = BridgeState::new();
    // A producer publishes through the WebSocket transport.
    let mut producer = Connection::open(Transport::Ws, Encoding::Json, &mut bus);
    let _ready = producer.ws_greeting();
    let set = WsIncoming::Text(
        "{\"cmd\":\"SET_ACTIVITY\",\"args\":{\"activity\":{\"name\":\"ReplayTest\"}}}".to_string(),
    );
    let action = producer.on_ws_message(&set, &mut bus);
    assert!(format!("{:?}", action.send).contains("ACTIVITY_UPDATE"));
    while let Some(evt) = bus.try_recv(&bridge_sub) {
        bridge.on_event(&evt);
    }
    // An observer connects afterwards.
    let (_id, replay) = bridge.connect();
    let replay_txt = &replay[0];
    assert!(replay_txt.contains("ReplayTest"), "replay missing activity: {replay_txt}");
    assert!(replay_txt.contains(&producer.socket_id));
    assert_eq!(replay.len(), 1);
}
