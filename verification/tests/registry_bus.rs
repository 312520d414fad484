use drpc::activity_registry::{registry_snapshot, shutdown_events, ActivityRegistry};
use drpc::event::{EventBus, EventKind, Subscription};
use drpc::json::Json;
use drpc::metrics::{snapshot, Metrics};

fn named(name: &str) -> Json {
    Json::Object(vec![("name".to_string(), Json::string(name))])
}

fn find<'a>(entries: &'a [(String, Json)], key: &str) -> Option<&'a Json> {
    entries.iter().find(|e| e.0 == key).map(|e| &e.1)
}

#[test]
fn registry_set_and_clear_and_non_null() {
    let mut reg = ActivityRegistry::new();
    reg.set("sock1", named("A"));
    reg.set("sock2", named("B"));
    let snap = reg.snapshot();
    assert_eq!(snap.len(), 2);
    assert!(find(&snap, "sock1").unwrap().get("name").unwrap().as_str().unwrap() == "A");
    reg.clear("sock1");
    let nn = reg.non_null();
    assert_eq!(nn.len(), 1);
    assert_eq!(nn[0].0, "sock2");
}

#[test]
fn bus_publish_subscribe_and_metrics() {
    let mut bus = EventBus::new();
    let rx1 = bus.subscribe();
    let rx2 = bus.subscribe();
    bus.publish(EventKind::ActivityUpdate { socket_id: "s1".into(), payload: named("X") });
    let e1 = bus.try_recv(&rx1).expect("rx1 evt");
    let e2 = bus.try_recv(&rx2).expect("rx2 evt");
    match (e1, e2) {
        (
            EventKind::ActivityUpdate { socket_id, .. },
            EventKind::ActivityUpdate { socket_id: socket_id2, .. },
        ) => {
            assert_eq!(socket_id, "s1");
            assert_eq!(socket_id2, "s1");
        }
        _ => panic!("unexpected events"),
    }
    assert!(bus.metrics().activities_set >= 1);
}

#[test]
fn metrics_snapshot_increments() {
    let mut m = Metrics::new();
    m.connection_opened();
    m.connection_opened();
    m.process_detected();
    m.set_detectables_count(5);
    let snap = snapshot(&m);
    assert_eq!(snap.get("active_connections").unwrap().as_u64().unwrap(), 2);
    assert_eq!(snap.get("processes_detected").unwrap().as_u64().unwrap(), 1);
    assert_eq!(snap.get("detectables_count").unwrap().as_u64().unwrap(), 5);
}

#[test]
fn counters_wrap() {
    let mut m = Metrics::new();
    m.connection_closed();
    assert_eq!(m.active_connections, u64::MAX);
    m.connection_opened();
    assert_eq!(m.active_connections, 0);
    m.activity_set();
    assert_eq!(
        snapshot(&m).to_text(),
        "{\"active_connections\":0,\"activities_set\":1,\"detectables_count\":0,\"processes_detected\":0}"
    );
}

#[test]
fn registry_keeps_cleared_ids_as_null() {
    let mut reg = ActivityRegistry::new();
    reg.clear("never-set");
    reg.set("a", named("A"));
    reg.set("a", named("A2"));
    reg.clear("a");
    let snap = reg.snapshot();
    assert_eq!(snap.len(), 2);
    assert!(find(&snap, "a").unwrap().is_null());
    assert!(find(&snap, "never-set").unwrap().is_null());
    assert!(reg.non_null().is_empty());
    reg.set("a", named("A3"));
    let live = registry_snapshot(&reg);
    assert_eq!(live.len(), 1);
    assert_eq!(live[0].1, named("A3"));
}

#[test]
fn registry_follows_the_bus() {
    let mut reg = ActivityRegistry::new();
    reg.apply(&EventKind::ActivityUpdate { socket_id: "s".into(), payload: named("G") });
    reg.apply(&EventKind::PrivacyRefresh);
    assert_eq!(reg.non_null(), vec![("s".to_string(), named("G"))]);
    reg.apply(&EventKind::Clear { socket_id: "s".into() });
    assert!(reg.non_null().is_empty());
    assert_eq!(reg.snapshot().len(), 1);
}

#[test]
fn shutdown_clears_every_live_activity_once() {
    let mut reg = ActivityRegistry::new();
    reg.set("a", named("A"));
    reg.set("b", named("B"));
    reg.set("c", named("C"));
    reg.clear("b");
    let mut ids: Vec<String> = shutdown_events(&reg)
        .into_iter()
        .map(|e| match e {
            EventKind::Clear { socket_id } => socket_id,
            other => panic!("unexpected event {other:?}"),
        })
        .collect();
    ids.sort();
    assert_eq!(ids, vec!["a", "c"]);
}

#[test]
fn every_subscriber_gets_every_event_in_order() {
    let mut bus = EventBus::new();
    let early = bus.subscribe();
    bus.publish(EventKind::Clear { socket_id: "1".into() });
    let late = bus.subscribe();
    bus.publish(EventKind::PrivacyRefresh);
    bus.publish(EventKind::Clear { socket_id: "3".into() });
    assert_eq!(bus.subscriber_count(), 2);
    let drain = |bus: &mut EventBus, sub: &Subscription| {
        let mut seen = Vec::new();
        while let Some(e) = bus.try_recv(sub) {
            seen.push(format!("{e:?}"));
        }
        seen
    };
    let a = drain(&mut bus, &early);
    let b = drain(&mut bus, &late);
    assert_eq!(a.len(), 3);
    assert_eq!(b.len(), 2);
    assert_eq!(a[1..], b[..]);
    assert!(a[0].contains("\"1\"") && a[2].contains("\"3\""));
    assert!(bus.try_recv(&early).is_none());
    assert_eq!(bus.metrics().activities_set, 0);
}

#[test]
fn unknown_subscription_gets_nothing() {
    let mut bus = EventBus::new();
    bus.publish(EventKind::PrivacyRefresh);
    assert!(bus.try_recv(&Subscription { id: 3 }).is_none());
}

#[test]
fn publish_all_keeps_the_order() {
    let mut bus = EventBus::new();
    let sub = bus.subscribe();
    bus.publish_all(&vec![
        EventKind::Clear { socket_id: "a".into() },
        EventKind::ActivityUpdate { socket_id: "b".into(), payload: Json::Null },
    ]);
    assert!(matches!(bus.try_recv(&sub), Some(EventKind::Clear { .. })));
    assert!(matches!(bus.try_recv(&sub), Some(EventKind::ActivityUpdate { .. })));
    assert_eq!(bus.metrics().activities_set, 1);
}

#[test]
fn subscriber_that_is_gone_gets_nothing() {
    let mut bus = EventBus::new();
    let gone = bus.subscribe();
    let stays = bus.subscribe();
    bus.publish(EventKind::PrivacyRefresh);
    bus.unsubscribe(gone);
    bus.unsubscribe(Subscription { id: 9 });
    bus.publish(EventKind::PrivacyRefresh);
    assert!(bus.try_recv(&gone).is_none());
    assert!(bus.try_recv(&stays).is_some());
    assert!(bus.try_recv(&stays).is_some());
    assert!(bus.try_recv(&stays).is_none());
    assert_eq!(bus.subscriber_count(), 2);
}
