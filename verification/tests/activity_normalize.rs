use drpc::activity::{
    maybe_seconds_to_ms, Activity, ActivityAssets, ActivityButton, ActivityParty, ActivitySecrets,
    ActivityTimestamps,
};
use drpc::json::Json;

fn parse(text: &str) -> Json {
    Json::parse_text(text).unwrap()
}

fn assert_same(left: &Json, right: &Json) {
    assert_eq!(left.to_text(), right.to_text());
}

const NOW_MS: u64 = 1_700_000_000_000;

#[test]
fn buttons_normalize() {
    let act = Activity {
        name: "Game".into(),
        buttons: Some(vec![ActivityButton {
            label: "Site".into(),
            url: "https://example.com".into(),
        }]),
        ..Default::default()
    };
    let norm = act.normalize();
    let val = norm.to_json();
    assert!(val.get("metadata").is_some());
}

#[test]
fn buttons_become_labels_and_urls() {
    let act = Activity {
        name: "Game".into(),
        buttons: Some(vec![
            ActivityButton { label: "Site".into(), url: "https://example.com".into() },
            ActivityButton { label: "Wiki".into(), url: "https://example.org".into() },
        ]),
        ..Default::default()
    };
    let norm = act.normalize_at(NOW_MS);
    assert!(norm.buttons.is_none());
    assert_same(
        &norm.to_json(),
        &parse(
            "{\"buttons\":[\"Site\",\"Wiki\"],\"metadata\":{\"button_urls\":[\"https://example.com\",\"https://example.org\"]},\"name\":\"Game\"}"
        ),
    );
}

#[test]
fn second_pass_has_no_buttons_and_changes_nothing() {
    let act = Activity {
        name: "Game".into(),
        instance: Some(true),
        flags: Some(4),
        buttons: Some(vec![ActivityButton { label: "a".into(), url: "b".into() }]),
        timestamps: Some(ActivityTimestamps { start: Some(NOW_MS), end: None }),
        ..Default::default()
    };
    let once = act.normalize_at(NOW_MS);
    let once_json = once.to_json();
    let twice = once.normalize_at(NOW_MS);
    assert!(twice.buttons.is_none());
    assert_same(&twice.to_json(), &once_json);
    let thrice = twice.normalize();
    assert!(thrice.buttons.is_none());
}

#[test]
fn seconds_become_milliseconds() {
    let act = Activity {
        timestamps: Some(ActivityTimestamps {
            start: Some(1_700_000_000),
            end: Some(NOW_MS + 5),
        }),
        ..Default::default()
    };
    let norm = act.normalize_at(NOW_MS);
    assert_eq!(
        norm.timestamps,
        Some(ActivityTimestamps { start: Some(1_700_000_000_000), end: Some(NOW_MS + 5) })
    );
}

#[test]
fn timestamp_threshold_is_a_hundredth_of_now() {
    let mut below = NOW_MS / 100 - 1;
    maybe_seconds_to_ms(&mut below, NOW_MS);
    assert_eq!(below, (NOW_MS / 100 - 1) * 1000);
    let mut at = NOW_MS / 100;
    maybe_seconds_to_ms(&mut at, NOW_MS);
    assert_eq!(at, NOW_MS / 100);
    let mut zero = 0;
    maybe_seconds_to_ms(&mut zero, NOW_MS);
    assert_eq!(zero, 0);
    let mut any = 5;
    maybe_seconds_to_ms(&mut any, 0);
    assert_eq!(any, 5);
}

#[test]
fn multiplication_wraps_in_64_bits() {
    let mut v = u64::MAX / 100 - 1;
    maybe_seconds_to_ms(&mut v, u64::MAX);
    assert_eq!(v, (u64::MAX / 100 - 1).wrapping_mul(1000));
}

#[test]
fn instance_sets_bit_zero() {
    let with = |instance, flags| Activity { instance, flags, ..Default::default() }
        .normalize_at(NOW_MS)
        .flags;
    assert_eq!(with(Some(true), None), Some(1));
    assert_eq!(with(Some(true), Some(6)), Some(7));
    assert_eq!(with(Some(true), Some(7)), Some(7));
    assert_eq!(with(Some(false), Some(6)), Some(6));
    assert_eq!(with(Some(false), None), None);
    assert_eq!(with(None, Some(2)), Some(2));
}

#[test]
fn default_is_empty() {
    let a = Activity::default();
    assert_eq!(a.name, "");
    assert!(a.state.is_none() && a.buttons.is_none() && a.extra.is_empty());
    assert_same(&a.to_json(), &parse("{\"name\":\"\"}"));
}

#[test]
fn reads_every_member() {
    let v = parse(
        "{\"name\":\"N\",\"state\":\"S\",\"details\":\"D\",\
         \"timestamps\":{\"start\":1,\"end\":2},\
         \"assets\":{\"large_image\":\"li\",\"large_text\":\"lt\",\"small_image\":\"si\",\"small_text\":\"st\"},\
         \"party\":{\"id\":\"p\",\"size\":[1,4]},\
         \"secrets\":{\"join\":\"j\",\"spectate\":\"s\",\"match\":\"m\"},\
         \"buttons\":[{\"label\":\"l\",\"url\":\"u\"}],\
         \"instance\":true,\"flags\":3,\"type\":0,\"custom\":{\"x\":[1]}}",
    );
    let a = Activity::from_json(&v).unwrap();
    assert_eq!(a.name, "N");
    assert_eq!(a.state.as_deref(), Some("S"));
    assert_eq!(a.details.as_deref(), Some("D"));
    assert_eq!(a.timestamps, Some(ActivityTimestamps { start: Some(1), end: Some(2) }));
    assert_eq!(
        a.assets,
        Some(ActivityAssets {
            large_image: Some("li".into()),
            large_text: Some("lt".into()),
            small_image: Some("si".into()),
            small_text: Some("st".into()),
        })
    );
    assert_eq!(a.party, Some(ActivityParty { id: Some("p".into()), size: Some((1, 4)) }));
    assert_eq!(
        a.secrets,
        Some(ActivitySecrets {
            join: Some("j".into()),
            spectate: Some("s".into()),
            match_: Some("m".into()),
        })
    );
    assert_eq!(a.buttons, Some(vec![ActivityButton { label: "l".into(), url: "u".into() }]));
    assert_eq!(a.instance, Some(true));
    assert_eq!(a.flags, Some(3));
    let mut extra: Vec<&str> = a.extra.iter().map(|e| e.0.as_str()).collect();
    extra.sort();
    assert_eq!(extra, vec!["custom", "type"]);
    assert_same(&a.to_json(), &v);
}

#[test]
fn missing_and_null_members_are_unset() {
    let a = Activity::from_json(&parse("{\"state\":null,\"timestamps\":null,\"flags\":null}")).unwrap();
    assert_eq!(a, Activity::default());
    let a = Activity::from_json(&parse("{\"timestamps\":{},\"party\":{\"size\":null}}")).unwrap();
    assert_eq!(a.timestamps, Some(ActivityTimestamps::default()));
    assert_eq!(a.party, Some(ActivityParty::default()));
    assert_same(&a.to_json(), &parse("{\"name\":\"\",\"timestamps\":{},\"party\":{}}"));
}

#[test]
fn members_of_the_wrong_shape_make_it_unreadable() {
    for text in [
        "[]",
        "null",
        "\"name\"",
        "{\"name\":5}",
        "{\"name\":null}",
        "{\"state\":1}",
        "{\"timestamps\":{\"start\":-1}}",
        "{\"timestamps\":{\"start\":1.5}}",
        "{\"timestamps\":[1,2]}",
        "{\"assets\":{\"large_image\":1}}",
        "{\"party\":{\"size\":[1]}}",
        "{\"party\":{\"size\":[1,2,3]}}",
        "{\"party\":{\"size\":[1,4294967296]}}",
        "{\"secrets\":{\"match\":false}}",
        "{\"buttons\":{}}",
        "{\"buttons\":[{\"label\":\"l\"}]}",
        "{\"buttons\":[\"l\"]}",
        "{\"instance\":1}",
        "{\"flags\":4294967296}",
        "{\"flags\":-1}",
    ] {
        assert!(Activity::from_json(&parse(text)).is_none(), "{text}");
    }
    assert_eq!(Activity::from_json(&parse("{\"flags\":4294967295}")).unwrap().flags, Some(u32::MAX));
}

#[test]
fn extras_win_over_fields_of_the_same_name() {
    let a = Activity {
        name: "N".into(),
        extra: vec![("name".to_string(), Json::string("from extra"))],
        ..Default::default()
    };
    assert_same(&a.to_json(), &parse("{\"name\":\"from extra\"}"));
}

#[test]
fn parts_write_only_what_is_set() {
    assert_same(&ActivityTimestamps { start: None, end: Some(9) }.to_json(), &parse("{\"end\":9}"));
    assert_same(&ActivityAssets { small_text: Some("s".into()), ..Default::default() }.to_json(), &parse("{\"small_text\":\"s\"}"));
    assert_same(&ActivityParty { id: None, size: Some((2, 5)) }.to_json(), &parse("{\"size\":[2,5]}"));
    assert_same(&ActivitySecrets { match_: Some("m".into()), ..Default::default() }.to_json(), &parse("{\"match\":\"m\"}"));
    assert_same(&ActivityButton { label: "l".into(), url: "u".into() }.to_json(), &parse("{\"label\":\"l\",\"url\":\"u\"}"));
    assert_eq!(ActivityTimestamps::from_json(&parse("{\"end\":9}")), Some(ActivityTimestamps { start: None, end: Some(9) }));
    assert!(ActivityAssets::from_json(&parse("[]")).is_none());
    assert!(ActivityParty::from_json(&parse("{\"id\":1}")).is_none());
    assert!(ActivitySecrets::from_json(&parse("1")).is_none());
    assert!(ActivityButton::from_json(&parse("{\"label\":\"l\",\"url\":2}")).is_none());
}
