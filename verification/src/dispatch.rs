//! What the broker answers to a command, whatever transport brought it.

use crate::activity::{
    activity_json, activity_of, button_of, normalize_spec, Activity, ActivityButton,
};
use crate::event::{counted_opt, published_opt, EventBus, EventKind, EventModel};
use crate::json::{
    entries_insert, items_model, lemma_entries_empty, str_eq, Json, JsonModel,
};
use crate::protocol::{build_frame, frame_json};
use crate::text::{to_upper, unicode_upper};
use vstd::prelude::*;
use vstd::string::*;

verus! {

/// The most buttons that an activity may have.
pub const MAX_BUTTONS: usize = 2;

/// The code of a feature that the broker does not have.
pub const CODE_UNSUPPORTED: u32 = 1000;

/// The code of a payload that is not as it should be.
pub const CODE_INVALID: u32 = 4000;

/// The code of an activity with too many buttons.
pub const CODE_TOO_MANY_BUTTONS: u32 = 4002;

/// The command of a frame in upper case; the empty name where `cmd` is no string.
pub open spec fn command_name(m: JsonModel) -> Seq<char> {
    unicode_upper(
        match m.get("cmd"@) {
            Some(JsonModel::Str(s)) => s,
            _ => Seq::empty(),
        },
    )
}

/// The nonce that a reply has to echo: the `nonce` member unless it is missing or null.
pub open spec fn nonce_of(m: JsonModel) -> Option<JsonModel> {
    match m.get("nonce"@) {
        Some(n) => if n is Null {
            None
        } else {
            Some(n)
        },
        None => None,
    }
}

/// The process id that an activity update echoes: `args.pid` where it is an
/// unsigned integer, cut to 32 bits.
pub open spec fn pid_of(m: JsonModel) -> Option<u32> {
    match m.get("args"@) {
        Some(args) => match args.get("pid"@) {
            Some(p) => match p.as_u64() {
                Some(n) => Some((n % 0x1_0000_0000) as u32),
                None => None,
            },
            None => None,
        },
        None => None,
    }
}

/// The `data` of an error reply.
pub open spec fn error_data(code: u32, message: Seq<char>) -> JsonModel {
    JsonModel::Obj(
        Map::empty().insert("code"@, JsonModel::Int(code as int)).insert(
            "message"@,
            JsonModel::Str(message),
        ),
    )
}

/// An error reply: the command it answers, the event `ERROR`, code and
/// message, and the nonce of the request.
pub open spec fn error_frame(
    cmd: Seq<char>,
    code: u32,
    message: Seq<char>,
    nonce: Option<JsonModel>,
) -> JsonModel {
    frame_json(cmd, Some("ERROR"@), error_data(code, message), nonce, None)
}

/// What is wrong with the payload of a `SET_ACTIVITY`, as code and message;
/// nothing where the payload passes. The first of these that applies counts:
/// no `args`; no `args.activity`; an activity that is no object; more than
/// two buttons; a button without a string `label` or a string `url`.
pub open spec fn activity_fault(m: JsonModel) -> Option<(u32, Seq<char>)> {
    match m.get("args"@) {
        None => Some((CODE_INVALID, "Invalid payload: missing args"@)),
        Some(args) => match args.get("activity"@) {
            None => Some((CODE_INVALID, "Invalid payload: missing activity"@)),
            Some(act) => if !(act is Obj) {
                Some((CODE_INVALID, "Invalid payload: activity must be object"@))
            } else {
                match act.get("buttons"@) {
                    Some(JsonModel::Arr(b)) => if b.len() > MAX_BUTTONS {
                        Some((CODE_TOO_MANY_BUTTONS, "Invalid payload: max 2 buttons"@))
                    } else if exists|i: int| 0 <= i < b.len() && button_of(#[trigger] b[i]) is None {
                        Some(
                            (
                                CODE_INVALID,
                                "Invalid payload: button requires label and url strings"@,
                            ),
                        )
                    } else {
                        None
                    },
                    _ => None,
                }
            },
        },
    }
}

/// The error reply to a `SET_ACTIVITY` whose payload does not pass.
pub open spec fn activity_fault_reply(m: JsonModel) -> Option<JsonModel> {
    match activity_fault(m) {
        Some((code, message)) => Some(error_frame("SET_ACTIVITY"@, code, message, nonce_of(m))),
        None => None,
    }
}

/// The canonical form of the activity in `args.activity`, at the time
/// `now_ms`, where there is a readable one.
pub open spec fn normalized_activity(m: JsonModel, now_ms: u64) -> Option<JsonModel> {
    match m.get("args"@) {
        Some(args) => match args.get("activity"@) {
            Some(act) => match activity_of(act) {
                Some(a) => Some(activity_json(normalize_spec(a, now_ms))),
                None => None,
            },
            None => None,
        },
        None => None,
    }
}

/// The reply that tells the originator of its activity in canonical form.
pub open spec fn activity_update_frame(m: JsonModel, activity: JsonModel) -> JsonModel {
    frame_json(
        "DISPATCH"@,
        Some("ACTIVITY_UPDATE"@),
        JsonModel::Obj(Map::empty().insert("activity"@, activity)),
        nonce_of(m),
        pid_of(m),
    )
}

/// The events that a client may subscribe to.
pub open spec fn is_known_event(name: Seq<char>) -> bool {
    name == "GUILD_STATUS"@ || name == "GUILD_CREATE"@ || name == "CHANNEL_CREATE"@ || name
        == "VOICE_CHANNEL_SELECT"@ || name == "VOICE_STATE_CREATE"@ || name
        == "VOICE_STATE_UPDATE"@ || name == "VOICE_STATE_DELETE"@ || name
        == "VOICE_SETTINGS_UPDATE"@ || name == "VOICE_CONNECTION_STATUS"@ || name
        == "SPEAKING_START"@ || name == "SPEAKING_STOP"@ || name == "MESSAGE_CREATE"@ || name
        == "MESSAGE_UPDATE"@ || name == "MESSAGE_DELETE"@ || name == "NOTIFICATION_CREATE"@
        || name == "ACTIVITY_JOIN"@ || name == "ACTIVITY_SPECTATE"@ || name
        == "ACTIVITY_JOIN_REQUEST"@
}

/// The member `key` of `args`, where both are there.
pub open spec fn arg_of(m: JsonModel, key: Seq<char>) -> Option<JsonModel> {
    match m.get("args"@) {
        Some(args) => args.get(key),
        None => None,
    }
}

/// The reply to a command with the given name that the broker does not know.
pub open spec fn unknown_reply(m: JsonModel, name: Seq<char>) -> JsonModel {
    error_frame(name, CODE_INVALID, "Unknown command"@, nonce_of(m))
}

/// The reply to `AUTHORIZE`: never granted, and invalid without a string
/// `client_id` and an array `scopes`.
pub open spec fn authorize_reply(m: JsonModel) -> JsonModel {
    if arg_of(m, "client_id"@) matches Some(JsonModel::Str(_)) && arg_of(m, "scopes"@) matches Some(
        JsonModel::Arr(_),
    ) {
        error_frame("AUTHORIZE"@, CODE_UNSUPPORTED, "Authorization not supported"@, nonce_of(m))
    } else {
        error_frame(
            "AUTHORIZE"@,
            CODE_INVALID,
            "Invalid payload: missing client_id or scopes"@,
            nonce_of(m),
        )
    }
}

/// The reply to `AUTHENTICATE`: never granted, and invalid without a string `access_token`.
pub open spec fn authenticate_reply(m: JsonModel) -> JsonModel {
    if arg_of(m, "access_token"@) matches Some(JsonModel::Str(_)) {
        error_frame(
            "AUTHENTICATE"@,
            CODE_UNSUPPORTED,
            "Authentication not supported in drpc"@,
            nonce_of(m),
        )
    } else {
        error_frame(
            "AUTHENTICATE"@,
            CODE_INVALID,
            "Invalid payload: missing access_token"@,
            nonce_of(m),
        )
    }
}

/// The reply to `SUBSCRIBE` and `UNSUBSCRIBE`, whichever of them `cmd` is:
/// an acknowledgement for a known event, an error for a missing or unknown
/// one.
pub open spec fn subscribe_reply(m: JsonModel, cmd: Seq<char>) -> JsonModel {
    match arg_of(m, "event"@) {
        Some(JsonModel::Str(event)) => if is_known_event(event) {
            frame_json(
                cmd,
                Some("ACK"@),
                JsonModel::Obj(Map::empty()),
                nonce_of(m),
                None,
            )
        } else {
            error_frame(
                cmd,
                CODE_INVALID,
                "Invalid payload: unknown event"@,
                nonce_of(m),
            )
        },
        _ => error_frame(
            cmd,
            CODE_INVALID,
            "Invalid payload: missing args.event"@,
            nonce_of(m),
        ),
    }
}

/// What a command leads to: the reply to its originator and, for an accepted
/// activity, the payload to publish.
pub ghost struct Outcome {
    pub reply: JsonModel,
    pub publish: Option<JsonModel>,
}

/// What the frame `m` leads to at the time `now_ms` where `cmd` is the
/// name of its command in upper case.
pub open spec fn dispatch_named_spec(m: JsonModel, cmd: Seq<char>, now_ms: u64) -> Outcome {
    if cmd == "SET_ACTIVITY"@ {
        match activity_fault_reply(m) {
            Some(reply) => Outcome { reply, publish: None },
            None => match normalized_activity(m, now_ms) {
                Some(activity) => Outcome {
                    reply: activity_update_frame(m, activity),
                    publish: Some(activity),
                },
                None => Outcome { reply: unknown_reply(m, cmd), publish: None },
            },
        }
    } else if cmd == "PING"@ {
        Outcome {
            reply: frame_json(
                "DISPATCH"@,
                Some("PONG"@),
                JsonModel::Obj(Map::empty()),
                nonce_of(m),
                None,
            ),
            publish: None,
        }
    } else if cmd == "AUTHORIZE"@ {
        Outcome { reply: authorize_reply(m), publish: None }
    } else if cmd == "AUTHENTICATE"@ {
        Outcome { reply: authenticate_reply(m), publish: None }
    } else if cmd == "SUBSCRIBE"@ || cmd == "UNSUBSCRIBE"@ {
        Outcome { reply: subscribe_reply(m, cmd), publish: None }
    } else if cmd == "CONNECTIONS_CALLBACK"@ {
        Outcome {
            reply: error_frame(
                "CONNECTIONS_CALLBACK"@,
                CODE_UNSUPPORTED,
                "Connections callback not supported"@,
                nonce_of(m),
            ),
            publish: None,
        }
    } else if cmd == "INVITE_BROWSER"@ || cmd == "GUILD_TEMPLATE_BROWSER"@ || cmd == "DEEP_LINK"@ {
        Outcome {
            reply: frame_json(
                cmd,
                Some("ACK"@),
                JsonModel::Obj(Map::empty().insert("ok"@, JsonModel::Bool(true))),
                nonce_of(m),
                None,
            ),
            publish: None,
        }
    } else {
        Outcome { reply: unknown_reply(m, cmd), publish: None }
    }
}

/// What the command in `m` leads to at the time `now_ms`.
pub open spec fn dispatch_spec(m: JsonModel, now_ms: u64) -> Outcome {
    dispatch_named_spec(m, command_name(m), now_ms)
}

/// The event that an outcome puts on the bus for the connection `socket_id`.
pub open spec fn outcome_event(o: Outcome, socket_id: Seq<char>) -> Option<EventModel> {
    match o.publish {
        Some(payload) => Some(EventModel::ActivityUpdate { socket_id, payload }),
        None => None,
    }
}

// ---------------------------------------------------------------------------
// Laws
// ---------------------------------------------------------------------------

/// Every reply echoes the nonce of its request, and a request without a
/// nonce gets a reply without one.
pub proof fn lemma_reply_echoes_nonce(m: JsonModel, now_ms: u64)
    ensures
        dispatch_spec(m, now_ms).reply.get("nonce"@) == nonce_of(m),
{
    reveal_strlit("nonce");
    reveal_strlit("cmd");
    reveal_strlit("evt");
    reveal_strlit("data");
    reveal_strlit("pid");
    assert("nonce"@ != "pid"@) by {
        assert("nonce"@[0] != "pid"@[0]);
    }
    assert("nonce"@ != "cmd"@) by {
        assert("nonce"@[0] != "cmd"@[0]);
    }
    assert("nonce"@ != "evt"@) by {
        assert("nonce"@[0] != "evt"@[0]);
    }
    assert("nonce"@ != "data"@) by {
        assert("nonce"@[0] != "data"@[0]);
    }
    assert forall|c: Seq<char>, e: Option<Seq<char>>, d: JsonModel, p: Option<u32>| #[trigger]
        frame_json(c, e, d, nonce_of(m), p).get("nonce"@) == nonce_of(m) by {}
}

/// The reply to an accepted activity carries the pid that came with the
/// request, and no other reply carries one.
pub proof fn lemma_reply_echoes_pid(m: JsonModel, now_ms: u64)
    ensures
        dispatch_spec(m, now_ms).publish is Some ==> dispatch_spec(m, now_ms).reply.get("pid"@)
            == match pid_of(m) {
            Some(p) => Some(JsonModel::Int(p as int)),
            None => None,
        },
        dispatch_spec(m, now_ms).publish is None ==> dispatch_spec(m, now_ms).reply.get("pid"@)
            is None,
{
    reveal_strlit("nonce");
    reveal_strlit("cmd");
    reveal_strlit("evt");
    reveal_strlit("data");
    reveal_strlit("pid");
    assert("nonce"@ != "pid"@) by {
        assert("nonce"@[0] != "pid"@[0]);
    }
    assert("pid"@ != "cmd"@) by {
        assert("pid"@[0] != "cmd"@[0]);
    }
    assert("pid"@ != "evt"@) by {
        assert("pid"@[0] != "evt"@[0]);
    }
    assert("pid"@ != "data"@) by {
        assert("pid"@[0] != "data"@[0]);
    }
    assert forall|c: Seq<char>, e: Option<Seq<char>>, d: JsonModel, n: Option<JsonModel>| #[trigger]
        frame_json(c, e, d, n, None).get("pid"@) is None by {}
    assert forall|c: Seq<char>, e: Option<Seq<char>>, d: JsonModel, n: Option<JsonModel>, p: u32| #[trigger]
        frame_json(c, e, d, n, Some(p)).get("pid"@) == Some(JsonModel::Int(p as int)) by {}
}

/// Only an accepted `SET_ACTIVITY` publishes, and what it publishes is the
/// activity that its reply reports.
pub proof fn lemma_publish_only_on_set_activity(m: JsonModel, now_ms: u64)
    ensures
        dispatch_spec(m, now_ms).publish is Some ==> command_name(m) == "SET_ACTIVITY"@
            && activity_fault(m) is None && dispatch_spec(m, now_ms).reply
            == activity_update_frame(m, dispatch_spec(m, now_ms).publish->0),
{
}


// ---------------------------------------------------------------------------
// Executable dispatcher
// ---------------------------------------------------------------------------

/// The command of a frame in upper case.
fn command_of(val: &Json) -> (r: String)
    ensures
        r@ == command_name(val@),
{
    match val.get("cmd") {
        Some(c) => match c.as_str() {
            Some(s) => to_upper(s),
            None => {
                proof {
                    assert(""@ =~= Seq::<char>::empty()) by {
                        reveal_strlit("");
                    }
                }
                to_upper("")
            },
        },
        None => {
            proof {
                assert(""@ =~= Seq::<char>::empty()) by {
                    reveal_strlit("");
                }
            }
            to_upper("")
        },
    }
}

/// The nonce that a reply has to echo.
fn nonce_ref<'a>(val: &'a Json) -> (r: Option<&'a Json>)
    ensures
        match r {
            Some(n) => nonce_of(val@) == Some(n@),
            None => nonce_of(val@) is None,
        },
{
    match val.get("nonce") {
        Some(n) => if n.is_null() {
            None
        } else {
            Some(n)
        },
        None => None,
    }
}

/// The process id that an activity update echoes.
fn pid_arg(val: &Json) -> (r: Option<u32>)
    ensures
        r == pid_of(val@),
{
    match val.get("args") {
        Some(args) => match args.get("pid") {
            Some(p) => match p.as_u64() {
                Some(n) => Some((n % 0x1_0000_0000) as u32),
                None => None,
            },
            None => None,
        },
        None => None,
    }
}

/// The member `key` of `args`.
fn arg<'a>(val: &'a Json, key: &str) -> (r: Option<&'a Json>)
    ensures
        match r {
            Some(x) => arg_of(val@, key@) == Some(x@),
            None => arg_of(val@, key@) is None,
        },
{
    match val.get("args") {
        Some(args) => args.get(key),
        None => None,
    }
}

/// Builds an error reply.
fn error_reply(cmd: &str, code: u32, message: &str, nonce: Option<&Json>) -> (r: Json)
    ensures
        r@ == error_frame(
            cmd@,
            code,
            message@,
            match nonce {
                Some(n) => Some(n@),
                None => None,
            },
        ),
{
    let mut data: Vec<(String, Json)> = Vec::new();
    proof {
        lemma_entries_empty();
    }
    entries_insert(&mut data, "code", Json::uint(code as u64));
    entries_insert(&mut data, "message", Json::string(message));
    build_frame(cmd, Some("ERROR"), Json::Object(data), nonce, None)
}

/// Whether each of the buttons has a string `label` and a string `url`.
fn buttons_well_formed(buttons: &Vec<Json>) -> (r: bool)
    ensures
        r == !(exists|i: int|
            0 <= i < items_model(buttons@).len() && button_of(#[trigger] items_model(buttons@)[i])
                is None),
{
    let mut i: usize = 0;
    while i < buttons.len()
        invariant
            i <= buttons.len(),
            forall|j: int| 0 <= j < i ==> button_of(#[trigger] items_model(buttons@)[j]) is Some,
        decreases buttons.len() - i,
    {
        assert(items_model(buttons@)[i as int] == buttons@[i as int]@);
        if ActivityButton::from_json(&buttons[i]).is_none() {
            return false;
        }
        i += 1;
    }
    true
}

/// Checks the payload of a `SET_ACTIVITY`. Gives the error reply where the
/// payload does not pass, and nothing where it does.
pub fn validate_activity_payload(raw: &Json) -> (r: Option<Json>)
    ensures
        match r {
            Some(reply) => activity_fault_reply(raw@) == Some(reply@),
            None => activity_fault_reply(raw@) is None,
        },
{
    let nonce = nonce_ref(raw);
    let args = match raw.get("args") {
        Some(a) => a,
        None => {
            return Some(
                error_reply("SET_ACTIVITY", CODE_INVALID, "Invalid payload: missing args", nonce),
            );
        },
    };
    let act = match args.get("activity") {
        Some(a) => a,
        None => {
            return Some(
                error_reply(
                    "SET_ACTIVITY",
                    CODE_INVALID,
                    "Invalid payload: missing activity",
                    nonce,
                ),
            );
        },
    };
    if !act.is_object() {
        return Some(
            error_reply(
                "SET_ACTIVITY",
                CODE_INVALID,
                "Invalid payload: activity must be object",
                nonce,
            ),
        );
    }
    match act.get("buttons") {
        Some(b) => match b.as_array() {
            Some(buttons) => {
                if buttons.len() > MAX_BUTTONS {
                    return Some(
                        error_reply(
                            "SET_ACTIVITY",
                            CODE_TOO_MANY_BUTTONS,
                            "Invalid payload: max 2 buttons",
                            nonce,
                        ),
                    );
                }
                if !buttons_well_formed(buttons) {
                    return Some(
                        error_reply(
                            "SET_ACTIVITY",
                            CODE_INVALID,
                            "Invalid payload: button requires label and url strings",
                            nonce,
                        ),
                    );
                }
                None
            },
            None => None,
        },
        None => None,
    }
}

/// The canonical form of the activity in `args.activity` at the time `now_ms`.
fn normalize_payload(raw: &Json, now_ms: u64) -> (r: Option<Json>)
    ensures
        match r {
            Some(a) => normalized_activity(raw@, now_ms) == Some(a@),
            None => normalized_activity(raw@, now_ms) is None,
        },
{
    match arg(raw, "activity") {
        Some(act) => match Activity::from_json(act) {
            Some(a) => Some(a.normalize_at(now_ms).to_json()),
            None => None,
        },
        None => None,
    }
}

/// Builds the reply that reports an activity in canonical form.
fn activity_update_reply(raw: &Json, activity: Json) -> (r: Json)
    ensures
        r@ == activity_update_frame(raw@, activity@),
{
    let mut data: Vec<(String, Json)> = Vec::new();
    proof {
        lemma_entries_empty();
    }
    entries_insert(&mut data, "activity", activity);
    build_frame("DISPATCH", Some("ACTIVITY_UPDATE"), Json::Object(data), nonce_ref(raw), pid_arg(raw))
}

/// The `ACTIVITY_UPDATE` reply to a `SET_ACTIVITY` at the time `now_ms`;
/// nothing where `args.activity` is missing or cannot be read.
pub fn build_activity_update_at(raw: &Json, now_ms: u64) -> (r: Option<Json>)
    ensures
        match r {
            Some(reply) => normalized_activity(raw@, now_ms) is Some && reply@
                == activity_update_frame(raw@, normalized_activity(raw@, now_ms)->0),
            None => normalized_activity(raw@, now_ms) is None,
        },
{
    match normalize_payload(raw, now_ms) {
        Some(a) => Some(activity_update_reply(raw, a)),
        None => None,
    }
}

/// The `ACTIVITY_UPDATE` reply to a `SET_ACTIVITY` at the current time.
pub fn build_activity_update(raw: &Json) -> (r: Option<Json>)
    ensures
        exists|now_ms: u64|
            match r {
                Some(reply) => normalized_activity(raw@, now_ms) is Some && reply@
                    == activity_update_frame(raw@, normalized_activity(raw@, now_ms)->0),
                None => normalized_activity(raw@, now_ms) is None,
            },
{
    let now_ms = crate::activity::current_millis();
    build_activity_update_at(raw, now_ms)
}

/// Whether a client may subscribe to the event.
pub fn is_subscribable(name: &str) -> (r: bool)
    ensures
        r == is_known_event(name@),
{
    str_eq(name, "GUILD_STATUS") || str_eq(name, "GUILD_CREATE") || str_eq(name, "CHANNEL_CREATE")
        || str_eq(name, "VOICE_CHANNEL_SELECT") || str_eq(name, "VOICE_STATE_CREATE") || str_eq(
        name,
        "VOICE_STATE_UPDATE",
    ) || str_eq(name, "VOICE_STATE_DELETE") || str_eq(name, "VOICE_SETTINGS_UPDATE") || str_eq(
        name,
        "VOICE_CONNECTION_STATUS",
    ) || str_eq(name, "SPEAKING_START") || str_eq(name, "SPEAKING_STOP") || str_eq(
        name,
        "MESSAGE_CREATE",
    ) || str_eq(name, "MESSAGE_UPDATE") || str_eq(name, "MESSAGE_DELETE") || str_eq(
        name,
        "NOTIFICATION_CREATE",
    ) || str_eq(name, "ACTIVITY_JOIN") || str_eq(name, "ACTIVITY_SPECTATE") || str_eq(
        name,
        "ACTIVITY_JOIN_REQUEST",
    )
}

/// What a command leads to.
#[derive(Debug)]
pub struct Reply {
    /// The frame to send to the originator.
    pub frame: Json,
    /// The canonical activity to publish, after an accepted `SET_ACTIVITY`.
    pub publish: Option<Json>,
}

impl View for Reply {
    type V = Outcome;

    open spec fn view(&self) -> Outcome {
        Outcome {
            reply: self.frame@,
            publish: match self.publish {
                Some(p) => Some(p@),
                None => None,
            },
        }
    }
}

/// Works out the reply to a frame at the time `now_ms`, given the name of
/// its command in upper case.
pub fn dispatch_named_at(val: &Json, name: &str, now_ms: u64) -> (r: Reply)
    ensures
        r@ == dispatch_named_spec(val@, name@, now_ms),
{
    let nonce = nonce_ref(val);
    if str_eq(name, "SET_ACTIVITY") {
        match validate_activity_payload(val) {
            Some(reply) => Reply { frame: reply, publish: None },
            None => match normalize_payload(val, now_ms) {
                Some(activity) => {
                    let frame = activity_update_reply(val, activity.deep_clone());
                    Reply { frame, publish: Some(activity) }
                },
                None => Reply {
                    frame: error_reply(name, CODE_INVALID, "Unknown command", nonce),
                    publish: None,
                },
            },
        }
    } else if str_eq(name, "PING") {
        Reply {
            frame: build_frame("DISPATCH", Some("PONG"), Json::empty_object(), nonce, None),
            publish: None,
        }
    } else if str_eq(name, "AUTHORIZE") {
        let client_id_ok = match arg(val, "client_id") {
            Some(x) => x.as_str().is_some(),
            None => false,
        };
        let scopes_ok = match arg(val, "scopes") {
            Some(x) => x.as_array().is_some(),
            None => false,
        };
        let frame = if client_id_ok && scopes_ok {
            error_reply("AUTHORIZE", CODE_UNSUPPORTED, "Authorization not supported", nonce)
        } else {
            error_reply(
                "AUTHORIZE",
                CODE_INVALID,
                "Invalid payload: missing client_id or scopes",
                nonce,
            )
        };
        Reply { frame, publish: None }
    } else if str_eq(name, "AUTHENTICATE") {
        let token_ok = match arg(val, "access_token") {
            Some(x) => x.as_str().is_some(),
            None => false,
        };
        let frame = if token_ok {
            error_reply(
                "AUTHENTICATE",
                CODE_UNSUPPORTED,
                "Authentication not supported in drpc",
                nonce,
            )
        } else {
            error_reply(
                "AUTHENTICATE",
                CODE_INVALID,
                "Invalid payload: missing access_token",
                nonce,
            )
        };
        Reply { frame, publish: None }
    } else if str_eq(name, "SUBSCRIBE") || str_eq(name, "UNSUBSCRIBE") {
        let event = match arg(val, "event") {
            Some(x) => x.as_str(),
            None => None,
        };
        let frame = match event {
            Some(e) => if is_subscribable(e) {
                build_frame(name, Some("ACK"), Json::empty_object(), nonce, None)
            } else {
                error_reply(name, CODE_INVALID, "Invalid payload: unknown event", nonce)
            },
            None => error_reply(name, CODE_INVALID, "Invalid payload: missing args.event", nonce),
        };
        Reply { frame, publish: None }
    } else if str_eq(name, "CONNECTIONS_CALLBACK") {
        Reply {
            frame: error_reply(
                "CONNECTIONS_CALLBACK",
                CODE_UNSUPPORTED,
                "Connections callback not supported",
                nonce,
            ),
            publish: None,
        }
    } else if str_eq(name, "INVITE_BROWSER") || str_eq(name, "GUILD_TEMPLATE_BROWSER") || str_eq(
        name,
        "DEEP_LINK",
    ) {
        let mut data: Vec<(String, Json)> = Vec::new();
        proof {
            lemma_entries_empty();
        }
        entries_insert(&mut data, "ok", Json::Bool(true));
        Reply {
            frame: build_frame(name, Some("ACK"), Json::Object(data), nonce, None),
            publish: None,
        }
    } else {
        Reply { frame: error_reply(name, CODE_INVALID, "Unknown command", nonce), publish: None }
    }
}

/// Works out the reply to a command at the time `now_ms`.
pub fn dispatch_at(val: &Json, now_ms: u64) -> (r: Reply)
    ensures
        r@ == dispatch_spec(val@, now_ms),
{
    let cmd = command_of(val);
    dispatch_named_at(val, cmd.as_str(), now_ms)
}

/// Handles one command of the connection `socket_id` at the time `now_ms`:
/// gives the reply for the originator, and puts an accepted activity on the
/// bus.
pub fn handle_incoming_value_at(val: &Json, bus: &mut EventBus, socket_id: &str, now_ms: u64) -> (r:
    Json)
    ensures
        r@ == dispatch_spec(val@, now_ms).reply,
        final(bus).queues() == published_opt(
            old(bus).queues(),
            outcome_event(dispatch_spec(val@, now_ms), socket_id@),
        ),
        final(bus).counters() == counted_opt(
            old(bus).counters(),
            outcome_event(dispatch_spec(val@, now_ms), socket_id@),
        ),
{
    let reply = dispatch_at(val, now_ms);
    match reply.publish {
        Some(payload) => {
            bus.publish(EventKind::ActivityUpdate { socket_id: socket_id.to_owned(), payload });
        },
        None => {},
    }
    reply.frame
}

/// Handles one command of the connection `socket_id` at the current time.
pub fn handle_incoming_value(val: &Json, bus: &mut EventBus, socket_id: &str) -> (r: Json)
    ensures
        exists|now_ms: u64|
            {
                &&& r@ == dispatch_spec(val@, now_ms).reply
                &&& final(bus).queues() == published_opt(
                    old(bus).queues(),
                    outcome_event(dispatch_spec(val@, now_ms), socket_id@),
                )
                &&& final(bus).counters() == counted_opt(
                    old(bus).counters(),
                    outcome_event(dispatch_spec(val@, now_ms), socket_id@),
                )
            },
{
    let now_ms = crate::activity::current_millis();
    handle_incoming_value_at(val, bus, socket_id, now_ms)
}

} // verus!
