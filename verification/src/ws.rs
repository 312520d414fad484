//! The WebSocket transport: where it listens, whom it lets in, and what it
//! answers to a message.

use crate::connection::{Connection, Encoding, MAX_PAYLOAD};
use crate::dispatch::{dispatch_spec, handle_incoming_value_at, outcome_event};
use crate::etf::{
    encode_value_etf, json_content, json_of, term_bag, term_to_json, EtfEncodeError, EtfTerm,
    TermModel, VERSION_TAG,
};
use crate::event::{counted_opt, published_opt, EventBus, EventModel};
use crate::json::{
    entries_insert, json_parse, json_text, lemma_entries_empty, str_eq, Json, JsonModel,
};
use crate::protocol::{ready_frame, ready_frame_json};
use crate::text::{to_lower, unicode_lower};
use vstd::prelude::*;
use vstd::string::*;
use vstd::utf8::*;

verus! {

/// The first port that is tried.
pub const FIRST_PORT: u16 = 6463;

/// The last port that is tried before any free port is taken.
pub const LAST_PORT: u16 = 6472;

/// The port for an attempt to bind: the ports from [`FIRST_PORT`] to
/// [`LAST_PORT`] in order, then port 0, which lets the operating system
/// choose, then nothing.
pub open spec fn port_for(attempt: nat) -> Option<u16> {
    if attempt <= LAST_PORT - FIRST_PORT {
        Some((FIRST_PORT + attempt) as u16)
    } else if attempt == LAST_PORT - FIRST_PORT + 1 {
        Some(0u16)
    } else {
        None
    }
}

/// The port to bind at the given attempt, counted from 0.
pub fn probe_port(attempt: usize) -> (r: Option<u16>)
    ensures
        r == port_for(attempt as nat),
{
    if attempt <= (LAST_PORT - FIRST_PORT) as usize {
        Some(FIRST_PORT + attempt as u16)
    } else if attempt == (LAST_PORT - FIRST_PORT) as usize + 1 {
        Some(0)
    } else {
        None
    }
}

/// Why an upgrade is refused.
#[derive(Debug, Clone, Copy, PartialEq, Eq, Structural)]
pub enum UpgradeError {
    /// The origin is not allowed.
    Forbidden,
    /// The query is not as it should be.
    BadRequest,
}

impl UpgradeError {
    /// The HTTP status that tells the client.
    pub fn status(self) -> (r: u16)
        ensures
            r == match self {
                UpgradeError::Forbidden => 403u16,
                UpgradeError::BadRequest => 400u16,
            },
    {
        match self {
            UpgradeError::Forbidden => 403,
            UpgradeError::BadRequest => 400,
        }
    }
}

/// The query of an upgrade request.
#[derive(Debug, Clone, Default)]
pub struct WsQuery {
    pub v: Option<u8>,
    pub encoding: Option<String>,
    pub client_id: Option<String>,
}

/// The origins from which a page may connect.
pub open spec fn is_allowed_origin(origin: Seq<char>) -> bool {
    origin == "https://discord.com"@ || origin == "https://ptb.discord.com"@ || origin
        == "https://canary.discord.com"@
}

/// The encoding that a query asks for, in lower case; `json` where it asks for none.
pub open spec fn wanted_encoding(encoding: Option<Seq<char>>) -> Seq<char> {
    unicode_lower(
        match encoding {
            Some(e) => e,
            None => "json"@,
        },
    )
}

/// What becomes of an upgrade request, given its `Origin` header, whether
/// debugging is on, its version, the encoding that it asks for in lower
/// case, and whether it names a client. The first of these that applies
/// counts: an origin that is not allowed, unless debugging is on, is
/// forbidden; a version other than 1, an encoding other than `json` and
/// `etf`, and a missing client id are bad requests. Otherwise the connection
/// is accepted with the encoding that was asked for.
pub open spec fn upgrade_named_spec(
    origin: Option<Seq<char>>,
    debug: bool,
    v: Option<u8>,
    encoding_lower: Seq<char>,
    has_client_id: bool,
) -> Result<Encoding, UpgradeError> {
    if origin is Some && !debug && !is_allowed_origin(origin->0) {
        Err(UpgradeError::Forbidden)
    } else if v is Some && v->0 != 1 {
        Err(UpgradeError::BadRequest)
    } else if encoding_lower != "json"@ && encoding_lower != "etf"@ {
        Err(UpgradeError::BadRequest)
    } else if !has_client_id {
        Err(UpgradeError::BadRequest)
    } else if encoding_lower == "etf"@ {
        Ok(Encoding::BinaryTerm)
    } else {
        Ok(Encoding::Json)
    }
}

/// What becomes of an upgrade request, given its `Origin` header, whether
/// debugging is on, and its query: what becomes of it with the encoding of
/// the query in lower case, `json` where the query names none.
pub open spec fn upgrade_spec(
    origin: Option<Seq<char>>,
    debug: bool,
    v: Option<u8>,
    encoding: Option<Seq<char>>,
    has_client_id: bool,
) -> Result<Encoding, UpgradeError> {
    upgrade_named_spec(origin, debug, v, wanted_encoding(encoding), has_client_id)
}

/// Decides on an upgrade request, given the encoding that it asks for in
/// lower case.
pub fn validate_upgrade_as(
    origin: Option<&str>,
    debug: bool,
    v: Option<u8>,
    encoding_lower: &str,
    has_client_id: bool,
) -> (r: Result<Encoding, UpgradeError>)
    ensures
        r == upgrade_named_spec(
            match origin {
                Some(o) => Some(o@),
                None => None,
            },
            debug,
            v,
            encoding_lower@,
            has_client_id,
        ),
{
    match origin {
        Some(o) => {
            if !debug && !(str_eq(o, "https://discord.com") || str_eq(o, "https://ptb.discord.com")
                || str_eq(o, "https://canary.discord.com")) {
                return Err(UpgradeError::Forbidden);
            }
        },
        None => {},
    }
    match v {
        Some(v) => {
            if v != 1 {
                return Err(UpgradeError::BadRequest);
            }
        },
        None => {},
    }
    let is_json = str_eq(encoding_lower, "json");
    let is_etf = str_eq(encoding_lower, "etf");
    if !is_json && !is_etf {
        return Err(UpgradeError::BadRequest);
    }
    if !has_client_id {
        return Err(UpgradeError::BadRequest);
    }
    if is_etf {
        Ok(Encoding::BinaryTerm)
    } else {
        Ok(Encoding::Json)
    }
}

/// Decides on an upgrade request.
pub fn validate_upgrade(origin: Option<&str>, debug: bool, query: &WsQuery) -> (r: Result<
    Encoding,
    UpgradeError,
>)
    ensures
        r == upgrade_spec(
            match origin {
                Some(o) => Some(o@),
                None => None,
            },
            debug,
            query.v,
            match query.encoding {
                Some(e) => Some(e@),
                None => None,
            },
            query.client_id is Some,
        ),
{
    let encoding = match &query.encoding {
        Some(e) => to_lower(e.as_str()),
        None => to_lower("json"),
    };
    validate_upgrade_as(origin, debug, query.v, encoding.as_str(), query.client_id.is_some())
}

/// A message from the peer.
#[derive(Debug)]
pub enum WsIncoming {
    Text(String),
    /// A binary message of `len` bytes, with the term that it decodes to
    /// where it does decode.
    Binary { len: usize, term: Option<EtfTerm> },
    Ping(Vec<u8>),
    Pong(Vec<u8>),
    Close,
}

/// A message to the peer.
#[derive(Debug, PartialEq, Eq)]
pub enum WsOutgoing {
    Text(String),
    Binary(Vec<u8>),
    Pong(Vec<u8>),
    Close,
}

/// What to do after a message.
#[derive(Debug)]
pub struct WsAction {
    /// The message to send, if any.
    pub send: Option<WsOutgoing>,
    /// Whether to end the connection afterwards.
    pub close: bool,
}

/// The mathematical value of a message from the peer.
pub ghost enum WsIncomingModel {
    Text(Seq<char>),
    Binary { len: nat, term: Option<TermModel> },
    Ping(Seq<u8>),
    Pong(Seq<u8>),
    Close,
}

impl View for WsIncoming {
    type V = WsIncomingModel;

    open spec fn view(&self) -> WsIncomingModel {
        match self {
            WsIncoming::Text(t) => WsIncomingModel::Text(t@),
            WsIncoming::Binary { len, term } => WsIncomingModel::Binary {
                len: *len as nat,
                term: match term {
                    Some(t) => Some(t@),
                    None => None,
                },
            },
            WsIncoming::Ping(p) => WsIncomingModel::Ping(p@),
            WsIncoming::Pong(p) => WsIncomingModel::Pong(p@),
            WsIncoming::Close => WsIncomingModel::Close,
        }
    }
}

/// What a message calls for.
pub ghost enum WsReaction {
    /// Send this frame in the encoding of the connection.
    Reply(JsonModel),
    /// Answer the ping with its own payload.
    Pong(Seq<u8>),
    /// Send a close frame and end the connection.
    Refuse,
    /// End the connection.
    End,
    /// Go on.
    Nothing,
}

/// What a message leads to.
pub ghost struct WsStep {
    pub reaction: WsReaction,
    /// The event that goes on the bus.
    pub event: Option<EventModel>,
}

/// The value that stands for a text that is no JSON.
pub open spec fn unreadable() -> JsonModel {
    JsonModel::Obj(Map::empty().insert("_parse"@, JsonModel::Str("error"@)))
}

/// The JSON value of a text message.
pub open spec fn text_value(text: Seq<char>) -> JsonModel {
    match json_parse(encode_utf8(text)) {
        Some(v) => v,
        None => unreadable(),
    }
}

/// What a message leads to on a connection with the given id and encoding at
/// the time `now_ms`.
///
/// A message of more than [`MAX_PAYLOAD`] bytes is refused. A text is read
/// as JSON and answered with the reply to its command. A binary message is
/// answered in the same way where the connection speaks the binary term
/// format and the message decodes, and passed over otherwise. A ping is
/// answered with a pong, and a close ends the connection.
pub open spec fn ws_step(
    socket_id: Seq<char>,
    encoding: Encoding,
    msg: WsIncomingModel,
    now_ms: u64,
) -> WsStep {
    match msg {
        WsIncomingModel::Text(text) => if encode_utf8(text).len() > MAX_PAYLOAD {
            WsStep { reaction: WsReaction::Refuse, event: None }
        } else {
            WsStep {
                reaction: WsReaction::Reply(dispatch_spec(text_value(text), now_ms).reply),
                event: outcome_event(dispatch_spec(text_value(text), now_ms), socket_id),
            }
        },
        WsIncomingModel::Binary { len, term } => if len > MAX_PAYLOAD {
            WsStep { reaction: WsReaction::Refuse, event: None }
        } else if encoding == Encoding::BinaryTerm && term is Some {
            WsStep {
                reaction: WsReaction::Reply(dispatch_spec(json_of(term->0), now_ms).reply),
                event: outcome_event(dispatch_spec(json_of(term->0), now_ms), socket_id),
            }
        } else {
            WsStep { reaction: WsReaction::Nothing, event: None }
        },
        WsIncomingModel::Ping(p) => WsStep { reaction: WsReaction::Pong(p), event: None },
        WsIncomingModel::Pong(_) => WsStep { reaction: WsReaction::Nothing, event: None },
        WsIncomingModel::Close => WsStep { reaction: WsReaction::End, event: None },
    }
}

/// The message carries the frame in the given encoding: as JSON text, or as
/// an encoded term, which starts with the version tag and has, in the order
/// that the codec chose for the entries of maps, the bytes that the codec
/// writes for the term of the frame. Where a term is asked for and cannot be
/// encoded, JSON text takes its place.
pub open spec fn carries(out: WsOutgoing, encoding: Encoding, frame: JsonModel) -> bool {
    match out {
        WsOutgoing::Text(t) => t@ == json_text(frame),
        WsOutgoing::Binary(b) => encoding == Encoding::BinaryTerm && b@.len() >= 1 && b@[0]
            == VERSION_TAG && b@.to_multiset() == term_bag(json_content(frame)),
        _ => false,
    }
}

/// The action does what the reaction calls for.
pub open spec fn enacts(action: WsAction, encoding: Encoding, reaction: WsReaction) -> bool {
    match reaction {
        WsReaction::Reply(frame) => !action.close && action.send is Some && carries(
            action.send->0,
            encoding,
            frame,
        ) && (encoding == Encoding::Json ==> action.send->0 is Text),
        WsReaction::Pong(p) => !action.close && (action.send matches Some(WsOutgoing::Pong(q))
            && q@ == p),
        WsReaction::Refuse => action.close && action.send == Some(WsOutgoing::Close),
        WsReaction::End => action.close && action.send is None,
        WsReaction::Nothing => !action.close && action.send is None,
    }
}

/// The message for a frame on a connection that speaks terms, given what
/// encoding the frame came to: the encoded term where there is one, and the
/// frame as JSON text where the codec refused.
pub fn term_message(frame: &Json, encoded: Result<Vec<u8>, EtfEncodeError>) -> (r: WsOutgoing)
    ensures
        match encoded {
            Ok(bytes) => r == WsOutgoing::Binary(bytes),
            Err(_) => r matches WsOutgoing::Text(t) && t@ == json_text(frame@),
        },
{
    match encoded {
        Ok(bytes) => WsOutgoing::Binary(bytes),
        Err(_) => WsOutgoing::Text(frame.to_text()),
    }
}

/// Writes a frame in the given encoding.
pub fn send_json_or_etf(frame: &Json, encoding: Encoding) -> (r: WsOutgoing)
    ensures
        carries(r, encoding, frame@),
        encoding == Encoding::Json ==> r is Text,
{
    match encoding {
        Encoding::BinaryTerm => term_message(frame, encode_value_etf(frame)),
        Encoding::Json => WsOutgoing::Text(frame.to_text()),
    }
}

/// The value that stands for a text that is no JSON.
fn unreadable_value() -> (r: Json)
    ensures
        r@ == unreadable(),
{
    let mut out: Vec<(String, Json)> = Vec::new();
    proof {
        lemma_entries_empty();
    }
    entries_insert(&mut out, "_parse", Json::string("error"));
    Json::Object(out)
}

impl Connection {
    /// Greets a connection of this transport, which needs no handshake of
    /// its own: gives the greeting in the encoding of the connection.
    pub fn ws_greeting(&mut self) -> (r: WsOutgoing)
        ensures
            carries(r, old(self).encoding, ready_frame_json()),
            old(self).encoding == Encoding::Json ==> r is Text,
            final(self).handshook,
            final(self).socket_id == old(self).socket_id,
            final(self).transport == old(self).transport,
            final(self).encoding == old(self).encoding,
    {
        self.handshook = true;
        send_json_or_etf(&ready_frame().to_json(), self.encoding)
    }

    /// Handles one message at the time `now_ms`.
    pub fn on_ws_message_at(&mut self, msg: &WsIncoming, bus: &mut EventBus, now_ms: u64) -> (r:
        WsAction)
        ensures
            *final(self) == *old(self),
            enacts(
                r,
                old(self).encoding,
                ws_step(old(self).socket_id@, old(self).encoding, msg@, now_ms).reaction,
            ),
            final(bus).queues() == published_opt(
                old(bus).queues(),
                ws_step(old(self).socket_id@, old(self).encoding, msg@, now_ms).event,
            ),
            final(bus).counters() == counted_opt(
                old(bus).counters(),
                ws_step(old(self).socket_id@, old(self).encoding, msg@, now_ms).event,
            ),
    {
        match msg {
            WsIncoming::Text(text) => {
                if text.as_str().as_bytes().len() > MAX_PAYLOAD {
                    return WsAction { send: Some(WsOutgoing::Close), close: true };
                }
                let val = match Json::parse_text(text.as_str()) {
                    Ok(v) => v,
                    Err(_) => unreadable_value(),
                };
                let reply = handle_incoming_value_at(&val, bus, self.socket_id.as_str(), now_ms);
                WsAction { send: Some(send_json_or_etf(&reply, self.encoding)), close: false }
            },
            WsIncoming::Binary { len, term } => {
                if *len > MAX_PAYLOAD {
                    return WsAction { send: Some(WsOutgoing::Close), close: true };
                }
                match term {
                    Some(t) => {
                        if self.encoding == Encoding::BinaryTerm {
                            let val = term_to_json(t);
                            let reply = handle_incoming_value_at(
                                &val,
                                bus,
                                self.socket_id.as_str(),
                                now_ms,
                            );
                            WsAction {
                                send: Some(send_json_or_etf(&reply, self.encoding)),
                                close: false,
                            }
                        } else {
                            WsAction { send: None, close: false }
                        }
                    },
                    None => WsAction { send: None, close: false },
                }
            },
            WsIncoming::Ping(p) => {
                let mut payload: Vec<u8> = Vec::new();
                let mut i: usize = 0;
                while i < p.len()
                    invariant
                        i <= p.len(),
                        payload@ == p@.take(i as int),
                    decreases p.len() - i,
                {
                    payload.push(p[i]);
                    assert(p@.take(i as int).push(p@[i as int]) =~= p@.take(i + 1));
                    i += 1;
                }
                assert(p@.take(p.len() as int) =~= p@);
                WsAction { send: Some(WsOutgoing::Pong(payload)), close: false }
            },
            WsIncoming::Pong(_) => WsAction { send: None, close: false },
            WsIncoming::Close => WsAction { send: None, close: true },
        }
    }

    /// Handles one message at the current time.
    pub fn on_ws_message(&mut self, msg: &WsIncoming, bus: &mut EventBus) -> (r: WsAction)
        ensures
            *final(self) == *old(self),
            exists|now_ms: u64|
                ws_step_taken(
                    #[trigger] ws_step(old(self).socket_id@, old(self).encoding, msg@, now_ms),
                    r,
                    old(self).encoding,
                    old(bus).queues(),
                    old(bus).counters(),
                    final(bus).queues(),
                    final(bus).counters(),
                ),
    {
        let now_ms = crate::activity::current_millis();
        let r = self.on_ws_message_at(msg, bus, now_ms);
        assert(ws_step_taken(
            ws_step(old(self).socket_id@, old(self).encoding, msg@, now_ms),
            r,
            old(self).encoding,
            old(bus).queues(),
            old(bus).counters(),
            bus.queues(),
            bus.counters(),
        ));
        r
    }
}

/// A step was taken: the action does what the step calls for, and the bus
/// has the step's event behind what it had.
pub open spec fn ws_step_taken(
    step: WsStep,
    action: WsAction,
    encoding: Encoding,
    queues_before: Seq<Option<Seq<EventModel>>>,
    counters_before: crate::metrics::Metrics,
    queues_after: Seq<Option<Seq<EventModel>>>,
    counters_after: crate::metrics::Metrics,
) -> bool {
    &&& enacts(action, encoding, step.reaction)
    &&& queues_after == published_opt(queues_before, step.event)
    &&& counters_after == counted_opt(counters_before, step.event)
}


/// The events that a connection puts on the bus while it handles the given
/// messages, each with the time at which it is handled, one after another.
/// A message that ends the connection is the last one handled.
pub open spec fn ws_run(
    socket_id: Seq<char>,
    encoding: Encoding,
    msgs: Seq<(WsIncomingModel, u64)>,
) -> Seq<EventModel>
    decreases msgs.len(),
{
    if msgs.len() == 0 {
        Seq::empty()
    } else {
        let step = ws_step(socket_id, encoding, msgs[0].0, msgs[0].1);
        let first = match step.event {
            Some(e) => seq![e],
            None => Seq::empty(),
        };
        if step.reaction is Refuse || step.reaction is End {
            first
        } else {
            first + ws_run(socket_id, encoding, msgs.drop_first())
        }
    }
}

/// Everything that a connection puts on the bus from its first message to
/// its end: what its messages lead to, then the clear that ends it.
pub open spec fn ws_session(
    socket_id: Seq<char>,
    encoding: Encoding,
    msgs: Seq<(WsIncomingModel, u64)>,
) -> Seq<EventModel> {
    ws_run(socket_id, encoding, msgs).push(EventModel::Clear { socket_id })
}

/// While it lives, a connection publishes nothing but updates of its own activity.
pub proof fn lemma_ws_run_publishes_own_updates(
    socket_id: Seq<char>,
    encoding: Encoding,
    msgs: Seq<(WsIncomingModel, u64)>,
)
    ensures
        forall|i: int|
            0 <= i < ws_run(socket_id, encoding, msgs).len() ==> (#[trigger] ws_run(
                socket_id,
                encoding,
                msgs,
            )[i]) is ActivityUpdate && ws_run(socket_id, encoding, msgs)[i]->ActivityUpdate_socket_id
                == socket_id,
    decreases msgs.len(),
{
    if msgs.len() > 0 {
        lemma_ws_run_publishes_own_updates(socket_id, encoding, msgs.drop_first());
    }
}

/// Whatever a connection was sent, the bus gets exactly one clear for it, and
/// gets it last: everything before is an update of the connection's own
/// activity.
pub proof fn lemma_ws_session_ends_with_one_clear(
    socket_id: Seq<char>,
    encoding: Encoding,
    msgs: Seq<(WsIncomingModel, u64)>,
)
    ensures
        ws_session(socket_id, encoding, msgs).len() >= 1,
        ws_session(socket_id, encoding, msgs).last() == (EventModel::Clear { socket_id }),
        forall|i: int|
            0 <= i < ws_session(socket_id, encoding, msgs).len() - 1 ==> (#[trigger] ws_session(
                socket_id,
                encoding,
                msgs,
            )[i]) is ActivityUpdate && ws_session(
                socket_id,
                encoding,
                msgs,
            )[i]->ActivityUpdate_socket_id == socket_id,
{
    lemma_ws_run_publishes_own_updates(socket_id, encoding, msgs);
    let run = ws_run(socket_id, encoding, msgs);
    assert forall|i: int| 0 <= i < ws_session(socket_id, encoding, msgs).len() - 1 implies (
    #[trigger] ws_session(socket_id, encoding, msgs)[i]) is ActivityUpdate && ws_session(
        socket_id,
        encoding,
        msgs,
    )[i]->ActivityUpdate_socket_id == socket_id by {
        assert(ws_session(socket_id, encoding, msgs)[i] == run[i]);
    }
}

} // verus!
