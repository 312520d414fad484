//! The observer endpoint: replay of the live activities to a newcomer, then
//! every change as it happens.

use crate::activity_registry::{
    applied, lemma_distinct_len, without_nulls, ActivityRegistry,
};
use crate::event::{EventKind, EventModel};
use crate::json::{
    distinct_keys, entries_insert, entries_model, json_text, lemma_entries_empty, Json, JsonModel,
};
use vstd::prelude::*;

verus! {

/// The port that observers connect to where none is configured.
pub const DEFAULT_BRIDGE_PORT: u16 = 1337;

/// The observer endpoint as it was started.
#[derive(Debug, Clone, Copy, PartialEq, Eq, Structural)]
pub struct Bridge {
    port: u16,
}

impl Bridge {
    /// The endpoint on the given port, or on the default port.
    pub fn new(port: Option<u16>) -> (r: Bridge)
        ensures
            r.port_spec() == match port {
                Some(p) => p,
                None => DEFAULT_BRIDGE_PORT,
            },
    {
        Bridge {
            port: match port {
                Some(p) => p,
                None => DEFAULT_BRIDGE_PORT,
            },
        }
    }

    /// The port of the endpoint.
    pub closed spec fn port_spec(&self) -> u16 {
        self.port
    }

    /// The port of the endpoint.
    pub fn port(&self) -> (r: u16)
        ensures
            r == self.port_spec(),
    {
        self.port
    }
}

/// What an observer is told about one connection: its id and its activity,
/// or null for a connection without one.
pub open spec fn observer_message(socket_id: Seq<char>, activity: JsonModel) -> JsonModel {
    JsonModel::Obj(
        Map::empty().insert("socketId"@, JsonModel::Str(socket_id)).insert("activity"@, activity),
    )
}

/// What observers are told about an event; nothing for an event that is
/// neither an update nor a clear.
pub open spec fn event_message(evt: EventModel) -> Option<JsonModel> {
    match evt {
        EventModel::ActivityUpdate { socket_id, payload } => Some(
            observer_message(socket_id, payload),
        ),
        EventModel::Clear { socket_id } => Some(observer_message(socket_id, JsonModel::Null)),
        EventModel::PrivacyRefresh => None,
    }
}

/// The messages that replay the given entries, one for each, in their order.
pub open spec fn replay_of(entries: Seq<(String, Json)>) -> Seq<Seq<char>> {
    Seq::new(
        entries.len(),
        |i: int| json_text(observer_message(entries[i].0@, entries[i].1@)),
    )
}

/// The messages are a replay of the live activities: one message for each
/// connection with an activity, in some order, and no other.
pub open spec fn is_replay_of(msgs: Seq<Seq<char>>, live: Map<Seq<char>, JsonModel>) -> bool {
    exists|entries: Seq<(String, Json)>|
        distinct_keys(entries) && entries_model(entries) == live && msgs == #[trigger] replay_of(
            entries,
        )
}

/// The texts of a list of messages.
pub open spec fn texts(msgs: Seq<String>) -> Seq<Seq<char>> {
    Seq::new(msgs.len(), |i: int| msgs[i]@)
}

/// The outbox of each observer: the texts that wait to be sent, oldest
/// first, or nothing for an observer that is gone.
pub open spec fn outboxes_model(boxes: Seq<Option<Vec<String>>>) -> Seq<Option<Seq<Seq<char>>>> {
    Seq::new(
        boxes.len(),
        |i: int|
            match boxes[i] {
                Some(b) => Some(texts(b@)),
                None => None,
            },
    )
}

/// Each outbox that is still there with the text at its end.
pub open spec fn broadcast_to(boxes: Seq<Option<Seq<Seq<char>>>>, text: Option<Seq<char>>) -> Seq<
    Option<Seq<Seq<char>>>,
> {
    match text {
        Some(t) => Seq::new(
            boxes.len(),
            |i: int|
                match boxes[i] {
                    Some(b) => Some(b.push(t)),
                    None => None,
                },
        ),
        None => boxes,
    }
}

/// The message for one connection.
pub fn message_for(socket_id: &str, activity: Json) -> (r: Json)
    ensures
        r@ == observer_message(socket_id@, activity@),
{
    let mut out: Vec<(String, Json)> = Vec::new();
    proof {
        lemma_entries_empty();
    }
    entries_insert(&mut out, "socketId", Json::string(socket_id));
    entries_insert(&mut out, "activity", activity);
    Json::Object(out)
}

/// The message that tells observers of an event.
pub fn message_for_event(evt: &EventKind) -> (r: Option<Json>)
    ensures
        match r {
            Some(m) => event_message(evt@) == Some(m@),
            None => event_message(evt@) is None,
        },
{
    match evt {
        EventKind::ActivityUpdate { socket_id, payload } => Some(
            message_for(socket_id.as_str(), payload.deep_clone()),
        ),
        EventKind::Clear { socket_id } => Some(message_for(socket_id.as_str(), Json::Null)),
        EventKind::PrivacyRefresh => None,
    }
}

/// The messages that replay the given entries.
pub fn replay_messages(entries: &Vec<(String, Json)>) -> (r: Vec<String>)
    ensures
        texts(r@) == replay_of(entries@),
{
    let mut out: Vec<String> = Vec::new();
    let mut i: usize = 0;
    while i < entries.len()
        invariant
            i <= entries.len(),
            out@.len() == i,
            forall|j: int|
                0 <= j < i ==> (#[trigger] out@[j])@ == json_text(
                    observer_message(entries@[j].0@, entries@[j].1@),
                ),
        decreases entries.len() - i,
    {
        let msg = message_for(entries[i].0.as_str(), entries[i].1.deep_clone());
        out.push(msg.to_text());
        i += 1;
    }
    assert(texts(out@) =~= replay_of(entries@));
    out
}

/// The right to take from one outbox.
#[derive(Debug, Clone, Copy, PartialEq, Eq, Structural)]
pub struct ObserverId {
    pub index: usize,
}

/// What the observer endpoint knows: the activity of every connection it
/// has heard of, and what waits for each observer.
#[derive(Debug)]
pub struct BridgeState {
    activities: ActivityRegistry,
    outboxes: Vec<Option<Vec<String>>>,
}

impl BridgeState {
    /// The activity of each connection, null for a cleared one.
    pub closed spec fn activities(&self) -> Map<Seq<char>, JsonModel> {
        self.activities@
    }

    /// What waits for each observer.
    pub closed spec fn outboxes(&self) -> Seq<Option<Seq<Seq<char>>>> {
        outboxes_model(self.outboxes@)
    }

    /// An endpoint that has heard of nothing and has no observer.
    pub fn new() -> (r: BridgeState)
        ensures
            r.activities() == Map::<Seq<char>, JsonModel>::empty(),
            r.outboxes() == Seq::<Option<Seq<Seq<char>>>>::empty(),
    {
        let r = BridgeState { activities: ActivityRegistry::new(), outboxes: Vec::new() };
        assert(r.outboxes() =~= Seq::<Option<Seq<Seq<char>>>>::empty());
        r
    }

    /// Registers an observer with an empty outbox, and gives the messages to
    /// send to it first: a replay of the live activities.
    pub fn connect(&mut self) -> (r: (ObserverId, Vec<String>))
        ensures
            final(self).activities() == old(self).activities(),
            final(self).outboxes() == old(self).outboxes().push(Some(Seq::empty())),
            r.0.index == old(self).outboxes().len(),
            is_replay_of(texts(r.1@), without_nulls(old(self).activities())),
            texts(r.1@).len() == without_nulls(old(self).activities()).dom().len(),
    {
        let index = self.outboxes.len();
        self.outboxes.push(Some(Vec::new()));
        assert(self.outboxes() =~= old(self).outboxes().push(Some(Seq::empty()))) by {
            assert forall|i: int| 0 <= i < self.outboxes@.len() implies #[trigger] self.outboxes()[i]
                == old(self).outboxes().push(Some(Seq::empty()))[i] by {
                if i < old(self).outboxes@.len() {
                    assert(self.outboxes@[i] == old(self).outboxes@[i]);
                } else {
                    assert(texts(self.outboxes@[i]->0@) =~= Seq::empty());
                }
            }
        }
        let live = self.activities.non_null();
        let replay = replay_messages(&live);
        proof {
            lemma_distinct_len(live@);
            assert(texts(replay@) == replay_of(live@));
        }
        (ObserverId { index }, replay)
    }

    /// Takes note of an event and puts the message about it into the outbox
    /// of every observer.
    pub fn on_event(&mut self, evt: &EventKind)
        ensures
            final(self).activities() == applied(old(self).activities(), evt@),
            final(self).outboxes() == broadcast_to(
                old(self).outboxes(),
                match event_message(evt@) {
                    Some(m) => Some(json_text(m)),
                    None => None,
                },
            ),
    {
        self.activities.apply(evt);
        match message_for_event(evt) {
            Some(msg) => {
                let text = msg.to_text();
                let n = self.outboxes.len();
                let mut i: usize = 0;
                while i < n
                    invariant
                        i <= n,
                        n == self.outboxes@.len(),
                        n == old(self).outboxes@.len(),
                        self.activities@ == applied(old(self).activities@, evt@),
                        forall|k: int|
                            0 <= k < i ==> #[trigger] outboxes_model(self.outboxes@)[k]
                                == broadcast_to(old(self).outboxes(), Some(text@))[k],
                        forall|k: int|
                            i <= k < n ==> #[trigger] self.outboxes@[k] == old(self).outboxes@[k],
                    decreases n - i,
                {
                    let ghost before = self.outboxes@;
                    match &mut self.outboxes[i] {
                        Some(b) => {
                            b.push(text.clone());
                        },
                        None => {},
                    }
                    proof {
                        match before[i as int] {
                            Some(b) => {
                                assert(texts(self.outboxes@[i as int]->0@) =~= texts(b@).push(
                                    text@,
                                ));
                            },
                            None => {},
                        }
                        assert forall|k: int| 0 <= k < i implies #[trigger] outboxes_model(
                            self.outboxes@,
                        )[k] == broadcast_to(old(self).outboxes(), Some(text@))[k] by {
                            assert(self.outboxes@[k] == before[k]);
                            assert(outboxes_model(before)[k] == broadcast_to(
                                old(self).outboxes(),
                                Some(text@),
                            )[k]);
                        }
                    }
                    i += 1;
                }
                assert(self.outboxes() =~= broadcast_to(old(self).outboxes(), Some(text@)));
            },
            None => {},
        }
    }

    /// Takes everything that waits for the observer, oldest first. Gives
    /// nothing for an observer that is gone or was never there.
    pub fn take_outbox(&mut self, id: &ObserverId) -> (r: Vec<String>)
        ensures
            final(self).activities() == old(self).activities(),
            id.index < old(self).outboxes().len() && old(self).outboxes()[id.index as int] is Some
                ==> texts(r@) == old(self).outboxes()[id.index as int]->0 && final(self).outboxes()
                == old(self).outboxes().update(id.index as int, Some(Seq::empty())),
            !(id.index < old(self).outboxes().len() && old(self).outboxes()[id.index as int]
                is Some) ==> r@.len() == 0 && final(self).outboxes() == old(self).outboxes(),
    {
        if id.index >= self.outboxes.len() {
            return Vec::new();
        }
        let ghost before = self.outboxes@;
        let mut taken: Option<Vec<String>> = Some(Vec::new());
        match &self.outboxes[id.index] {
            Some(_) => {},
            None => {
                return Vec::new();
            },
        }
        std::mem::swap(&mut self.outboxes[id.index], &mut taken);
        assert(self.outboxes() =~= old(self).outboxes().update(
            id.index as int,
            Some(Seq::empty()),
        )) by {
            assert(texts(self.outboxes@[id.index as int]->0@) =~= Seq::empty());
            assert forall|k: int| 0 <= k < self.outboxes@.len() && k != id.index implies #[trigger] self.outboxes()[k]
                == old(self).outboxes()[k] by {
                assert(self.outboxes@[k] == before[k]);
            }
        }
        match taken {
            Some(b) => b,
            None => Vec::new(),
        }
    }

    /// Forgets an observer: nothing is kept for it any more.
    pub fn disconnect(&mut self, id: &ObserverId)
        ensures
            final(self).activities() == old(self).activities(),
            final(self).outboxes() == (if id.index < old(self).outboxes().len() {
                old(self).outboxes().update(id.index as int, None)
            } else {
                old(self).outboxes()
            }),
    {
        if id.index < self.outboxes.len() {
            let ghost before = self.outboxes@;
            self.outboxes.set(id.index, None);
            assert(self.outboxes() =~= old(self).outboxes().update(id.index as int, None)) by {
                assert forall|k: int|
                    0 <= k < self.outboxes@.len() && k != id.index implies #[trigger] self.outboxes()[k]
                    == old(self).outboxes()[k] by {
                    assert(self.outboxes@[k] == before[k]);
                }
            }
        }
    }
}

/// One of the messages is the one for the connection `socket_id` with the given activity.
pub open spec fn told_of(msgs: Seq<Seq<char>>, socket_id: Seq<char>, activity: JsonModel) -> bool {
    exists|i: int|
        0 <= i < msgs.len() && #[trigger] msgs[i] == json_text(
            observer_message(socket_id, activity),
        )
}

/// The message is the one for some connection with a live activity.
pub open spec fn tells_of_live(msg: Seq<char>, live: Map<Seq<char>, JsonModel>) -> bool {
    exists|k: Seq<char>|
        #[trigger] live.contains_key(k) && msg == json_text(observer_message(k, live[k]))
}

/// A newcomer is told of every live activity, and of nothing else, before
/// anything else: its replay has as many messages as there are connections
/// whose activity is not null, there is a message for each of them, and each
/// message is the one for such a connection.
pub proof fn lemma_replay_covers(msgs: Seq<Seq<char>>, live: Map<Seq<char>, JsonModel>)
    requires
        is_replay_of(msgs, live),
    ensures
        live.dom().finite(),
        msgs.len() == live.dom().len(),
        forall|k: Seq<char>| #[trigger] live.contains_key(k) ==> told_of(msgs, k, live[k]),
        forall|i: int| 0 <= i < msgs.len() ==> tells_of_live(#[trigger] msgs[i], live),
{
    let entries = choose|entries: Seq<(String, Json)>|
        distinct_keys(entries) && entries_model(entries) == live && msgs == #[trigger] replay_of(
            entries,
        );
    lemma_distinct_len(entries);
    assert forall|k: Seq<char>| #[trigger] live.contains_key(k) implies told_of(
        msgs,
        k,
        live[k],
    ) by {
        crate::json::lemma_last_index_of(entries, k);
        let i = crate::json::last_index_of(entries, k);
        assert(msgs[i] == json_text(observer_message(k, live[k])));
    }
    assert forall|i: int| 0 <= i < msgs.len() implies tells_of_live(#[trigger] msgs[i], live) by {
        crate::json::lemma_distinct_index(entries, i);
        let k = entries[i].0@;
        assert(live.contains_key(k) && msgs[i] == json_text(observer_message(k, live[k])));
    }
}

} // verus!
