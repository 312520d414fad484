//! The rules of the administrative surface: which activities may be
//! published, and under which id.

use crate::activity::{activity_json, normalize_spec, Activity};
use crate::event::{counted_opt, published_opt, EventBus, EventKind, EventModel};
use crate::json::{entries_insert, items_model, lemma_entries_empty, Json, JsonModel};
use crate::text::{is_substring, str_contains, to_lower, unicode_lower};
use vstd::prelude::*;
use vstd::string::*;

verus! {

/// The privacy filter: names that are never published, and, where it is
/// set, the only names that are.
#[derive(Debug, Default)]
pub struct RestState {
    pub allow: Option<Vec<String>>,
    pub deny: Option<Vec<String>>,
}

/// One of the patterns occurs in the name, both taken in lower case.
pub open spec fn mentions_any(name: Seq<char>, patterns: Seq<String>) -> bool {
    exists|i: int|
        0 <= i < patterns.len() && is_substring(
            unicode_lower((#[trigger] patterns[i])@),
            unicode_lower(name),
        )
}

/// Whether an activity with the given name may be published: not if a
/// denied pattern occurs in the name; and, where allowed patterns are set,
/// only if one of them occurs in it.
pub open spec fn allowed_spec(allow: Option<Seq<String>>, deny: Option<Seq<String>>, name: Seq<char>) -> bool {
    if deny is Some && mentions_any(name, deny->0) {
        false
    } else if allow is Some {
        mentions_any(name, allow->0)
    } else {
        true
    }
}

/// Whether one of the patterns occurs in the name, which is in lower case already.
fn mentions(name_lower: &str, patterns: &Vec<String>) -> (r: bool)
    ensures
        r == (exists|i: int|
            0 <= i < patterns@.len() && is_substring(
                unicode_lower((#[trigger] patterns@[i])@),
                name_lower@,
            )),
{
    let mut i: usize = 0;
    while i < patterns.len()
        invariant
            i <= patterns.len(),
            forall|j: int|
                0 <= j < i ==> !is_substring(
                    unicode_lower((#[trigger] patterns@[j])@),
                    name_lower@,
                ),
        decreases patterns.len() - i,
    {
        let p = to_lower(patterns[i].as_str());
        if str_contains(name_lower, p.as_str()) {
            return true;
        }
        i += 1;
    }
    false
}

impl RestState {
    /// A filter that lets everything pass.
    pub fn new() -> (r: RestState)
        ensures
            r.allow is None,
            r.deny is None,
    {
        RestState { allow: None, deny: None }
    }

    /// Sets the patterns that are given, and keeps the others.
    pub fn set_privacy(&mut self, allow: Option<Vec<String>>, deny: Option<Vec<String>>)
        ensures
            final(self).allow == (if allow is Some {
                allow
            } else {
                old(self).allow
            }),
            final(self).deny == (if deny is Some {
                deny
            } else {
                old(self).deny
            }),
    {
        match allow {
            Some(a) => {
                self.allow = Some(a);
            },
            None => {},
        }
        match deny {
            Some(d) => {
                self.deny = Some(d);
            },
            None => {},
        }
    }

    /// Whether an activity with the given name may be published.
    pub fn allowed(&self, name: &str) -> (r: bool)
        ensures
            r == allowed_spec(
                match self.allow {
                    Some(a) => Some(a@),
                    None => None,
                },
                match self.deny {
                    Some(d) => Some(d@),
                    None => None,
                },
                name@,
            ),
    {
        let name_lower = to_lower(name);
        match &self.deny {
            Some(deny) => {
                if mentions(name_lower.as_str(), deny) {
                    return false;
                }
            },
            None => {},
        }
        match &self.allow {
            Some(allow) => mentions(name_lower.as_str(), allow),
            None => true,
        }
    }
}


/// The id of an activity that was submitted without one: `rest-` and a
/// fresh token.
pub open spec fn rest_socket_id_spec(token: Seq<char>) -> Seq<char> {
    "rest-"@ + token
}

/// The id of an activity that was submitted without one.
pub fn rest_socket_id(token: &str) -> (r: String)
    ensures
        r@ == rest_socket_id_spec(token@),
{
    let mut r = "rest-".to_owned();
    r.append(token);
    r
}

/// The event that a submitted activity leads to at the time `now_ms`: an
/// update with its canonical form where the filter lets its name pass, and
/// nothing where it does not.
pub open spec fn submitted_event(
    state: RestState,
    socket_id: Seq<char>,
    activity: crate::activity::ActivityModel,
    now_ms: u64,
) -> Option<EventModel> {
    if allowed_spec(
        match state.allow {
            Some(a) => Some(a@),
            None => None,
        },
        match state.deny {
            Some(d) => Some(d@),
            None => None,
        },
        normalize_spec(activity, now_ms).name,
    ) {
        Some(
            EventModel::ActivityUpdate {
                socket_id,
                payload: activity_json(normalize_spec(activity, now_ms)),
            },
        )
    } else {
        None
    }
}

/// What the list of live activities is reported as: under `activities`, a
/// pair of id and activity for each entry, in their order.
pub open spec fn activities_reply_spec(live: Seq<(String, Json)>) -> JsonModel {
    JsonModel::Obj(
        Map::empty().insert(
            "activities"@,
            JsonModel::Arr(
                Seq::new(
                    live.len(),
                    |i: int| JsonModel::Arr(seq![JsonModel::Str(live[i].0@), live[i].1@]),
                ),
            ),
        ),
    )
}

/// Reports the list of live activities.
pub fn activities_reply(live: &Vec<(String, Json)>) -> (r: Json)
    ensures
        r@ == activities_reply_spec(live@),
{
    let mut items: Vec<Json> = Vec::new();
    let mut i: usize = 0;
    while i < live.len()
        invariant
            i <= live.len(),
            items@.len() == i,
            forall|j: int|
                0 <= j < i ==> (#[trigger] items@[j])@ == JsonModel::Arr(
                    seq![JsonModel::Str(live@[j].0@), live@[j].1@],
                ),
        decreases live.len() - i,
    {
        let mut pair: Vec<Json> = Vec::new();
        pair.push(Json::string(live[i].0.as_str()));
        pair.push(live[i].1.deep_clone());
        assert(items_model(pair@) =~= seq![JsonModel::Str(live@[i as int].0@), live@[i as int].1@]);
        items.push(Json::Array(pair));
        i += 1;
    }
    assert(items_model(items@) =~= activities_reply_spec(live@)->Obj_0["activities"@]->Arr_0);
    let mut out: Vec<(String, Json)> = Vec::new();
    proof {
        lemma_entries_empty();
    }
    entries_insert(&mut out, "activities", Json::Array(items));
    Json::Object(out)
}

impl RestState {
    /// Takes a submitted activity at the time `now_ms`: brings it into
    /// canonical form and publishes it under the given id if the filter lets
    /// its name pass. Tells whether it was published.
    pub fn submit_at(&self, socket_id: &str, activity: Activity, bus: &mut EventBus, now_ms: u64) -> (r:
        bool)
        ensures
            r == submitted_event(*self, socket_id@, activity@, now_ms) is Some,
            final(bus).queues() == published_opt(
                old(bus).queues(),
                submitted_event(*self, socket_id@, activity@, now_ms),
            ),
            final(bus).counters() == counted_opt(
                old(bus).counters(),
                submitted_event(*self, socket_id@, activity@, now_ms),
            ),
    {
        let norm = activity.normalize_at(now_ms);
        if self.allowed(norm.name.as_str()) {
            bus.publish(
                EventKind::ActivityUpdate { socket_id: socket_id.to_owned(), payload: norm.to_json() },
            );
            true
        } else {
            false
        }
    }

    /// Takes a submitted activity at the current time.
    pub fn submit(&self, socket_id: &str, activity: Activity, bus: &mut EventBus) -> (r: bool)
        ensures
            exists|now_ms: u64|
                submission_done(
                    #[trigger] submitted_event(*self, socket_id@, activity@, now_ms),
                    r,
                    old(bus).queues(),
                    old(bus).counters(),
                    final(bus).queues(),
                    final(bus).counters(),
                ),
    {
        let now_ms = crate::activity::current_millis();
        let r = self.submit_at(socket_id, activity, bus, now_ms);
        assert(submission_done(
            submitted_event(*self, socket_id@, activity@, now_ms),
            r,
            old(bus).queues(),
            old(bus).counters(),
            bus.queues(),
            bus.counters(),
        ));
        r
    }
}

/// A submission was handled: it was published or not as the event says, and
/// the bus has the event behind what it had.
pub open spec fn submission_done(
    event: Option<EventModel>,
    published: bool,
    queues_before: Seq<Option<Seq<EventModel>>>,
    counters_before: crate::metrics::Metrics,
    queues_after: Seq<Option<Seq<EventModel>>>,
    counters_after: crate::metrics::Metrics,
) -> bool {
    &&& published == event is Some
    &&& queues_after == published_opt(queues_before, event)
    &&& counters_after == counted_opt(counters_before, event)
}

} // verus!
