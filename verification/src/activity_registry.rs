//! The authoritative map from connection to activity.
//!
//! The map is kept as a list of entries with distinct keys: a snapshot has
//! to walk it, and a list can be walked in verified code.

use crate::event::{events_model, EventKind, EventModel};
use crate::json::{
    distinct_keys, entries_model, entries_set, json_model, lemma_distinct_index,
    lemma_entries_empty, lemma_entries_push, lemma_last_index_of, last_index_of, Json, JsonModel,
};
use vstd::prelude::*;

verus! {

/// For each socket id the activity last set for it, or null once it was cleared.
///
/// A cleared id stays in the map, so that an observer can tell a cleared
/// connection from one that was never seen.
#[derive(Debug)]
pub struct ActivityRegistry {
    entries: Vec<(String, Json)>,
}

/// The part of a map whose values are not null.
pub open spec fn without_nulls(m: Map<Seq<char>, JsonModel>) -> Map<Seq<char>, JsonModel> {
    m.restrict(Set::new(|k: Seq<char>| m.contains_key(k) && !(m[k] is Null)))
}

/// The registry after an event: an update sets the activity of its socket, a
/// clear sets null for its socket, anything else changes nothing.
pub open spec fn applied(m: Map<Seq<char>, JsonModel>, evt: EventModel) -> Map<
    Seq<char>,
    JsonModel,
> {
    match evt {
        EventModel::ActivityUpdate { socket_id, payload } => m.insert(socket_id, payload),
        EventModel::Clear { socket_id } => m.insert(socket_id, JsonModel::Null),
        EventModel::PrivacyRefresh => m,
    }
}

impl ActivityRegistry {
    #[verifier::type_invariant]
    spec fn keys_are_distinct(self) -> bool {
        distinct_keys(self.entries@)
    }

    /// The map that the registry holds.
    pub closed spec fn view(&self) -> Map<Seq<char>, JsonModel> {
        entries_model(self.entries@)
    }

    /// The empty registry.
    pub fn new() -> (r: ActivityRegistry)
        ensures
            r@ == Map::<Seq<char>, JsonModel>::empty(),
    {
        proof {
            lemma_entries_empty();
        }
        ActivityRegistry { entries: Vec::new() }
    }

    /// Sets the activity of a socket.
    pub fn set(&mut self, socket: &str, activity: Json)
        ensures
            final(self)@ == old(self)@.insert(socket@, activity@),
    {
        let mut taken = ActivityRegistry::new();
        std::mem::swap(self, &mut taken);
        proof {
            use_type_invariant(&taken);
        }
        let mut entries = taken.entries;
        entries_set(&mut entries, socket, activity);
        *self = ActivityRegistry { entries };
    }

    /// Marks a socket as cleared: its entry becomes null.
    pub fn clear(&mut self, socket: &str)
        ensures
            final(self)@ == old(self)@.insert(socket@, JsonModel::Null),
    {
        self.set(socket, Json::Null);
    }

    /// Brings the registry up to date with an event from the bus.
    pub fn apply(&mut self, evt: &EventKind)
        ensures
            final(self)@ == applied(old(self)@, evt@),
    {
        match evt {
            EventKind::ActivityUpdate { socket_id, payload } => {
                self.set(socket_id.as_str(), payload.deep_clone());
            },
            EventKind::Clear { socket_id } => {
                self.clear(socket_id.as_str());
            },
            EventKind::PrivacyRefresh => {},
        }
    }

    /// A copy of every entry, cleared ones included, each socket once.
    pub fn snapshot(&self) -> (r: Vec<(String, Json)>)
        ensures
            entries_model(r@) == self@,
            distinct_keys(r@),
            r@.len() == self@.dom().len(),
    {
        proof {
            use_type_invariant(self);
        }
        let mut out: Vec<(String, Json)> = Vec::new();
        let mut i: usize = 0;
        while i < self.entries.len()
            invariant
                i <= self.entries.len(),
                out@.len() == i,
                forall|j: int|
                    0 <= j < i ==> (#[trigger] out@[j]).0@ == self.entries@[j].0@ && json_model(
                        out@[j].1,
                    ) == json_model(self.entries@[j].1),
            decreases self.entries.len() - i,
        {
            out.push((self.entries[i].0.clone(), self.entries[i].1.deep_clone()));
            i += 1;
        }
        proof {
            lemma_copy_same_model(self.entries@, out@);
            lemma_distinct_len(out@);
        }
        out
    }

    /// A copy of the entries that are not cleared, each socket once, in no
    /// particular order.
    pub fn non_null(&self) -> (r: Vec<(String, Json)>)
        ensures
            entries_model(r@) == without_nulls(self@),
            distinct_keys(r@),
            r@.len() == without_nulls(self@).dom().len(),
    {
        proof {
            use_type_invariant(self);
        }
        let out = live_entries(&self.entries);
        proof {
            lemma_distinct_len(out@);
        }
        out
    }
}

/// The clears that take back the given activities, one for each, in their order.
pub open spec fn clears_of(entries: Seq<(String, Json)>) -> Seq<EventModel> {
    Seq::new(entries.len(), |i: int| EventModel::Clear { socket_id: entries[i].0@ })
}

/// The events to publish when the broker shuts down: a clear for each
/// connection that still has an activity, each once.
pub fn shutdown_events(reg: &ActivityRegistry) -> (r: Vec<EventKind>)
    ensures
        r@.len() == without_nulls(reg@).dom().len(),
        exists|live: Seq<(String, Json)>|
            distinct_keys(live) && entries_model(live) == without_nulls(reg@) && events_model(r@)
                == #[trigger] clears_of(live),
{
    let live = reg.non_null();
    let mut out: Vec<EventKind> = Vec::new();
    let mut i: usize = 0;
    while i < live.len()
        invariant
            i <= live.len(),
            out@.len() == i,
            forall|j: int|
                0 <= j < i ==> (#[trigger] out@[j])@ == (EventModel::Clear {
                    socket_id: live@[j].0@,
                }),
        decreases live.len() - i,
    {
        out.push(EventKind::Clear { socket_id: live[i].0.clone() });
        i += 1;
    }
    assert(events_model(out@) =~= clears_of(live@));
    out
}

/// The live activities of a registry, for a caller that holds it by reference.
pub fn registry_snapshot(reg: &ActivityRegistry) -> (r: Vec<(String, Json)>)
    ensures
        entries_model(r@) == without_nulls(reg@),
        distinct_keys(r@),
        r@.len() == without_nulls(reg@).dom().len(),
{
    reg.non_null()
}

/// A copy of the entries whose value is not null.
pub fn live_entries(entries: &Vec<(String, Json)>) -> (out: Vec<(String, Json)>)
    requires
        distinct_keys(entries@),
    ensures
        entries_model(out@) == without_nulls(entries_model(entries@)),
        distinct_keys(out@),
{
    let mut out: Vec<(String, Json)> = Vec::new();
    let mut i: usize = 0;
    let ghost mut from: Seq<int> = Seq::empty();
    while i < entries.len()
        invariant
            i <= entries.len(),
            distinct_keys(entries@),
            from.len() == out@.len(),
            forall|j: int| 0 <= j < from.len() ==> 0 <= #[trigger] from[j] < i,
            forall|j: int, k: int| 0 <= j < k < from.len() ==> from[j] < from[k],
            forall|j: int|
                0 <= j < out@.len() ==> (#[trigger] out@[j]).0@ == entries@[from[j]].0@
                    && json_model(out@[j].1) == json_model(entries@[from[j]].1) && !(json_model(
                    out@[j].1,
                ) is Null),
            forall|e: int|
                0 <= e < i && !(json_model(#[trigger] entries@[e].1) is Null) ==> exists|j: int|
                    0 <= j < from.len() && from[j] == e,
        decreases entries.len() - i,
    {
        if !entries[i].1.is_null() {
            let ghost old_from = from;
            out.push((entries[i].0.clone(), entries[i].1.deep_clone()));
            proof {
                from = from.push(i as int);
                assert forall|e: int|
                    0 <= e < i + 1 && !(json_model(#[trigger] entries@[e].1) is Null) implies exists|
                    j: int,
                |
                    0 <= j < from.len() && from[j] == e by {
                    if e < i {
                        let j = choose|j: int| 0 <= j < old_from.len() && old_from[j] == e;
                        assert(from[j] == e);
                    } else {
                        assert(from[from.len() - 1] == e);
                    }
                }
            }
        }
        i += 1;
    }
    proof {
        assert(distinct_keys(out@)) by {
            assert forall|a: int, b: int|
                0 <= a < out@.len() && 0 <= b < out@.len() && a != b implies (#[trigger] out@[a]).0@
                != (#[trigger] out@[b]).0@ by {
                assert(from[a] != from[b]) by {
                    if a < b {
                        assert(from[a] < from[b]);
                    } else {
                        assert(from[b] < from[a]);
                    }
                }
                assert(entries@[from[a]].0@ != entries@[from[b]].0@);
            }
        }
        let target = without_nulls(entries_model(entries@));
        assert forall|k: Seq<char>| #[trigger]
            entries_model(out@).contains_key(k) == target.contains_key(k) by {
            if entries_model(out@).contains_key(k) {
                lemma_last_index_of(out@, k);
                let j = last_index_of(out@, k);
                lemma_distinct_index(entries@, from[j]);
            }
            if target.contains_key(k) {
                lemma_last_index_of(entries@, k);
                let e = last_index_of(entries@, k);
                let j = choose|j: int| 0 <= j < from.len() && from[j] == e;
                assert(out@[j].0@ == k);
                lemma_distinct_index(out@, j);
            }
        }
        assert forall|k: Seq<char>| entries_model(out@).contains_key(k) implies #[trigger] target[k]
            == entries_model(out@)[k] by {
            lemma_last_index_of(out@, k);
            let j = last_index_of(out@, k);
            lemma_distinct_index(entries@, from[j]);
        }
        assert(entries_model(out@) =~= target);
    }
    out
}

/// A list with the same keys and values at the same places stands for the same map.
pub proof fn lemma_copy_same_model(a: Seq<(String, Json)>, b: Seq<(String, Json)>)
    requires
        a.len() == b.len(),
        forall|j: int|
            0 <= j < a.len() ==> (#[trigger] b[j]).0@ == a[j].0@ && json_model(b[j].1)
                == json_model(a[j].1),
    ensures
        entries_model(a) == entries_model(b),
        distinct_keys(a) ==> distinct_keys(b),
{
    assert forall|k: Seq<char>| #[trigger] last_index_of(a, k) == last_index_of(b, k) by {
        crate::json::lemma_same_keys_same_index(a, b, k);
    }
    assert forall|k: Seq<char>| entries_model(a).contains_key(k) implies #[trigger] entries_model(
        a,
    )[k] == entries_model(b)[k] by {
        lemma_last_index_of(a, k);
    }
    assert(entries_model(a) =~= entries_model(b));
    if distinct_keys(a) {
        assert forall|i: int, j: int|
            0 <= i < b.len() && 0 <= j < b.len() && i != j implies (#[trigger] b[i]).0@ != (
        #[trigger] b[j]).0@ by {
            assert(a[i].0@ != a[j].0@);
        }
    }
}

/// A list with distinct keys has as many entries as its map has keys.
pub proof fn lemma_distinct_len(entries: Seq<(String, Json)>)
    requires
        distinct_keys(entries),
    ensures
        entries_model(entries).dom().finite(),
        entries_model(entries).dom().len() == entries.len(),
    decreases entries.len(),
{
    if entries.len() == 0 {
        lemma_entries_empty();
        assert(entries =~= Seq::empty());
    } else {
        let front = entries.drop_last();
        let last = entries.last();
        assert(distinct_keys(front)) by {
            assert forall|i: int, j: int|
                0 <= i < front.len() && 0 <= j < front.len() && i != j implies (
            #[trigger] front[i]).0@ != (#[trigger] front[j]).0@ by {
                assert(front[i] == entries[i] && front[j] == entries[j]);
            }
        }
        lemma_distinct_len(front);
        lemma_entries_push(front, last.0, last.1);
        assert(front.push(last) =~= entries);
        assert(!entries_model(front).contains_key(last.0@)) by {
            lemma_last_index_of(front, last.0@);
            let at = last_index_of(front, last.0@);
            if at >= 0 {
                assert(front[at] == entries[at]);
                assert(entries[at].0@ != entries[entries.len() - 1].0@);
            }
        }
        assert(entries_model(entries).dom() =~= entries_model(front).dom().insert(last.0@));
    }
}

} // verus!
