//! Events and the bus that hands each of them to every subscriber.
//!
//! The bus is plain data: one queue per subscriber. Publishing appends to
//! every queue, receiving takes from the front of one. What waits for a
//! subscriber is part of the state of the bus, so that delivery and its
//! order can be stated and proved; behind the sending end of a channel it
//! could not be seen. Whoever shares a bus between tasks puts it behind a
//! lock of their own.

use crate::json::{Json, JsonModel};
use crate::metrics::Metrics;
use vstd::prelude::*;

verus! {

/// What happens on the bus.
#[derive(Debug)]
pub enum EventKind {
    /// A connection has set its activity.
    ActivityUpdate { socket_id: String, payload: Json },
    /// A connection has ended, or has taken its activity back.
    Clear { socket_id: String },
    /// The privacy filter has changed.
    PrivacyRefresh,
}

/// The mathematical value of an event.
pub ghost enum EventModel {
    ActivityUpdate { socket_id: Seq<char>, payload: JsonModel },
    Clear { socket_id: Seq<char> },
    PrivacyRefresh,
}

impl View for EventKind {
    type V = EventModel;

    open spec fn view(&self) -> EventModel {
        match self {
            EventKind::ActivityUpdate { socket_id, payload } => EventModel::ActivityUpdate {
                socket_id: socket_id@,
                payload: payload@,
            },
            EventKind::Clear { socket_id } => EventModel::Clear { socket_id: socket_id@ },
            EventKind::PrivacyRefresh => EventModel::PrivacyRefresh,
        }
    }
}

impl Clone for EventKind {
    fn clone(&self) -> (r: EventKind)
        ensures
            r@ == self@,
    {
        match self {
            EventKind::ActivityUpdate { socket_id, payload } => EventKind::ActivityUpdate {
                socket_id: socket_id.clone(),
                payload: payload.deep_clone(),
            },
            EventKind::Clear { socket_id } => EventKind::Clear { socket_id: socket_id.clone() },
            EventKind::PrivacyRefresh => EventKind::PrivacyRefresh,
        }
    }
}

/// The models of the events in a queue, in order.
pub open spec fn events_model(q: Seq<EventKind>) -> Seq<EventModel> {
    Seq::new(q.len(), |j: int| q[j]@)
}

/// The models of all queues: what waits for each subscriber, or nothing for
/// a subscriber that is gone.
pub open spec fn queues_model(qs: Seq<Option<Vec<EventKind>>>) -> Seq<Option<Seq<EventModel>>> {
    Seq::new(
        qs.len(),
        |i: int|
            match qs[i] {
                Some(q) => Some(events_model(q@)),
                None => None,
            },
    )
}

/// A queue with a run of events behind what waits in it; a queue that is
/// gone stays gone.
pub open spec fn extended(q: Option<Seq<EventModel>>, evts: Seq<EventModel>) -> Option<
    Seq<EventModel>,
> {
    match q {
        Some(x) => Some(x + evts),
        None => None,
    }
}

/// The right to receive from one queue of a bus.
#[derive(Debug, Clone, Copy, PartialEq, Eq, Structural)]
pub struct Subscription {
    pub id: usize,
}

/// Fan-out of events to subscribers.
#[derive(Debug)]
pub struct EventBus {
    queues: Vec<Option<Vec<EventKind>>>,
    metrics: Metrics,
}

impl EventBus {
    /// What waits in each subscriber's queue, oldest first; nothing for a
    /// subscriber that is gone.
    pub closed spec fn queues(&self) -> Seq<Option<Seq<EventModel>>> {
        queues_model(self.queues@)
    }

    /// The counters that the bus keeps.
    pub closed spec fn counters(&self) -> Metrics {
        self.metrics
    }

    /// A bus without subscribers.
    pub fn new() -> (r: EventBus)
        ensures
            r.queues() == Seq::<Option<Seq<EventModel>>>::empty(),
            r.counters() == Metrics::zero(),
    {
        let r = EventBus { queues: Vec::new(), metrics: Metrics::new() };
        assert(r.queues() =~= Seq::<Option<Seq<EventModel>>>::empty());
        r
    }

    /// Registers a new subscriber with an empty queue.
    pub fn subscribe(&mut self) -> (r: Subscription)
        ensures
            final(self).queues() == old(self).queues().push(Some(Seq::empty())),
            r.id == old(self).queues().len(),
            final(self).counters() == old(self).counters(),
    {
        let id = self.queues.len();
        self.queues.push(Some(Vec::new()));
        assert(self.queues() =~= old(self).queues().push(Some(Seq::empty()))) by {
            assert forall|i: int| 0 <= i < self.queues@.len() implies #[trigger] self.queues()[i]
                == old(self).queues().push(Some(Seq::empty()))[i] by {
                if i < old(self).queues@.len() {
                    assert(self.queues@[i] == old(self).queues@[i]);
                } else {
                    assert(events_model(self.queues@[i]->0@) =~= Seq::empty());
                }
            }
        }
        Subscription { id }
    }

    /// Lets a subscriber go: nothing is kept for it any more, and what waited
    /// for it is dropped.
    pub fn unsubscribe(&mut self, sub: Subscription)
        ensures
            final(self).queues() == (if sub.id < old(self).queues().len() {
                old(self).queues().update(sub.id as int, None)
            } else {
                old(self).queues()
            }),
            final(self).counters() == old(self).counters(),
    {
        if sub.id < self.queues.len() {
            let ghost before = self.queues@;
            self.queues.set(sub.id, None);
            assert(self.queues() =~= old(self).queues().update(sub.id as int, None)) by {
                assert forall|k: int|
                    0 <= k < self.queues@.len() && k != sub.id implies #[trigger] self.queues()[k]
                    == old(self).queues()[k] by {
                    assert(self.queues@[k] == before[k]);
                }
            }
        }
    }

    /// Hands the event to every subscriber, behind what already waits there.
    /// An activity update also counts as an activity set.
    pub fn publish(&mut self, evt: EventKind)
        ensures
            final(self).queues() == published(old(self).queues(), evt@),
            final(self).counters() == counted(old(self).counters(), evt@),
    {
        let mut i: usize = 0;
        let n = self.queues.len();
        while i < n
            invariant
                i <= n,
                n == self.queues@.len(),
                n == old(self).queues@.len(),
                self.metrics == old(self).metrics,
                forall|k: int|
                    0 <= k < i ==> #[trigger] queues_model(self.queues@)[k] == published(
                        old(self).queues(),
                        evt@,
                    )[k],
                forall|k: int| i <= k < n ==> #[trigger] self.queues@[k] == old(self).queues@[k],
            decreases n - i,
        {
            let ghost before = self.queues@;
            match &mut self.queues[i] {
                Some(q) => {
                    q.push(evt.clone());
                },
                None => {},
            }
            proof {
                match before[i as int] {
                    Some(q) => {
                        assert(events_model(self.queues@[i as int]->0@) =~= events_model(q@).push(
                            evt@,
                        ));
                    },
                    None => {},
                }
                assert forall|k: int| 0 <= k < i implies #[trigger] queues_model(
                    self.queues@,
                )[k] == published(old(self).queues(), evt@)[k] by {
                    assert(self.queues@[k] == before[k]);
                    assert(queues_model(before)[k] == published(old(self).queues(), evt@)[k]);
                }
            }
            i += 1;
        }
        match &evt {
            EventKind::ActivityUpdate { .. } => {
                self.metrics.activity_set();
            },
            _ => {},
        }
        assert(self.queues() =~= published(old(self).queues(), evt@));
    }

    /// Takes the oldest event that waits for the subscriber, if one waits.
    /// A subscriber that is gone or was never there gets nothing.
    pub fn try_recv(&mut self, sub: &Subscription) -> (r: Option<EventKind>)
        ensures
            final(self).counters() == old(self).counters(),
            match r {
                Some(e) => waiting(old(self).queues(), sub.id as int).len() > 0 && e@ == waiting(
                    old(self).queues(),
                    sub.id as int,
                )[0] && final(self).queues() == old(self).queues().update(
                    sub.id as int,
                    Some(waiting(old(self).queues(), sub.id as int).drop_first()),
                ),
                None => waiting(old(self).queues(), sub.id as int).len() == 0
                    && final(self).queues() == old(self).queues(),
            },
    {
        if sub.id >= self.queues.len() {
            return None;
        }
        let ghost before = self.queues@;
        let taken = match &mut self.queues[sub.id] {
            Some(q) => if q.len() > 0 {
                Some(q.remove(0))
            } else {
                None
            },
            None => None,
        };
        proof {
            match &taken {
                Some(_) => {
                    assert(events_model(self.queues@[sub.id as int]->0@) =~= events_model(
                        before[sub.id as int]->0@,
                    ).drop_first());
                    assert forall|k: int|
                        0 <= k < self.queues@.len() && k != sub.id implies #[trigger] self.queues()[k]
                        == old(self).queues()[k] by {
                        assert(self.queues@[k] == before[k]);
                    }
                    assert(self.queues() =~= old(self).queues().update(
                        sub.id as int,
                        Some(waiting(old(self).queues(), sub.id as int).drop_first()),
                    ));
                },
                None => {
                    assert(self.queues@ =~= before);
                },
            }
        }
        taken
    }

    /// How many subscriptions the bus has given out, those that are gone included.
    pub fn subscriber_count(&self) -> (r: usize)
        ensures
            r == self.queues().len(),
    {
        self.queues.len()
    }

    /// The counters that the bus keeps.
    pub fn metrics(&self) -> (r: Metrics)
        ensures
            r == self.counters(),
    {
        self.metrics
    }

    /// Counts a connection that was accepted.
    pub fn connection_opened(&mut self)
        ensures
            final(self).queues() == old(self).queues(),
            final(self).counters() == (Metrics {
                active_connections: old(self).counters().active_connections.wrapping_add(1),
                ..old(self).counters()
            }),
    {
        self.metrics.connection_opened();
    }

    /// Counts a connection that ended.
    pub fn connection_closed(&mut self)
        ensures
            final(self).queues() == old(self).queues(),
            final(self).counters() == (Metrics {
                active_connections: old(self).counters().active_connections.wrapping_sub(1),
                ..old(self).counters()
            }),
    {
        self.metrics.connection_closed();
    }
}

/// What waits for the subscriber with the given number; nothing for a
/// subscriber that is gone or was never there.
pub open spec fn waiting(queues: Seq<Option<Seq<EventModel>>>, id: int) -> Seq<EventModel> {
    if 0 <= id < queues.len() {
        match queues[id] {
            Some(q) => q,
            None => Seq::empty(),
        }
    } else {
        Seq::empty()
    }
}

/// The queues after an event has been published: each that is still there
/// with the event at its end.
pub open spec fn published(queues: Seq<Option<Seq<EventModel>>>, evt: EventModel) -> Seq<
    Option<Seq<EventModel>>,
> {
    Seq::new(
        queues.len(),
        |i: int|
            match queues[i] {
                Some(q) => Some(q.push(evt)),
                None => None,
            },
    )
}

/// The counters after an event has been published.
pub open spec fn counted(m: Metrics, evt: EventModel) -> Metrics {
    match evt {
        EventModel::ActivityUpdate { .. } => Metrics {
            activities_set: m.activities_set.wrapping_add(1),
            ..m
        },
        _ => m,
    }
}

/// The queues after a run of events has been published one after another,
/// oldest first.
pub open spec fn published_seq(
    queues: Seq<Option<Seq<EventModel>>>,
    evts: Seq<EventModel>,
) -> Seq<Option<Seq<EventModel>>>
    decreases evts.len(),
{
    if evts.len() == 0 {
        queues
    } else {
        published_seq(published(queues, evts[0]), evts.drop_first())
    }
}

/// Every subscriber gets what is published in the order of publishing:
/// after a run of publications each queue holds what it held, followed by
/// the run.
pub proof fn lemma_published_seq(queues: Seq<Option<Seq<EventModel>>>, evts: Seq<EventModel>)
    ensures
        published_seq(queues, evts).len() == queues.len(),
        forall|i: int|
            0 <= i < queues.len() ==> #[trigger] published_seq(queues, evts)[i] == extended(
                queues[i],
                evts,
            ),
    decreases evts.len(),
{
    if evts.len() == 0 {
        assert forall|i: int| 0 <= i < queues.len() implies #[trigger] published_seq(
            queues,
            evts,
        )[i] == extended(queues[i], evts) by {
            if queues[i] is Some {
                assert(queues[i]->0 + evts =~= queues[i]->0);
            }
        }
    } else {
        lemma_published_seq(published(queues, evts[0]), evts.drop_first());
        assert forall|i: int| 0 <= i < queues.len() implies #[trigger] published_seq(
            queues,
            evts,
        )[i] == extended(queues[i], evts) by {
            if queues[i] is Some {
                assert(published(queues, evts[0])[i] == Some(queues[i]->0.push(evts[0])));
                assert(queues[i]->0.push(evts[0]) + evts.drop_first() =~= queues[i]->0 + evts);
            }
        }
    }
}

/// The queues of a bus after an event that may be none.
pub open spec fn published_opt(
    queues: Seq<Option<Seq<EventModel>>>,
    evt: Option<EventModel>,
) -> Seq<Option<Seq<EventModel>>> {
    match evt {
        Some(e) => published(queues, e),
        None => queues,
    }
}

/// The counters after an event that may be none.
pub open spec fn counted_opt(m: Metrics, evt: Option<EventModel>) -> Metrics {
    match evt {
        Some(e) => counted(m, e),
        None => m,
    }
}

/// The counters after a run of events has been published.
pub open spec fn counted_seq(m: Metrics, evts: Seq<EventModel>) -> Metrics
    decreases evts.len(),
{
    if evts.len() == 0 {
        m
    } else {
        counted_seq(counted(m, evts[0]), evts.drop_first())
    }
}

/// Publishing one more event after a run is publishing the longer run.
pub proof fn lemma_published_extend(
    queues: Seq<Option<Seq<EventModel>>>,
    done: Seq<EventModel>,
    evt: Option<EventModel>,
)
    ensures
        published_opt(published_seq(queues, done), evt) == published_seq(
            queues,
            done + match evt {
                Some(e) => seq![e],
                None => Seq::empty(),
            },
        ),
{
    let more = match evt {
        Some(e) => seq![e],
        None => Seq::<EventModel>::empty(),
    };
    lemma_published_seq(queues, done);
    lemma_published_seq(queues, done + more);
    let a = published_opt(published_seq(queues, done), evt);
    let b = published_seq(queues, done + more);
    assert forall|i: int| 0 <= i < queues.len() implies #[trigger] a[i] == b[i] by {
        if queues[i] is Some {
            match evt {
                Some(e) => {
                    assert((queues[i]->0 + done).push(e) =~= queues[i]->0 + (done + more));
                },
                None => {
                    assert(done + more =~= done);
                },
            }
        } else {
            assert(done + more =~= done + more);
        }
    }
    assert(a =~= b);
}


impl EventBus {
    /// Publishes the events one after another, oldest first.
    pub fn publish_all(&mut self, evts: &Vec<EventKind>)
        ensures
            final(self).queues() == published_seq(old(self).queues(), events_model(evts@)),
            final(self).counters() == counted_seq(old(self).counters(), events_model(evts@)),
    {
        let mut i: usize = 0;
        let ghost all = events_model(evts@);
        assert(all.skip(0) =~= all);
        while i < evts.len()
            invariant
                i <= evts.len(),
                all == events_model(evts@),
                published_seq(self.queues(), all.skip(i as int)) == published_seq(
                    old(self).queues(),
                    all,
                ),
                counted_seq(self.counters(), all.skip(i as int)) == counted_seq(
                    old(self).counters(),
                    all,
                ),
            decreases evts.len() - i,
        {
            assert(all.skip(i as int)[0] == evts@[i as int]@);
            assert(all.skip(i as int).drop_first() =~= all.skip(i + 1));
            self.publish(evts[i].clone());
            i += 1;
        }
        assert(all.skip(i as int) =~= Seq::empty());
    }

    /// Counts processes that matched the catalog.
    pub fn processes_detected(&mut self, n: u64)
        ensures
            final(self).queues() == old(self).queues(),
            final(self).counters() == (Metrics {
                processes_detected: old(self).counters().processes_detected.wrapping_add(n),
                ..old(self).counters()
            }),
    {
        self.metrics.processes_detected = self.metrics.processes_detected.wrapping_add(n);
    }

    /// Records the size of the catalog.
    pub fn set_detectables_count(&mut self, n: u64)
        ensures
            final(self).queues() == old(self).queues(),
            final(self).counters() == (Metrics { detectables_count: n, ..old(self).counters() }),
    {
        self.metrics.set_detectables_count(n);
    }
}

} // verus!
