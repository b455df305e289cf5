//! The in-memory segment store and the per-stream append engine. The
//! store keeps events in arrival order; per actor, counters are strictly
//! increasing and positive. The stream engine assigns each appended
//! event the next counter of its own actor: dense, starting at 1, and
//! continuing from `highest_counter + 1` after a restart over the same
//! store.

use vstd::prelude::*;
use crate::event::{ActorId, EventCounter, EventView, FloEventId, OwnedFloEvent, Timestamp};
use crate::glob::{glob_matches, matches_glob};
use crate::versionvec::{seq_get, VersionVector};
use crate::wire::ErrorKind;

verus! {

/// The highest counter any event of `actor` carries, or 0 when it has
/// none.
pub open spec fn spec_highest(s: Seq<EventView>, actor: ActorId) -> u64
    decreases s.len(),
{
    if s.len() == 0 {
        0
    } else {
        let h = spec_highest(s.drop_last(), actor);
        if s.last().id.actor == actor && s.last().id.event_counter > h {
            s.last().id.event_counter
        } else {
            h
        }
    }
}

/// The events satisfying `f`, in store order.
pub open spec fn filter_events(s: Seq<EventView>, f: spec_fn(EventView) -> bool) -> Seq<EventView>
    decreases s.len(),
{
    if s.len() == 0 {
        Seq::empty()
    } else {
        let rest = filter_events(s.drop_last(), f);
        if f(s.last()) {
            rest.push(s.last())
        } else {
            rest
        }
    }
}

/// Per actor, counters are strictly increasing in store order, and every
/// counter is positive.
pub open spec fn store_wf(s: Seq<EventView>) -> bool {
    &&& forall|i: int, j: int|
        0 <= i < j < s.len() && s[i].id.actor == s[j].id.actor ==> s[i].id.event_counter < s[
            j
        ].id.event_counter
    &&& forall|i: int| 0 <= i < s.len() ==> #[trigger] s[i].id.event_counter > 0
}

/// Every filtered event is some stored event.
pub proof fn lemma_filter_events_mem(s: Seq<EventView>, f: spec_fn(EventView) -> bool)
    ensures
        forall|i: int|
            0 <= i < filter_events(s, f).len() ==> exists|j: int|
                0 <= j < s.len() && #[trigger] filter_events(s, f)[i] == s[j],
    decreases s.len(),
{
    if s.len() > 0 {
        lemma_filter_events_mem(s.drop_last(), f);
        let fs = filter_events(s, f);
        let fs0 = filter_events(s.drop_last(), f);
        assert forall|i: int| 0 <= i < fs.len() implies exists|j: int|
            0 <= j < s.len() && #[trigger] fs[i] == s[j] by {
            if i < fs0.len() {
                let j = choose|j: int| 0 <= j < s.drop_last().len() && fs0[i] == s.drop_last()[j];
                assert(fs[i] == s[j]);
            } else {
                assert(fs[i] == s[s.len() - 1]);
            }
        }
    }
}

/// The highest counter is attained by some event, or the actor has
/// none.
pub proof fn lemma_highest_attained(s: Seq<EventView>, actor: ActorId)
    ensures
        spec_highest(s, actor) == 0 || exists|j: int|
            0 <= j < s.len() && s[j].id.actor == actor && s[j].id.event_counter == spec_highest(
                s,
                actor,
            ),
    decreases s.len(),
{
    if s.len() > 0 {
        lemma_highest_attained(s.drop_last(), actor);
        if spec_highest(s, actor) != 0 {
            let h0 = spec_highest(s.drop_last(), actor);
            if s.last().id.actor == actor && s.last().id.event_counter > h0 {
                assert(s[s.len() - 1].id.event_counter == spec_highest(s, actor));
            } else {
                let j = choose|j: int|
                    0 <= j < s.drop_last().len() && s.drop_last()[j].id.actor == actor
                        && s.drop_last()[j].id.event_counter == h0;
                assert(s[j].id.event_counter == spec_highest(s, actor));
            }
        }
    }
}

/// Every event of `actor` has a counter at most the highest.
pub proof fn lemma_highest_bounds(s: Seq<EventView>, actor: ActorId)
    ensures
        forall|j: int|
            0 <= j < s.len() && s[j].id.actor == actor ==> s[j].id.event_counter <= spec_highest(
                s,
                actor,
            ),
    decreases s.len(),
{
    if s.len() > 0 {
        lemma_highest_bounds(s.drop_last(), actor);
        assert forall|j: int|
            0 <= j < s.len() && s[j].id.actor == actor implies s[j].id.event_counter
            <= spec_highest(s, actor) by {
            if j < s.len() - 1 {
                assert(s.drop_last()[j] == s[j]);
            }
        }
    }
}

/// Appending an event preserves well-formedness when its counter tops
/// every stored counter of its actor.
pub proof fn lemma_append_wf(s: Seq<EventView>, e: EventView)
    requires
        store_wf(s),
        e.id.event_counter > spec_highest(s, e.id.actor),
        e.id.event_counter > 0,
    ensures
        store_wf(s.push(e)),
{
    lemma_highest_bounds(s, e.id.actor);
    let s2 = s.push(e);
    assert forall|i: int, j: int|
        0 <= i < j < s2.len() && s2[i].id.actor == s2[j].id.actor implies s2[i].id.event_counter
        < s2[j].id.event_counter by {
        if j == s2.len() - 1 {
            assert(s2[i] == s[i]);
        } else {
            assert(s2[i] == s[i] && s2[j] == s[j]);
        }
    }
}

/// An append-and-read log of persisted events, in memory. Events arrive
/// in order; per actor their counters strictly increase.
#[derive(Debug, Clone)]
pub struct EventStore {
    events: Vec<OwnedFloEvent>,
}

impl View for EventStore {
    type V = Seq<EventView>;

    closed spec fn view(&self) -> Seq<EventView> {
        self.events@.map_values(|e: OwnedFloEvent| e@)
    }
}

impl EventStore {
    pub open spec fn wf(&self) -> bool {
        store_wf(self@)
    }

    pub fn new() -> (r: EventStore)
        ensures
            r@ == Seq::<EventView>::empty(),
            r.wf(),
    {
        let s = EventStore { events: Vec::new() };
        proof {
            assert(s@ =~= Seq::<EventView>::empty());
        }
        s
    }

    /// The highest counter persisted for `actor`, or 0 when none is.
    pub fn highest_counter(&self, actor: ActorId) -> (r: u64)
        ensures
            r == spec_highest(self@, actor),
    {
        let n = self.events.len();
        let mut h: u64 = 0;
        let mut i: usize = 0;
        proof {
            assert(self@.take(0) =~= Seq::<EventView>::empty());
        }
        while i < n
            invariant
                n == self.events@.len(),
                self@.len() == n,
                0 <= i <= n,
                h == spec_highest(self@.take(i as int), actor),
            decreases n - i,
        {
            proof {
                assert(self@.take(i as int + 1).drop_last() =~= self@.take(i as int));
                assert(self@.take(i as int + 1).last() == self@[i as int]);
                assert(self@[i as int] == self.events@[i as int]@);
            }
            let e = &self.events[i];
            if e.id.actor == actor && e.id.event_counter > h {
                h = e.id.event_counter;
            }
            i += 1;
        }
        proof {
            assert(self@.take(n as int) =~= self@);
        }
        h
    }

    /// Persists one event. The caller hands events per actor in counter
    /// order; the id must top everything stored for its actor.
    pub fn append(&mut self, event: OwnedFloEvent)
        requires
            old(self).wf(),
            event@.id.event_counter > spec_highest(old(self)@, event@.id.actor),
            event@.id.event_counter > 0,
        ensures
            final(self)@ == old(self)@.push(event@),
            final(self).wf(),
            forall|a: ActorId| #![auto]
                spec_highest(final(self)@, a) == if a == event@.id.actor {
                    event@.id.event_counter
                } else {
                    spec_highest(old(self)@, a)
                },
    {
        proof {
            lemma_append_wf(old(self)@, event@);
        }
        let ghost oldv = self@;
        let ghost ev = event@;
        self.events.push(event);
        proof {
            assert(self@ =~= oldv.push(ev));
            assert forall|a: ActorId| #![auto]
                spec_highest(self@, a) == (if a == ev.id.actor {
                    ev.id.event_counter
                } else {
                    spec_highest(oldv, a)
                }) by {
                assert(self@.drop_last() =~= oldv);
                lemma_highest_bounds(oldv, a);
            }
        }
    }

    /// The events of one actor with counters strictly above `counter`,
    /// in store order.
    pub fn read_from(&self, actor: ActorId, counter: EventCounter) -> (r: Vec<OwnedFloEvent>)
        ensures
            r@.map_values(|e: OwnedFloEvent| e@) == filter_events(
                self@,
                |e: EventView| e.id.actor == actor && e.id.event_counter > counter,
            ),
    {
        let ghost f = |e: EventView| e.id.actor == actor && e.id.event_counter > counter;
        let n = self.events.len();
        let mut out: Vec<OwnedFloEvent> = Vec::new();
        let mut i: usize = 0;
        proof {
            assert(self@.take(0) =~= Seq::<EventView>::empty());
            assert(out@.map_values(|e: OwnedFloEvent| e@) =~= filter_events(self@.take(0), f));
        }
        while i < n
            invariant
                n == self.events@.len(),
                self@.len() == n,
                0 <= i <= n,
                f == (|e: EventView| e.id.actor == actor && e.id.event_counter > counter),
                out@.map_values(|e: OwnedFloEvent| e@) == filter_events(self@.take(i as int), f),
            decreases n - i,
        {
            let ghost prev = out@.map_values(|e: OwnedFloEvent| e@);
            proof {
                assert(self@.take(i as int + 1).drop_last() =~= self@.take(i as int));
                assert(self@.take(i as int + 1).last() == self@[i as int]);
                assert(self@[i as int] == self.events@[i as int]@);
            }
            let e = &self.events[i];
            if e.id.actor == actor && e.id.event_counter > counter {
                out.push(crate::event::clone_event(e));
                proof {
                    assert(out@.map_values(|e2: OwnedFloEvent| e2@) =~= prev.push(
                        self@[i as int],
                    ));
                }
            }
            i += 1;
        }
        proof {
            assert(self@.take(n as int) =~= self@);
        }
        out
    }

    /// The events a consumer position has not seen: counters strictly
    /// above the version vector's entry for their actor, namespaces
    /// matching the glob, in store order. Deterministic for a given
    /// store state, and restartable from any later vector.
    pub fn iterate(&self, vv: &VersionVector, pattern: &str) -> (r: Vec<OwnedFloEvent>)
        ensures
            r@.map_values(|e: OwnedFloEvent| e@) == filter_events(
                self@,
                |e: EventView|
                    e.id.event_counter > seq_get(vv@, e.id.actor) && glob_matches(
                        pattern@,
                        e.namespace,
                    ),
            ),
    {
        let ghost f = |e: EventView|
            e.id.event_counter > seq_get(vv@, e.id.actor) && glob_matches(pattern@, e.namespace);
        let n = self.events.len();
        let mut out: Vec<OwnedFloEvent> = Vec::new();
        let mut i: usize = 0;
        proof {
            assert(self@.take(0) =~= Seq::<EventView>::empty());
            assert(out@.map_values(|e: OwnedFloEvent| e@) =~= filter_events(self@.take(0), f));
        }
        while i < n
            invariant
                n == self.events@.len(),
                self@.len() == n,
                0 <= i <= n,
                f == (|e: EventView|
                    e.id.event_counter > seq_get(vv@, e.id.actor) && glob_matches(
                        pattern@,
                        e.namespace,
                    )),
                out@.map_values(|e: OwnedFloEvent| e@) == filter_events(self@.take(i as int), f),
            decreases n - i,
        {
            let ghost prev = out@.map_values(|e: OwnedFloEvent| e@);
            proof {
                assert(self@.take(i as int + 1).drop_last() =~= self@.take(i as int));
                assert(self@.take(i as int + 1).last() == self@[i as int]);
                assert(self@[i as int] == self.events@[i as int]@);
            }
            let e = &self.events[i];
            let above = e.id.event_counter > vv.get(e.id.actor);
            if above && matches_glob(pattern, e.namespace.as_str()) {
                out.push(crate::event::clone_event(e));
                proof {
                    assert(out@.map_values(|e2: OwnedFloEvent| e2@) =~= prev.push(
                        self@[i as int],
                    ));
                }
            }
            i += 1;
        }
        proof {
            assert(self@.take(n as int) =~= self@);
        }
        out
    }

    /// Every stored event a version vector has not seen: counters
    /// strictly above the vector's entry for their actor, in store
    /// order. This is what one replica sends a peer after an announce.
    pub fn events_above(&self, vv: &VersionVector) -> (r: Vec<OwnedFloEvent>)
        ensures
            r@.map_values(|e: OwnedFloEvent| e@) == filter_events(
                self@,
                |e: EventView| e.id.event_counter > seq_get(vv@, e.id.actor),
            ),
    {
        let ghost f = |e: EventView| e.id.event_counter > seq_get(vv@, e.id.actor);
        let n = self.events.len();
        let mut out: Vec<OwnedFloEvent> = Vec::new();
        let mut i: usize = 0;
        proof {
            assert(self@.take(0) =~= Seq::<EventView>::empty());
            assert(out@.map_values(|e: OwnedFloEvent| e@) =~= filter_events(self@.take(0), f));
        }
        while i < n
            invariant
                n == self.events@.len(),
                self@.len() == n,
                0 <= i <= n,
                f == (|e: EventView| e.id.event_counter > seq_get(vv@, e.id.actor)),
                out@.map_values(|e: OwnedFloEvent| e@) == filter_events(self@.take(i as int), f),
            decreases n - i,
        {
            let ghost prev = out@.map_values(|e: OwnedFloEvent| e@);
            proof {
                assert(self@.take(i as int + 1).drop_last() =~= self@.take(i as int));
                assert(self@.take(i as int + 1).last() == self@[i as int]);
                assert(self@[i as int] == self.events@[i as int]@);
            }
            let e = &self.events[i];
            if e.id.event_counter > vv.get(e.id.actor) {
                out.push(crate::event::clone_event(e));
                proof {
                    assert(out@.map_values(|e2: OwnedFloEvent| e2@) =~= prev.push(
                        self@[i as int],
                    ));
                }
            }
            i += 1;
        }
        proof {
            assert(self@.take(n as int) =~= self@);
        }
        out
    }

    /// The store's own version vector: for every actor, exactly the
    /// highest counter persisted for it.
    pub fn version_vector(&self) -> (r: VersionVector)
        ensures
            r.wf(),
            forall|a: ActorId| #![auto] seq_get(r@, a) == spec_highest(self@, a),
    {
        let n = self.events.len();
        let mut vv = VersionVector::new();
        let mut i: usize = 0;
        proof {
            assert(self@.take(0) =~= Seq::<EventView>::empty());
        }
        while i < n
            invariant
                n == self.events@.len(),
                self@.len() == n,
                0 <= i <= n,
                vv.wf(),
                forall|a: ActorId| #![auto]
                    seq_get(vv@, a) == spec_highest(self@.take(i as int), a),
            decreases n - i,
        {
            proof {
                assert(self@.take(i as int + 1).drop_last() =~= self@.take(i as int));
                assert(self@.take(i as int + 1).last() == self@[i as int]);
                assert(self@[i as int] == self.events@[i as int]@);
            }
            let e = &self.events[i];
            vv.observe(e.id);
            i += 1;
        }
        proof {
            assert(self@.take(n as int) =~= self@);
        }
        vv
    }

    /// Drops every event of `actor` with a counter below `counter`, as
    /// segment eviction does for the oldest data.
    pub fn evict_before(&mut self, actor: ActorId, counter: EventCounter)
        requires
            old(self).wf(),
        ensures
            final(self)@ == filter_events(
                old(self)@,
                |e: EventView| !(e.id.actor == actor && e.id.event_counter < counter),
            ),
            final(self).wf(),
    {
        let ghost f = |e: EventView| !(e.id.actor == actor && e.id.event_counter < counter);
        let ghost oldv = self@;
        let n = self.events.len();
        let mut kept: Vec<OwnedFloEvent> = Vec::new();
        let mut i: usize = 0;
        proof {
            assert(oldv.take(0) =~= Seq::<EventView>::empty());
            assert(kept@.map_values(|e: OwnedFloEvent| e@) =~= filter_events(oldv.take(0), f));
        }
        while i < n
            invariant
                n == self.events@.len(),
                oldv == self@,
                oldv.len() == n,
                0 <= i <= n,
                f == (|e: EventView| !(e.id.actor == actor && e.id.event_counter < counter)),
                kept@.map_values(|e: OwnedFloEvent| e@) == filter_events(oldv.take(i as int), f),
            decreases n - i,
        {
            let ghost prev = kept@.map_values(|e: OwnedFloEvent| e@);
            proof {
                assert(oldv.take(i as int + 1).drop_last() =~= oldv.take(i as int));
                assert(oldv.take(i as int + 1).last() == oldv[i as int]);
                assert(oldv[i as int] == self.events@[i as int]@);
            }
            let e = &self.events[i];
            if !(e.id.actor == actor && e.id.event_counter < counter) {
                kept.push(crate::event::clone_event(e));
                proof {
                    assert(kept@.map_values(|e2: OwnedFloEvent| e2@) =~= prev.push(
                        oldv[i as int],
                    ));
                }
            }
            i += 1;
        }
        self.events = kept;
        proof {
            assert(oldv.take(n as int) =~= oldv);
            lemma_filter_wf(oldv, f);
        }
    }
}

/// A filtered store is still well formed: kept events keep their order.
pub proof fn lemma_filter_wf(s: Seq<EventView>, f: spec_fn(EventView) -> bool)
    requires
        store_wf(s),
    ensures
        store_wf(filter_events(s, f)),
    decreases s.len(),
{
    if s.len() > 0 {
        let s0 = s.drop_last();
        assert(store_wf(s0)) by {
            assert forall|i: int| 0 <= i < s0.len() implies #[trigger] s0[i].id.event_counter
                > 0 by {
                assert(s0[i] == s[i]);
            }
        }
        lemma_filter_wf(s0, f);
        if f(s.last()) {
            let fs0 = filter_events(s0, f);
            let fs = fs0.push(s.last());
            lemma_filter_events_mem(s0, f);
            lemma_highest_bounds(s0, s.last().id.actor);
            assert forall|i: int, j: int|
                0 <= i < j < fs.len() && fs[i].id.actor == fs[j].id.actor implies fs[
                i
            ].id.event_counter < fs[j].id.event_counter by {
                if j == fs.len() - 1 {
                    let k = choose|k: int| 0 <= k < s0.len() && fs0[i] == s0[k];
                    assert(s[k] == s0[k]);
                    assert(s[k].id.event_counter < s.last().id.event_counter);
                } else {
                    assert(fs[i] == fs0[i] && fs[j] == fs0[j]);
                }
            }
            assert forall|i: int| 0 <= i < fs.len() implies #[trigger] fs[i].id.event_counter
                > 0 by {
                if i < fs.len() - 1 {
                    assert(fs[i] == fs0[i]);
                }
            }
        }
    }
}

/// One named stream of an append-only log, writing as one actor. Every
/// append is assigned the next counter of that actor: dense, starting
/// at 1, and continuing from the store's `highest_counter` after a
/// restart.
#[derive(Debug)]
pub struct EventStream {
    pub name: String,
    pub actor: ActorId,
    pub store: EventStore,
}

impl EventStream {
    pub open spec fn wf(&self) -> bool {
        self.store.wf()
    }

    pub open spec fn events(&self) -> Seq<EventView> {
        self.store@
    }

    /// Opens a stream over a store, new or recovered: counters continue
    /// from whatever the store already holds.
    pub fn new(name: String, actor: ActorId, store: EventStore) -> (r: EventStream)
        requires
            store.wf(),
        ensures
            r.wf(),
            r.events() == store@,
            r.actor == actor,
            r.name@ == name@,
    {
        EventStream { name, actor, store }
    }

    /// Hands the store back, as a shutdown does; a later `new` over it
    /// continues the same counters.
    pub fn into_store(self) -> (r: EventStore)
        requires
            self.wf(),
        ensures
            r@ == self.events(),
            r.wf(),
    {
        self.store
    }

    /// The highest counter this stream's store has persisted for an
    /// actor.
    pub fn highest_counter(&self, actor: ActorId) -> (r: u64)
        ensures
            r == spec_highest(self.events(), actor),
    {
        self.store.highest_counter(actor)
    }

    /// Appends one event produced locally: assigns it the next counter
    /// of this stream's own actor, persists it, and returns its id.
    /// Counters are dense: each append gets exactly `highest + 1`. The
    /// only failure is counter exhaustion, surfaced as the storage
    /// error; the counter is then not consumed.
    pub fn append(
        &mut self,
        namespace: String,
        parent_id: Option<FloEventId>,
        timestamp: Timestamp,
        data: Vec<u8>,
    ) -> (r: Result<FloEventId, ErrorKind>)
        requires
            old(self).wf(),
        ensures
            final(self).wf(),
            final(self).actor == old(self).actor,
            final(self).name == old(self).name,
            spec_highest(old(self).events(), old(self).actor) < u64::MAX ==> ({
                let id = FloEventId {
                    event_counter: (spec_highest(old(self).events(), old(self).actor) + 1) as u64,
                    actor: old(self).actor,
                };
                &&& r == Ok::<FloEventId, ErrorKind>(id)
                &&& final(self).events() == old(self).events().push(
                    EventView {
                        id,
                        timestamp: timestamp.millis,
                        parent_id,
                        namespace: namespace@,
                        data: data@,
                    },
                )
            }),
            spec_highest(old(self).events(), old(self).actor) == u64::MAX ==> r == Err::<
                FloEventId,
                ErrorKind,
            >(ErrorKind::StorageEngineError) && final(self).events() == old(self).events(),
    {
        let h = self.store.highest_counter(self.actor);
        if h == u64::MAX {
            return Err(ErrorKind::StorageEngineError);
        }
        let id = FloEventId { event_counter: h + 1, actor: self.actor };
        let event = OwnedFloEvent { id, timestamp, parent_id, namespace, data };
        self.store.append(event);
        Ok(id)
    }

    /// Reads matching events the position has not seen, as a cursor
    /// does.
    pub fn iterate(&self, vv: &VersionVector, pattern: &str) -> (r: Vec<OwnedFloEvent>)
        ensures
            r@.map_values(|e: OwnedFloEvent| e@) == filter_events(
                self.events(),
                |e: EventView|
                    e.id.event_counter > seq_get(vv@, e.id.actor) && glob_matches(
                        pattern@,
                        e.namespace,
                    ),
            ),
    {
        self.store.iterate(vv, pattern)
    }
}

} // verus!
