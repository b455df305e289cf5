//! Peer replication: what one replica sends another after an announce,
//! how arriving remote events are merged idempotently, and the law that
//! one full exchange makes both stores agree on every actor's high-water
//! counter. Membership bookkeeping for the cluster lives here too.

use vstd::prelude::*;
use crate::codec::{ClusterMember, ClusterState};
use crate::event::{ActorId, EventView, FloEventId, OwnedFloEvent};
use crate::store::{filter_events, lemma_highest_attained, spec_highest, store_wf, EventStore};
use crate::versionvec::{seq_get, VersionVector};
use crate::wire::MemberView;

verus! {

/// The store after merging a list of remote events in order: an event is
/// appended exactly when its counter tops what the store already holds
/// for its actor; duplicates are discarded.
pub open spec fn apply_remote(s: Seq<EventView>, evs: Seq<EventView>) -> Seq<EventView>
    decreases evs.len(),
{
    if evs.len() == 0 {
        s
    } else {
        let s2 = apply_remote(s, evs.drop_last());
        let e = evs.last();
        if e.id.event_counter > spec_highest(s2, e.id.actor) {
            s2.push(e)
        } else {
            s2
        }
    }
}

/// One exchange converges the receiver: after a store merges every event
/// the sender holds above the receiver's announced version vector, the
/// receiver's high-water mark for every actor is the pointwise maximum
/// of the two stores'. Run symmetrically, both replicas then satisfy
/// `highest_counter(a) == max(local(a), remote(a))` for every actor.
pub proof fn lemma_exchange_converges(a: Seq<EventView>, b: Seq<EventView>, vv: Seq<FloEventId>)
    requires
        store_wf(b),
        forall|ac: ActorId| #![auto] seq_get(vv, ac) == spec_highest(a, ac),
    ensures
        forall|ac: ActorId| #![auto]
            spec_highest(
                apply_remote(
                    a,
                    filter_events(b, |e: EventView| e.id.event_counter > seq_get(vv, e.id.actor)),
                ),
                ac,
            ) == vstd::math::max(spec_highest(a, ac) as int, spec_highest(b, ac) as int),
    decreases b.len(),
{
    let f = |e: EventView| e.id.event_counter > seq_get(vv, e.id.actor);
    if b.len() == 0 {
        assert(filter_events(b, f) =~= Seq::<EventView>::empty());
        assert forall|ac: ActorId| #![auto]
            spec_highest(apply_remote(a, filter_events(b, f)), ac) == vstd::math::max(
                spec_highest(a, ac) as int,
                spec_highest(b, ac) as int,
            ) by {
            assert(spec_highest(b, ac) == 0);
        }
    } else {
        let b0 = b.drop_last();
        let e = b.last();
        assert(store_wf(b0)) by {
            assert(forall|i: int| 0 <= i < b0.len() ==> b0[i] == b[i]);
        }
        lemma_exchange_converges(a, b0, vv);
        let evs0 = filter_events(b0, f);
        let s2 = apply_remote(a, evs0);
        // the sender's last event tops everything it stored earlier for
        // its actor
        assert(e.id.event_counter > spec_highest(b0, e.id.actor)) by {
            lemma_highest_attained(b0, e.id.actor);
            if spec_highest(b0, e.id.actor) != 0 {
                let j = choose|j: int|
                    0 <= j < b0.len() && b0[j].id.actor == e.id.actor && b0[j].id.event_counter
                        == spec_highest(b0, e.id.actor);
                assert(b[j] == b0[j]);
                assert(b[j].id.event_counter < e.id.event_counter);
            }
        }
        if f(e) {
            assert(filter_events(b, f) == evs0.push(e));
            assert(evs0.push(e).drop_last() =~= evs0);
            assert(evs0.push(e).last() == e);
            assert(e.id.event_counter > spec_highest(s2, e.id.actor));
            let s3 = s2.push(e);
            assert(apply_remote(a, filter_events(b, f)) == s3);
            assert forall|ac: ActorId| #![auto]
                spec_highest(s3, ac) == vstd::math::max(
                    spec_highest(a, ac) as int,
                    spec_highest(b, ac) as int,
                ) by {
                assert(s3.drop_last() =~= s2);
                assert(b.drop_last() =~= b0);
            }
        } else {
            assert(filter_events(b, f) == evs0);
            assert forall|ac: ActorId| #![auto]
                spec_highest(s2, ac) == vstd::math::max(
                    spec_highest(a, ac) as int,
                    spec_highest(b, ac) as int,
                ) by {
                assert(b.drop_last() =~= b0);
                assert(e.id.event_counter <= seq_get(vv, e.id.actor));
            }
        }
    }
}

/// Merges events arriving from a peer into the local store, in order,
/// preserving each event's original id: an event is persisted exactly
/// when its counter tops what the store holds for its actor; an
/// already-stored counter is discarded, so a second delivery changes
/// nothing.
pub fn apply_remote_events(store: &mut EventStore, events: &Vec<OwnedFloEvent>)
    requires
        old(store).wf(),
        forall|i: int| 0 <= i < events@.len() ==> #[trigger] events@[i]@.id.event_counter > 0,
    ensures
        final(store).wf(),
        final(store)@ == apply_remote(old(store)@, events@.map_values(|e: OwnedFloEvent| e@)),
{
    let ghost evs = events@.map_values(|e: OwnedFloEvent| e@);
    let n = events.len();
    let mut i: usize = 0;
    proof {
        assert(evs.take(0) =~= Seq::<EventView>::empty());
    }
    while i < n
        invariant
            n == events@.len(),
            evs == events@.map_values(|e: OwnedFloEvent| e@),
            forall|k: int| 0 <= k < evs.len() ==> #[trigger] evs[k].id.event_counter > 0,
            0 <= i <= n,
            store.wf(),
            store@ == apply_remote(old(store)@, evs.take(i as int)),
        decreases n - i,
    {
        proof {
            assert(evs.take(i as int + 1).drop_last() =~= evs.take(i as int));
            assert(evs.take(i as int + 1).last() == evs[i as int]);
            assert(evs[i as int] == events@[i as int]@);
        }
        let e = &events[i];
        let h = store.highest_counter(e.id.actor);
        if e.id.event_counter > h {
            store.append(crate::event::clone_event(e));
        }
        i += 1;
    }
    proof {
        assert(evs.take(n as int) =~= evs);
    }
}

/// The first membership entry for an actor, or none.
pub open spec fn member_entry(s: Seq<MemberView>, actor: ActorId) -> Option<MemberView>
    decreases s.len(),
{
    if s.len() == 0 {
        None
    } else if s[0].actor_id == actor {
        Some(s[0])
    } else {
        member_entry(s.drop_first(), actor)
    }
}

/// The membership list with one member recorded: its actor's first entry
/// replaced, or the member appended when that actor had none.
pub open spec fn record_m(s: Seq<MemberView>, m: MemberView) -> Seq<MemberView>
    decreases s.len(),
{
    if s.len() == 0 {
        seq![m]
    } else if s[0].actor_id == m.actor_id {
        seq![m] + s.drop_first()
    } else {
        seq![s[0]] + record_m(s.drop_first(), m)
    }
}

/// With unique actors, recording replaces exactly the matching entry.
proof fn lemma_record_m_update(s: Seq<MemberView>, i: int, m: MemberView)
    requires
        forall|a: int, c: int| 0 <= a < c < s.len() ==> s[a].actor_id != s[c].actor_id,
        0 <= i < s.len(),
        s[i].actor_id == m.actor_id,
    ensures
        record_m(s, m) == s.update(i, m),
    decreases s.len(),
{
    if i == 0 {
        assert(seq![m] + s.drop_first() =~= s.update(0, m));
    } else {
        assert(s[0].actor_id != m.actor_id);
        let t = s.drop_first();
        assert(t[i - 1] == s[i]);
        assert(forall|a: int, c: int|
            0 <= a < c < t.len() ==> t[a].actor_id != t[c].actor_id) by {
            assert(forall|a: int| 0 <= a < t.len() ==> t[a] == s[a + 1]);
        }
        lemma_record_m_update(t, i - 1, m);
        assert(seq![s[0]] + t.update(i - 1, m) =~= s.update(i, m));
    }
}

/// Recording an actor that has no entry appends the member.
proof fn lemma_record_m_push(s: Seq<MemberView>, m: MemberView)
    requires
        forall|j: int| 0 <= j < s.len() ==> s[j].actor_id != m.actor_id,
    ensures
        record_m(s, m) == s.push(m),
    decreases s.len(),
{
    if s.len() == 0 {
        assert(seq![m] =~= Seq::<MemberView>::empty().push(m));
    } else {
        let t = s.drop_first();
        assert(forall|j: int| 0 <= j < t.len() ==> t[j] == s[j + 1]);
        lemma_record_m_push(t, m);
        assert(seq![s[0]] + t.push(m) =~= s.push(m));
    }
}

/// The membership and dial list after folding one announce's member
/// list: each announced member is added, disconnected and at its
/// announced address, exactly when it is neither this replica nor the
/// sender nor already recorded; the dial list collects the added
/// addresses in announce order.
pub open spec fn announce_fold(
    members: Seq<MemberView>,
    self_id: ActorId,
    sender: ActorId,
    announced: Seq<MemberView>,
) -> (Seq<MemberView>, Seq<Seq<char>>)
    decreases announced.len(),
{
    if announced.len() == 0 {
        (members, Seq::empty())
    } else {
        let (ms, addrs) = announce_fold(members, self_id, sender, announced.drop_last());
        let m = announced.last();
        if m.actor_id != self_id && m.actor_id != sender && member_entry(ms, m.actor_id) is None {
            (
                ms.push(MemberView { actor_id: m.actor_id, addr: m.addr, connected: false }),
                addrs.push(m.addr),
            )
        } else {
            (ms, addrs)
        }
    }
}

/// What digesting an announce leaves behind: the sender recorded as
/// connected at the address it was reached at, then the announced
/// members folded in.
pub open spec fn apply_announce_spec(
    members: Seq<MemberView>,
    self_id: ActorId,
    sender_addr: Seq<char>,
    cs: crate::wire::ClusterStateView,
) -> (Seq<MemberView>, Seq<Seq<char>>) {
    announce_fold(
        record_m(
            members,
            MemberView { actor_id: cs.actor_id, addr: sender_addr, connected: true },
        ),
        self_id,
        cs.actor_id,
        cs.other_members,
    )
}

/// One replica's record of the other cluster members: the address each
/// is reachable at and whether it is currently connected, at most one
/// entry per actor.
#[derive(Debug)]
pub struct ClusterManager {
    pub actor_id: ActorId,
    pub actor_port: u16,
    pub members: Vec<ClusterMember>,
}

impl ClusterManager {
    pub open spec fn members_view(&self) -> Seq<MemberView> {
        self.members@.map_values(|m: ClusterMember| m@)
    }

    pub open spec fn wf(&self) -> bool {
        forall|i: int, j: int|
            0 <= i < j < self.members_view().len() ==> self.members_view()[i].actor_id
                != self.members_view()[j].actor_id
    }

    pub fn new(actor_id: ActorId, actor_port: u16) -> (r: ClusterManager)
        ensures
            r.wf(),
            r.actor_id == actor_id,
            r.actor_port == actor_port,
            r.members_view() == Seq::<MemberView>::empty(),
    {
        let m = ClusterManager { actor_id, actor_port, members: Vec::new() };
        proof {
            assert(m.members_view() =~= Seq::<MemberView>::empty());
        }
        m
    }

    /// The members as recorded, for building a cluster-state snapshot.
    pub fn members(&self) -> (r: &Vec<ClusterMember>)
        ensures
            r@.map_values(|m: ClusterMember| m@) == self.members_view(),
    {
        &self.members
    }

    /// Records what is now known of one peer: its entry is replaced, or
    /// added if it had none; no other actor's entry moves.
    pub fn record_peer(&mut self, actor_id: ActorId, addr: String, connected: bool)
        requires
            old(self).wf(),
        ensures
            final(self).wf(),
            final(self).actor_id == old(self).actor_id,
            final(self).actor_port == old(self).actor_port,
            final(self).members_view() == record_m(
                old(self).members_view(),
                MemberView { actor_id, addr: addr@, connected },
            ),
            member_entry(final(self).members_view(), actor_id) == Some(
                MemberView { actor_id, addr: addr@, connected },
            ),
            forall|a: ActorId| #![auto]
                a != actor_id ==> member_entry(final(self).members_view(), a) == member_entry(
                    old(self).members_view(),
                    a,
                ),
    {
        let ghost olds = self.members_view();
        let ghost mv = MemberView { actor_id, addr: addr@, connected };
        let n = self.members.len();
        let mut i: usize = 0;
        while i < n
            invariant
                n == self.members@.len(),
                olds == self.members_view(),
                old(self).members_view() == self.members_view(),
                old(self).wf(),
                self.actor_id == old(self).actor_id,
                self.actor_port == old(self).actor_port,
                mv == (MemberView { actor_id, addr: addr@, connected }),
                0 <= i <= n,
                forall|j: int| 0 <= j < i ==> self.members_view()[j].actor_id != actor_id,
            decreases n - i,
        {
            if self.members[i].actor_id == actor_id {
                let ghost prevvec = self.members@;
                proof {
                    assert(olds[i as int] == prevvec[i as int]@);
                }
                let replacement = ClusterMember { addr: addr.clone(), actor_id, connected };
                let ghost repl = replacement;
                self.members[i] = replacement;
                proof {
                    assert(self.members@ == prevvec.update(i as int, repl));
                    assert(repl@ == mv) by {
                        assert(repl@.addr == addr@);
                    }
                    let news = self.members_view();
                    assert forall|j: int| 0 <= j < news.len() implies news[j] == olds.update(
                        i as int,
                        mv,
                    )[j] by {
                        assert(news[j] == self.members@[j]@);
                        if j == i {
                            assert(self.members@[j] == repl);
                        } else {
                            assert(self.members@[j] == prevvec[j]);
                            assert(olds[j] == prevvec[j]@);
                        }
                    }
                    assert(news =~= olds.update(i as int, mv));
                    lemma_member_update(olds, news, i as int, mv);
                    lemma_record_m_update(olds, i as int, mv);
                }
                return ;
            }
            i += 1;
        }
        proof {
            assert(forall|j: int| 0 <= j < olds.len() ==> olds[j].actor_id != actor_id);
        }
        self.members.push(ClusterMember { addr, actor_id, connected });
        proof {
            let news = self.members_view();
            assert forall|j: int| 0 <= j < news.len() implies news[j] == olds.push(mv)[j] by {
                assert(news[j] == self.members@[j]@);
            }
            assert(news =~= olds.push(mv));
            lemma_member_push(olds, news, mv);
            lemma_record_m_push(olds, mv);
        }
    }

    /// Flips a peer to disconnected, keeping its recorded address; an
    /// unknown actor changes nothing.
    pub fn mark_disconnected(&mut self, actor_id: ActorId)
        requires
            old(self).wf(),
        ensures
            final(self).wf(),
            final(self).actor_id == old(self).actor_id,
            final(self).actor_port == old(self).actor_port,
            match member_entry(old(self).members_view(), actor_id) {
                Some(m) => member_entry(final(self).members_view(), actor_id) == Some(
                    MemberView { actor_id: m.actor_id, addr: m.addr, connected: false },
                ),
                None => final(self).members_view() == old(self).members_view(),
            },
            forall|a: ActorId| #![auto]
                a != actor_id ==> member_entry(final(self).members_view(), a) == member_entry(
                    old(self).members_view(),
                    a,
                ),
    {
        let ghost olds = self.members_view();
        let n = self.members.len();
        let mut i: usize = 0;
        while i < n
            invariant
                n == self.members@.len(),
                olds == self.members_view(),
                old(self).members_view() == self.members_view(),
                old(self).wf(),
                self.actor_id == old(self).actor_id,
                self.actor_port == old(self).actor_port,
                0 <= i <= n,
                forall|j: int| 0 <= j < i ==> self.members_view()[j].actor_id != actor_id,
            decreases n - i,
        {
            if self.members[i].actor_id == actor_id {
                let addr = self.members[i].addr.clone();
                let ghost prevvec = self.members@;
                proof {
                    assert(olds[i as int] == prevvec[i as int]@);
                    lemma_member_at(olds, actor_id, i as int);
                }
                let ghost mv = MemberView { actor_id, addr: addr@, connected: false };
                let replacement = ClusterMember { addr, actor_id, connected: false };
                let ghost repl = replacement;
                self.members[i] = replacement;
                proof {
                    assert(self.members@ == prevvec.update(i as int, repl));
                    assert(repl@ == mv);
                    let news = self.members_view();
                    assert forall|j: int| 0 <= j < news.len() implies news[j] == olds.update(
                        i as int,
                        mv,
                    )[j] by {
                        assert(news[j] == self.members@[j]@);
                        if j == i {
                            assert(self.members@[j] == repl);
                        } else {
                            assert(self.members@[j] == prevvec[j]);
                            assert(olds[j] == prevvec[j]@);
                        }
                    }
                    assert(news =~= olds.update(i as int, mv));
                    lemma_member_update(olds, news, i as int, mv);
                }
                return ;
            }
            i += 1;
        }
        proof {
            assert(forall|j: int| 0 <= j < olds.len() ==> olds[j].actor_id != actor_id);
            lemma_member_absent(olds, actor_id);
        }
    }

    /// Digests a peer's announce or update: the sender's actor id is
    /// authoritative for the address it was reached at, and members the
    /// sender knows that this replica does not are added, disconnected,
    /// to be dialled. Returns the addresses of the newly added members.
    pub fn apply_peer_announce(&mut self, sender_addr: String, state: &ClusterState) -> (r: Vec<
        String,
    >)
        requires
            old(self).wf(),
        ensures
            final(self).wf(),
            final(self).actor_id == old(self).actor_id,
            final(self).actor_port == old(self).actor_port,
            final(self).members_view() == apply_announce_spec(
                old(self).members_view(),
                old(self).actor_id,
                sender_addr@,
                state@,
            ).0,
            r@.map_values(|a: String| a@) == apply_announce_spec(
                old(self).members_view(),
                old(self).actor_id,
                sender_addr@,
                state@,
            ).1,
            member_entry(final(self).members_view(), state.actor_id) == Some(
                MemberView { actor_id: state.actor_id, addr: sender_addr@, connected: true },
            ),
            forall|a: ActorId| #![auto]
                a != state.actor_id && member_entry(old(self).members_view(), a) is Some
                    ==> member_entry(final(self).members_view(), a) == member_entry(
                    old(self).members_view(),
                    a,
                ),
    {
        let ghost saddr = sender_addr@;
        let ghost oldms = self.members_view();
        self.record_peer(state.actor_id, sender_addr, true);
        let ghost after_sender = self.members_view();
        proof {
            assert(after_sender == record_m(
                oldms,
                MemberView { actor_id: state.actor_id, addr: saddr, connected: true },
            ));
        }
        let mut discovered: Vec<String> = Vec::new();
        let n = state.other_members.len();
        let mut i: usize = 0;
        proof {
            assert(state@.other_members.take(0) =~= Seq::<MemberView>::empty());
            assert(discovered@.map_values(|a: String| a@) =~= Seq::<Seq<char>>::empty());
        }
        while i < n
            invariant
                n == state.other_members@.len(),
                state@.other_members.len() == n,
                self.wf(),
                self.actor_id == old(self).actor_id,
                self.actor_port == old(self).actor_port,
                0 <= i <= n,
                (self.members_view(), discovered@.map_values(|a: String| a@)) == announce_fold(
                    after_sender,
                    old(self).actor_id,
                    state.actor_id,
                    state@.other_members.take(i as int),
                ),
                member_entry(self.members_view(), state.actor_id) == member_entry(
                    after_sender,
                    state.actor_id,
                ),
                forall|a: ActorId| #![auto]
                    member_entry(after_sender, a) is Some ==> member_entry(
                        self.members_view(),
                        a,
                    ) == member_entry(after_sender, a),
            decreases n - i,
        {
            let ghost anns = state@.other_members;
            let ghost prev_ms = self.members_view();
            let ghost prev_addrs = discovered@.map_values(|a: String| a@);
            proof {
                assert(anns.take(i as int + 1).drop_last() =~= anns.take(i as int));
                assert(anns.take(i as int + 1).last() == anns[i as int]);
                assert(anns[i as int] == state.other_members@[i as int]@);
            }
            let m = &state.other_members[i];
            if m.actor_id != self.actor_id && m.actor_id != state.actor_id && !self.has_member(
                m.actor_id,
            ) {
                discovered.push(m.addr.clone());
                let ghost mv = MemberView {
                    actor_id: m.actor_id,
                    addr: m.addr@,
                    connected: false,
                };
                self.record_peer(m.actor_id, m.addr.clone(), false);
                proof {
                    assert(forall|j: int|
                        0 <= j < prev_ms.len() ==> prev_ms[j].actor_id != mv.actor_id) by {
                        if exists|j: int|
                            0 <= j < prev_ms.len() && prev_ms[j].actor_id == mv.actor_id {
                            let j = choose|j: int|
                                0 <= j < prev_ms.len() && prev_ms[j].actor_id == mv.actor_id;
                            lemma_member_at(prev_ms, mv.actor_id, j);
                        }
                    }
                    lemma_record_m_push(prev_ms, mv);
                    assert(discovered@.map_values(|a: String| a@) =~= prev_addrs.push(
                        anns[i as int].addr,
                    ));
                }
            }
            i += 1;
        }
        proof {
            assert(state@.other_members.take(n as int) =~= state@.other_members);
        }
        discovered
    }

    /// Whether an actor has a membership entry.
    pub fn has_member(&self, actor_id: ActorId) -> (r: bool)
        ensures
            r == (member_entry(self.members_view(), actor_id) is Some),
    {
        let n = self.members.len();
        let mut i: usize = 0;
        while i < n
            invariant
                n == self.members@.len(),
                0 <= i <= n,
                forall|j: int| 0 <= j < i ==> self.members_view()[j].actor_id != actor_id,
            decreases n - i,
        {
            if self.members[i].actor_id == actor_id {
                proof {
                    lemma_member_at_some(self.members_view(), actor_id, i as int);
                }
                return true;
            }
            i += 1;
        }
        proof {
            lemma_member_absent(self.members_view(), actor_id);
        }
        false
    }

    /// A snapshot of this replica's view of the cluster, ready to send
    /// in a `PeerAnnounce` or `PeerUpdate`.
    pub fn cluster_state(&self, vv: &VersionVector) -> (r: ClusterState)
        ensures
            r.actor_id == self.actor_id,
            r.actor_port == self.actor_port,
            r.version_vector@ == vv@,
            r@.other_members == self.members_view(),
    {
        let mut members: Vec<ClusterMember> = Vec::new();
        let n = self.members.len();
        let mut i: usize = 0;
        while i < n
            invariant
                n == self.members@.len(),
                0 <= i <= n,
                members@.map_values(|m: ClusterMember| m@) == self.members_view().take(i as int),
            decreases n - i,
        {
            let ghost prev = members@.map_values(|m: ClusterMember| m@);
            let m = &self.members[i];
            members.push(ClusterMember { addr: m.addr.clone(), actor_id: m.actor_id, connected: m.connected });
            proof {
                assert(members@.map_values(|m2: ClusterMember| m2@) =~= prev.push(
                    self.members_view()[i as int],
                ));
                assert(prev.push(self.members_view()[i as int]) =~= self.members_view().take(
                    i as int + 1,
                ));
            }
            i += 1;
        }
        proof {
            assert(self.members_view().take(n as int) =~= self.members_view());
        }
        let mut ids: Vec<FloEventId> = Vec::new();
        let entries = vv.entries();
        let k = entries.len();
        let mut j: usize = 0;
        while j < k
            invariant
                k == entries@.len(),
                entries@ == vv@,
                0 <= j <= k,
                ids@ == vv@.take(j as int),
            decreases k - j,
        {
            ids.push(entries[j]);
            proof {
                assert(ids@ =~= vv@.take(j as int + 1));
            }
            j += 1;
        }
        proof {
            assert(vv@.take(k as int) =~= vv@);
        }
        ClusterState {
            actor_id: self.actor_id,
            actor_port: self.actor_port,
            version_vector: ids,
            other_members: members,
        }
    }
}

/// With unique actors, the entry at a matching index is what
/// `member_entry` finds.
proof fn lemma_member_at(s: Seq<MemberView>, actor: ActorId, i: int)
    requires
        forall|a: int, c: int| 0 <= a < c < s.len() ==> s[a].actor_id != s[c].actor_id,
        0 <= i < s.len(),
        s[i].actor_id == actor,
    ensures
        member_entry(s, actor) == Some(s[i]),
    decreases s.len(),
{
    if i > 0 {
        assert(s[0].actor_id != actor);
        let t = s.drop_first();
        assert(t[i - 1] == s[i]);
        assert(forall|a: int, c: int|
            0 <= a < c < t.len() ==> t[a].actor_id != t[c].actor_id) by {
            assert(forall|a: int| 0 <= a < t.len() ==> t[a] == s[a + 1]);
        }
        lemma_member_at(t, actor, i - 1);
    }
}

proof fn lemma_member_at_some(s: Seq<MemberView>, actor: ActorId, i: int)
    requires
        0 <= i < s.len(),
        s[i].actor_id == actor,
    ensures
        member_entry(s, actor) is Some,
    decreases s.len(),
{
    if s[0].actor_id != actor {
        let t = s.drop_first();
        assert(t[i - 1] == s[i]);
        lemma_member_at_some(t, actor, i - 1);
    }
}

proof fn lemma_member_absent(s: Seq<MemberView>, actor: ActorId)
    requires
        forall|j: int| 0 <= j < s.len() ==> s[j].actor_id != actor,
    ensures
        member_entry(s, actor) is None,
    decreases s.len(),
{
    if s.len() > 0 {
        let t = s.drop_first();
        assert(forall|j: int| 0 <= j < t.len() ==> t[j] == s[j + 1]);
        lemma_member_absent(t, actor);
    }
}

/// Updating the unique entry of an actor changes only that actor's
/// reading.
proof fn lemma_member_update(olds: Seq<MemberView>, news: Seq<MemberView>, i: int, mv: MemberView)
    requires
        forall|a: int, c: int| 0 <= a < c < olds.len() ==> olds[a].actor_id != olds[c].actor_id,
        0 <= i < olds.len(),
        olds[i].actor_id == mv.actor_id,
        news == olds.update(i, mv),
    ensures
        forall|a: int, c: int| 0 <= a < c < news.len() ==> news[a].actor_id != news[c].actor_id,
        member_entry(news, mv.actor_id) == Some(mv),
        forall|a: ActorId| #![auto]
            a != mv.actor_id ==> member_entry(news, a) == member_entry(olds, a),
{
    assert(forall|j: int| 0 <= j < news.len() ==> news[j].actor_id == olds[j].actor_id);
    lemma_member_at(news, mv.actor_id, i);
    assert forall|a: ActorId| #![auto] a != mv.actor_id implies member_entry(news, a)
        == member_entry(olds, a) by {
        if exists|j: int| 0 <= j < olds.len() && olds[j].actor_id == a {
            let j = choose|j: int| 0 <= j < olds.len() && olds[j].actor_id == a;
            assert(news[j] == olds[j]);
            lemma_member_at(olds, a, j);
            lemma_member_at(news, a, j);
        } else {
            lemma_member_absent(olds, a);
            lemma_member_absent(news, a);
        }
    }
}

/// Adding an entry for a new actor changes only that actor's reading.
proof fn lemma_member_push(olds: Seq<MemberView>, news: Seq<MemberView>, mv: MemberView)
    requires
        forall|a: int, c: int| 0 <= a < c < olds.len() ==> olds[a].actor_id != olds[c].actor_id,
        forall|j: int| 0 <= j < olds.len() ==> olds[j].actor_id != mv.actor_id,
        news == olds.push(mv),
    ensures
        forall|a: int, c: int| 0 <= a < c < news.len() ==> news[a].actor_id != news[c].actor_id,
        member_entry(news, mv.actor_id) == Some(mv),
        forall|a: ActorId| #![auto]
            a != mv.actor_id ==> member_entry(news, a) == member_entry(olds, a),
{
    assert forall|a: int, c: int| 0 <= a < c < news.len() implies news[a].actor_id != news[
        c
    ].actor_id by {
        if c == news.len() - 1 {
            assert(news[a] == olds[a]);
        } else {
            assert(news[a] == olds[a] && news[c] == olds[c]);
        }
    }
    lemma_member_at(news, mv.actor_id, news.len() - 1);
    assert forall|a: ActorId| #![auto] a != mv.actor_id implies member_entry(news, a)
        == member_entry(olds, a) by {
        if exists|j: int| 0 <= j < olds.len() && olds[j].actor_id == a {
            let j = choose|j: int| 0 <= j < olds.len() && olds[j].actor_id == a;
            assert(news[j] == olds[j]);
            lemma_member_at(olds, a, j);
            lemma_member_at(news, a, j);
        } else {
            lemma_member_absent(olds, a);
            assert(forall|j: int| 0 <= j < news.len() ==> news[j].actor_id != a) by {
                assert(forall|j: int| 0 <= j < olds.len() ==> news[j] == olds[j]);
            }
            lemma_member_absent(news, a);
        }
    }
}

} // verus!
