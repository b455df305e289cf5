//! Version vectors: per-actor high-water counters. The invariant is at
//! most one entry per actor; merging a second marker for an actor that
//! already has one fails with `InvalidVersionVector`.

use vstd::prelude::*;
use crate::event::{ActorId, FloEventId};
use crate::wire::{vv_actors_unique, ErrorKind};

verus! {

/// The counter a sequence of entries records for an actor: its first
/// entry for that actor, or 0 when it has none.
pub open spec fn seq_get(s: Seq<FloEventId>, actor: ActorId) -> u64
    decreases s.len(),
{
    if s.len() == 0 {
        0
    } else if s[0].actor == actor {
        s[0].event_counter
    } else {
        seq_get(s.drop_first(), actor)
    }
}

/// Whether some entry names the actor.
pub open spec fn contains_actor(s: Seq<FloEventId>, actor: ActorId) -> bool {
    exists|i: int| 0 <= i < s.len() && s[i].actor == actor
}

/// The outcome of folding markers into a vector, one at a time: `None`
/// when some actor occurs twice among the non-zero markers.
pub open spec fn merged(s: Seq<FloEventId>) -> Option<Seq<FloEventId>>
    decreases s.len(),
{
    if s.len() == 0 {
        Some(Seq::empty())
    } else {
        match merged(s.drop_last()) {
            None => None,
            Some(acc) => {
                let id = s.last();
                if id.event_counter == 0 {
                    Some(acc)
                } else if contains_actor(acc, id.actor) {
                    None
                } else {
                    Some(acc.push(id))
                }
            },
        }
    }
}

/// Once some prefix of a marker list fails to merge, the whole list
/// fails.
proof fn lemma_merged_none_prefix(s: Seq<FloEventId>, k: int)
    requires
        0 <= k <= s.len(),
        merged(s.take(k)) is None,
    ensures
        merged(s) is None,
    decreases s.len() - k,
{
    if k == s.len() {
        assert(s.take(k) =~= s);
    } else {
        assert(s.take(k + 1).drop_last() =~= s.take(k));
        lemma_merged_none_prefix(s, k + 1);
    }
}

/// A set of non-zero event ids with at most one entry per actor.
#[derive(Debug, Clone)]
pub struct VersionVector {
    entries: Vec<FloEventId>,
}

impl View for VersionVector {
    type V = Seq<FloEventId>;

    closed spec fn view(&self) -> Seq<FloEventId> {
        self.entries@
    }
}

impl VersionVector {
    /// At most one entry per actor, and no zero counters.
    pub open spec fn wf(&self) -> bool {
        &&& vv_actors_unique(self@)
        &&& forall|i: int| 0 <= i < self@.len() ==> #[trigger] self@[i].event_counter > 0
    }

    pub fn new() -> (r: VersionVector)
        ensures
            r@ == Seq::<FloEventId>::empty(),
            r.wf(),
    {
        VersionVector { entries: Vec::new() }
    }

    /// The entries, for encoding into a cluster-state body.
    pub fn entries(&self) -> (r: &Vec<FloEventId>)
        ensures
            r@ == self@,
    {
        &self.entries
    }

    /// Whether the vector holds an entry for `actor`.
    pub fn has_actor(&self, actor: ActorId) -> (r: bool)
        ensures
            r == contains_actor(self@, actor),
    {
        let n = self.entries.len();
        let mut i: usize = 0;
        while i < n
            invariant
                n == self@.len(),
                0 <= i <= n,
                forall|j: int| 0 <= j < i ==> self@[j].actor != actor,
            decreases n - i,
        {
            if self.entries[i].actor == actor {
                return true;
            }
            i += 1;
        }
        false
    }

    /// The counter recorded for `actor`, or 0 when none is.
    pub fn get(&self, actor: ActorId) -> (r: u64)
        ensures
            r == seq_get(self@, actor),
    {
        proof {
            assert(self@.skip(0) =~= self@);
        }
        let n = self.entries.len();
        let mut i: usize = 0;
        while i < n
            invariant
                n == self@.len(),
                0 <= i <= n,
                seq_get(self@, actor) == seq_get(self@.skip(i as int), actor),
                forall|j: int| 0 <= j < i ==> self@[j].actor != actor,
            decreases n - i,
        {
            let ghost s = self@;
            proof {
                assert(s.skip(i as int)[0] == s[i as int]);
                assert(s.skip(i as int).drop_first() =~= s.skip(i as int + 1));
            }
            if self.entries[i].actor == actor {
                return self.entries[i].event_counter;
            }
            i += 1;
        }
        proof {
            assert(self@.skip(n as int).len() == 0);
        }
        0
    }

    /// Merges one marker. A zero counter carries nothing and is
    /// accepted unchanged; a second marker for an actor already present
    /// fails with `InvalidVersionVector`; otherwise the marker is
    /// recorded.
    pub fn add(&mut self, id: FloEventId) -> (r: Result<(), ErrorKind>)
        requires
            old(self).wf(),
        ensures
            final(self).wf(),
            id.event_counter == 0 ==> r is Ok && final(self)@ == old(self)@,
            id.event_counter > 0 && contains_actor(old(self)@, id.actor) ==> r
                == Err::<(), ErrorKind>(ErrorKind::InvalidVersionVector) && final(self)@ == old(
                self,
            )@,
            id.event_counter > 0 && !contains_actor(old(self)@, id.actor) ==> r is Ok
                && final(self)@ == old(self)@.push(id),
    {
        if id.event_counter == 0 {
            return Ok(());
        }
        if self.has_actor(id.actor) {
            return Err(ErrorKind::InvalidVersionVector);
        }
        self.entries.push(id);
        proof {
            let s = self@;
            assert forall|i: int, j: int| 0 <= i < j < s.len() implies s[i].actor != s[j].actor by {
                if j == s.len() - 1 {
                    assert(!contains_actor(old(self)@, id.actor));
                    assert(s[i] == old(self)@[i]);
                }
            }
        }
        Ok(())
    }

    /// Folds a list of markers into a vector: exactly what `merged`
    /// says, failing with `InvalidVersionVector` when any actor occurs
    /// twice among the non-zero markers.
    pub fn from_vec(ids: &Vec<FloEventId>) -> (r: Result<VersionVector, ErrorKind>)
        ensures
            match merged(ids@) {
                Some(m) => r matches Ok(v) && v@ == m && v.wf(),
                None => r == Err::<VersionVector, ErrorKind>(ErrorKind::InvalidVersionVector),
            },
    {
        let mut vv = VersionVector::new();
        let n = ids.len();
        let mut i: usize = 0;
        while i < n
            invariant
                n == ids@.len(),
                0 <= i <= n,
                vv.wf(),
                merged(ids@.take(i as int)) == Some(vv@),
            decreases n - i,
        {
            proof {
                assert(ids@.take(i as int + 1).drop_last() =~= ids@.take(i as int));
                assert(ids@.take(i as int + 1).last() == ids@[i as int]);
            }
            match vv.add(ids[i]) {
                Ok(()) => {},
                Err(e) => {
                    proof {
                        lemma_merged_none_prefix(ids@, i as int + 1);
                    }
                    return Err(e);
                },
            }
            i += 1;
        }
        proof {
            assert(ids@.take(n as int) =~= ids@);
        }
        Ok(vv)
    }
}


/// With unique actors, an entry's counter is what `seq_get` reads.
pub proof fn lemma_seq_get_at(s: Seq<FloEventId>, actor: ActorId, i: int)
    requires
        vv_actors_unique(s),
        0 <= i < s.len(),
        s[i].actor == actor,
    ensures
        seq_get(s, actor) == s[i].event_counter,
    decreases s.len(),
{
    if i == 0 {
    } else {
        assert(s[0].actor != actor);
        assert(s.drop_first()[i - 1] == s[i]);
        assert(vv_actors_unique(s.drop_first())) by {
            assert forall|a: int, c: int|
                0 <= a < c < s.drop_first().len() implies s.drop_first()[a].actor != s.drop_first(
            )[c].actor by {
                assert(s.drop_first()[a] == s[a + 1] && s.drop_first()[c] == s[c + 1]);
            }
        }
        lemma_seq_get_at(s.drop_first(), actor, i - 1);
    }
}

/// An absent actor reads as zero.
pub proof fn lemma_seq_get_absent(s: Seq<FloEventId>, actor: ActorId)
    requires
        !contains_actor(s, actor),
    ensures
        seq_get(s, actor) == 0,
    decreases s.len(),
{
    if s.len() > 0 {
        assert(s[0].actor != actor);
        assert(!contains_actor(s.drop_first(), actor)) by {
            assert forall|i: int|
                0 <= i < s.drop_first().len() implies s.drop_first()[i].actor != actor by {
                assert(s.drop_first()[i] == s[i + 1]);
            }
        }
        lemma_seq_get_absent(s.drop_first(), actor);
    }
}

impl VersionVector {
    /// Raises the entry for `id`'s actor to at least `id`'s counter: the
    /// recorded counter becomes the maximum of the two, and no other
    /// actor's entry moves.
    pub fn observe(&mut self, id: FloEventId)
        requires
            old(self).wf(),
        ensures
            final(self).wf(),
            forall|a: ActorId| #![auto]
                seq_get(final(self)@, a) == if a == id.actor {
                    vstd::math::max(seq_get(old(self)@, a) as int, id.event_counter as int) as u64
                } else {
                    seq_get(old(self)@, a)
                },
    {
        if id.event_counter == 0 {
            proof {
                assert forall|a: ActorId| #![auto]
                    seq_get(self@, a) == (if a == id.actor {
                        vstd::math::max(seq_get(old(self)@, a) as int, 0) as u64
                    } else {
                        seq_get(old(self)@, a)
                    }) by {}
            }
            return ;
        }
        let ghost olds = self@;
        let n = self.entries.len();
        let mut i: usize = 0;
        while i < n
            invariant
                n == self@.len(),
                0 <= i <= n,
                olds == self@,
                old(self)@ == self@,
                old(self).wf(),
                id.event_counter > 0,
                forall|j: int| 0 <= j < i ==> self@[j].actor != id.actor,
            decreases n - i,
        {
            if self.entries[i].actor == id.actor {
                proof {
                    lemma_seq_get_at(olds, id.actor, i as int);
                }
                if id.event_counter > self.entries[i].event_counter {
                    self.entries[i] = id;
                    proof {
                        let news = self@;
                        assert(news =~= olds.update(i as int, id));
                        assert(vv_actors_unique(news)) by {
                            assert forall|a: int, c: int|
                                0 <= a < c < news.len() implies news[a].actor != news[c].actor by {
                                assert(news[a].actor == olds[a].actor);
                                assert(news[c].actor == olds[c].actor);
                            }
                        }
                        lemma_seq_get_at(news, id.actor, i as int);
                        assert forall|a: ActorId| #![auto] a != id.actor implies seq_get(news, a)
                            == seq_get(olds, a) by {
                            if contains_actor(olds, a) {
                                let j = choose|j: int|
                                    0 <= j < olds.len() && olds[j].actor == a;
                                assert(news[j].actor == a && news[j].event_counter == olds[
                                    j
                                ].event_counter);
                                lemma_seq_get_at(olds, a, j);
                                lemma_seq_get_at(news, a, j);
                            } else {
                                assert(!contains_actor(news, a)) by {
                                    assert forall|k: int|
                                        0 <= k < news.len() implies news[k].actor != a by {
                                        assert(news[k].actor == olds[k].actor);
                                    }
                                }
                                lemma_seq_get_absent(olds, a);
                                lemma_seq_get_absent(news, a);
                            }
                        }
                    }
                } else {
                    proof {
                        assert(vstd::math::max(seq_get(olds, id.actor) as int,
                            id.event_counter as int) == seq_get(olds, id.actor) as int);
                    }
                }
                return ;
            }
            i += 1;
        }
        proof {
            assert(!contains_actor(olds, id.actor));
            lemma_seq_get_absent(olds, id.actor);
        }
        self.entries.push(id);
        proof {
            let news = self@;
            assert(news =~= olds.push(id));
            assert(vv_actors_unique(news)) by {
                assert forall|a: int, c: int|
                    0 <= a < c < news.len() implies news[a].actor != news[c].actor by {
                    if c == news.len() - 1 {
                        assert(news[a] == olds[a]);
                    } else {
                        assert(news[a] == olds[a] && news[c] == olds[c]);
                    }
                }
            }
            lemma_seq_get_at(news, id.actor, news.len() - 1);
            assert forall|a: ActorId| #![auto] a != id.actor implies seq_get(news, a) == seq_get(
                olds,
                a,
            ) by {
                if contains_actor(olds, a) {
                    let j = choose|j: int| 0 <= j < olds.len() && olds[j].actor == a;
                    lemma_seq_get_at(olds, a, j);
                    lemma_seq_get_at(news, a, j);
                } else {
                    assert(!contains_actor(news, a)) by {
                        assert forall|k: int| 0 <= k < news.len() implies news[k].actor != a by {
                            if k < news.len() - 1 {
                                assert(news[k] == olds[k]);
                            }
                        }
                    }
                    lemma_seq_get_absent(olds, a);
                    lemma_seq_get_absent(news, a);
                }
            }
        }
    }
}

} // verus!
