//! The turn scheduler: an ordered, conceptually circular queue of live
//! entity ids plus an optional current actor. The first `next_turn` after a
//! reset picks the front without rotating, so the initial actor acts before
//! any rotation occurs; every later call rotates left by one.

use vstd::prelude::*;
use crate::entity::EntityId;
use std::collections::VecDeque;

verus! {

/// One `next_turn` step on the abstract scheduler state: an empty queue
/// clears the current actor; a missing current actor is set to the front
/// without rotating; otherwise the queue rotates left by one and the new
/// front becomes current.
pub open spec fn spec_next_turn(q: Seq<EntityId>, cur: Option<EntityId>) -> (Seq<EntityId>, Option<
    EntityId,
>) {
    if q.len() == 0 {
        (q, None::<EntityId>)
    } else if cur is None {
        (q, Some(q[0]))
    } else {
        let q2 = q.skip(1).push(q[0]);
        (q2, Some(q2[0]))
    }
}

/// The scheduler state after `k` calls of `next_turn`, starting from queue
/// `q0` with no current actor (the state `initialize` leaves behind).
pub open spec fn turn_state(q0: Seq<EntityId>, k: nat) -> (Seq<EntityId>, Option<EntityId>)
    decreases k,
{
    if k == 0 {
        (q0, None::<EntityId>)
    } else {
        let prev = turn_state(q0, (k - 1) as nat);
        spec_next_turn(prev.0, prev.1)
    }
}

/// The queue with every occurrence of `drop` deleted, order kept.
pub open spec fn without_id(q: Seq<EntityId>, drop: EntityId) -> Seq<EntityId>
    decreases q.len(),
{
    if q.len() == 0 {
        Seq::empty()
    } else {
        let rest = without_id(q.drop_last(), drop);
        if q.last() == drop {
            rest
        } else {
            rest.push(q.last())
        }
    }
}

/// Deleting an id keeps every other queued id.
pub proof fn lemma_without_id_keeps(q: Seq<EntityId>, drop: EntityId, c: EntityId)
    requires
        q.contains(c),
        c != drop,
    ensures
        without_id(q, drop).contains(c),
    decreases q.len(),
{
    if q.len() > 0 {
        if q.last() == c {
            assert(without_id(q, drop).last() == c);
        } else {
            let i = choose|i: int| 0 <= i < q.len() && q[i] == c;
            assert(q.drop_last()[i] == c);
            lemma_without_id_keeps(q.drop_last(), drop, c);
            let j = choose|j: int|
                0 <= j < without_id(q.drop_last(), drop).len() && without_id(q.drop_last(), drop)[j]
                    == c;
            assert(without_id(q, drop)[j] == c);
        }
    }
}

/// The queue rotated left by `m`.
pub open spec fn rot(q: Seq<EntityId>, m: int) -> Seq<EntityId> {
    q.skip(m) + q.take(m)
}

pub struct TurnManager {
    turn_queue: VecDeque<EntityId>,
    current: Option<EntityId>,
}

impl TurnManager {
    /// The ordered queue of ids that will take turns.
    pub closed spec fn queue(&self) -> Seq<EntityId> {
        self.turn_queue@
    }

    /// The entity currently taking its turn, if any.
    pub closed spec fn spec_current(&self) -> Option<EntityId> {
        self.current
    }

    /// Scheduler invariant: the current actor, when present, is a member
    /// of the queue.
    pub open spec fn wf(&self) -> bool {
        self.spec_current() matches Some(c) ==> self.queue().contains(c)
    }

    pub fn new() -> (r: Self)
        ensures
            r.queue() == Seq::<EntityId>::empty(),
            r.spec_current() is None,
            r.wf(),
    {
        TurnManager { turn_queue: VecDeque::new(), current: None }
    }

    /// Clears the queue, puts the designated first actor at the front,
    /// then appends the other ids in order, dropping duplicates of the
    /// first actor; the current actor is cleared.
    pub fn initialize(&mut self, player_id: EntityId, other_ids: &[EntityId])
        ensures
            final(self).queue() == seq![player_id] + without_id(other_ids@, player_id),
            final(self).spec_current() is None,
            final(self).wf(),
    {
        self.turn_queue.clear();
        self.turn_queue.push_back(player_id);
        let n = other_ids.len();
        let mut i: usize = 0;
        while i < n
            invariant
                i <= n == other_ids@.len(),
                self.turn_queue@ == seq![player_id] + without_id(
                    other_ids@.subrange(0, i as int),
                    player_id,
                ),
            decreases n - i,
        {
            proof {
                let prefix = other_ids@.subrange(0, i as int);
                let whole = other_ids@.subrange(0, i as int + 1);
                assert(whole =~= prefix.push(other_ids@[i as int]));
                assert(whole.drop_last() =~= prefix);
                assert(whole.last() == other_ids@[i as int]);
            }
            let id = other_ids[i];
            if id != player_id {
                self.turn_queue.push_back(id);
            }
            i = i + 1;
        }
        proof {
            assert(other_ids@.subrange(0, n as int) == other_ids@);
        }
        self.current = None;
    }

    /// Appends a new id at the back unless it is already queued
    /// (idempotent).
    pub fn add_entity(&mut self, new_id: EntityId)
        ensures
            old(self).queue().contains(new_id) ==> final(self).queue() == old(self).queue(),
            !old(self).queue().contains(new_id) ==> final(self).queue() == old(self).queue().push(
                new_id,
            ),
            final(self).spec_current() == old(self).spec_current(),
            old(self).wf() ==> final(self).wf(),
    {
        let n = self.turn_queue.len();
        let mut i: usize = 0;
        while i < n
            invariant
                i <= n == self.turn_queue@.len(),
                self.turn_queue@ == old(self).turn_queue@,
                self.current == old(self).current,
                forall|k: int| 0 <= k < i ==> (#[trigger] self.turn_queue@[k]) != new_id,
            decreases n - i,
        {
            if self.turn_queue[i] == new_id {
                return ;
            }
            i = i + 1;
        }
        proof {
            if old(self).queue().contains(new_id) {
                let w = choose|w: int|
                    0 <= w < old(self).queue().len() && old(self).queue()[w] == new_id;
                assert(false);
            }
        }
        self.turn_queue.push_back(new_id);
        proof {
            if old(self).wf() {
                match old(self).current {
                    Some(c) => {
                        let w = choose|w: int|
                            0 <= w < old(self).queue().len() && old(self).queue()[w] == c;
                        assert(self.turn_queue@[w] == c);
                    },
                    None => {},
                }
            }
        }
    }

    /// Deletes the id wherever it occurs in the queue; if it was the
    /// current actor, the current actor becomes unset.
    pub fn remove_entity(&mut self, entity_id: EntityId)
        ensures
            final(self).queue() == without_id(old(self).queue(), entity_id),
            final(self).spec_current() == if old(self).spec_current() == Some(entity_id) {
                None::<EntityId>
            } else {
                old(self).spec_current()
            },
            old(self).wf() ==> final(self).wf(),
    {
        let ghost q0 = self.turn_queue@;
        let mut kept: VecDeque<EntityId> = VecDeque::new();
        let n = self.turn_queue.len();
        let mut i: usize = 0;
        while i < n
            invariant
                i <= n == self.turn_queue@.len(),
                self.turn_queue@ == q0,
                self.current == old(self).current,
                kept@ == without_id(q0.subrange(0, i as int), entity_id),
            decreases n - i,
        {
            proof {
                let prefix = q0.subrange(0, i as int);
                let whole = q0.subrange(0, i as int + 1);
                assert(whole =~= prefix.push(q0[i as int]));
                assert(whole.drop_last() =~= prefix);
                assert(whole.last() == q0[i as int]);
            }
            let id = self.turn_queue[i];
            if id != entity_id {
                kept.push_back(id);
            }
            i = i + 1;
        }
        proof {
            assert(q0.subrange(0, n as int) == q0);
        }
        self.turn_queue = kept;
        let clear = match &self.current {
            Some(c) => *c == entity_id,
            None => false,
        };
        if clear {
            self.current = None;
        }
        proof {
            if old(self).wf() {
                match self.current {
                    Some(c) => {
                        assert(c != entity_id);
                        lemma_without_id_keeps(q0, entity_id, c);
                    },
                    None => {},
                }
            }
        }
    }

    /// Advances to the next actor: `None` on an empty queue; the front,
    /// without rotating, when no actor was current (the very first turn);
    /// otherwise the front after rotating left by one.
    pub fn next_turn(&mut self) -> (r: Option<EntityId>)
        ensures
            final(self).queue() == spec_next_turn(old(self).queue(), old(self).spec_current()).0,
            final(self).spec_current() == spec_next_turn(
                old(self).queue(),
                old(self).spec_current(),
            ).1,
            r == final(self).spec_current(),
            final(self).wf(),
    {
        if self.turn_queue.len() == 0 {
            self.current = None;
            return None;
        }
        if self.current.is_none() {
            let front = self.turn_queue[0];
            self.current = Some(front);
            proof {
                assert(self.turn_queue@.contains(front)) by {
                    assert(self.turn_queue@[0] == front);
                }
            }
            return self.current;
        }
        let front = self.turn_queue.pop_front().unwrap();
        self.turn_queue.push_back(front);
        let new_front = self.turn_queue[0];
        self.current = Some(new_front);
        proof {
            let q = old(self).queue();
            assert(self.turn_queue@ =~= q.skip(1).push(q[0]));
            assert(self.turn_queue@.contains(new_front)) by {
                assert(self.turn_queue@[0] == new_front);
            }
        }
        self.current
    }

    /// Number of ids in the queue.
    pub fn queue_len(&self) -> (r: usize)
        ensures
            r == self.queue().len(),
    {
        self.turn_queue.len()
    }

    /// Pure accessor for the current actor.
    pub fn current_entity(&self) -> (r: Option<EntityId>)
        ensures
            r == self.spec_current(),
    {
        self.current
    }
}

/// After `k` calls (`1 <= k <= len`) on a freshly initialized scheduler,
/// the queue has rotated left by `k - 1` and the `k`-th call returned the
/// `k - 1`-th id of the original queue.
pub proof fn lemma_turn_state_prefix(q0: Seq<EntityId>, k: nat)
    requires
        q0.len() > 0,
        1 <= k <= q0.len(),
    ensures
        turn_state(q0, k).0 =~= rot(q0, k - 1),
        turn_state(q0, k).1 == Some(q0[k - 1]),
    decreases k,
{
    broadcast use vstd::seq_lib::group_seq_properties;

    if k == 1 {
        assert(rot(q0, 0) =~= q0);
    } else {
        lemma_turn_state_prefix(q0, (k - 1) as nat);
        let m = k - 2;
        let prev = rot(q0, m);
        let q2 = prev.skip(1).push(prev[0]);
        assert(prev.len() == q0.len());
        assert forall|i: int| 0 <= i < q2.len() implies q2[i] == rot(q0, m + 1)[i] by {
            assert(prev[0] == q0[m]);
        }
        assert(q2 =~= rot(q0, m + 1));
        assert(q2[0] == q0[m + 1]);
    }
}

/// Law: on a non-empty queue of size `K`, the first `K` calls of
/// `next_turn` visit every queued id at least once (the `i`-th call
/// returns the `i - 1`-th id), and call `K + 1` returns the same id as
/// call `1` — the deliberate "first call does not rotate" rule included.
pub proof fn lemma_turn_cycle(q0: Seq<EntityId>)
    requires
        q0.len() > 0,
    ensures
        forall|i: int| 0 <= i < q0.len() ==> #[trigger] turn_state(q0, (i + 1) as nat).1 == Some(
            q0[i],
        ),
        forall|id: EntityId| q0.contains(id) ==> exists|k: nat|
            1 <= k <= q0.len() && #[trigger] turn_state(q0, k).1 == Some(id),
        turn_state(q0, (q0.len() + 1) as nat).1 == turn_state(q0, 1).1,
{
    broadcast use vstd::seq_lib::group_seq_properties;

    assert forall|i: int| 0 <= i < q0.len() implies #[trigger] turn_state(q0, (i + 1) as nat).1
        == Some(q0[i]) by {
        lemma_turn_state_prefix(q0, (i + 1) as nat);
    }
    assert forall|id: EntityId| q0.contains(id) implies exists|k: nat|
        1 <= k <= q0.len() && #[trigger] turn_state(q0, k).1 == Some(id) by {
        let i = choose|i: int| 0 <= i < q0.len() && q0[i] == id;
        assert(turn_state(q0, (i + 1) as nat).1 == Some(id));
        assert(1 <= (i + 1) as nat <= q0.len());
    }
    let len = q0.len() as int;
    lemma_turn_state_prefix(q0, len as nat);
    let prev = rot(q0, len - 1);
    let q2 = prev.skip(1).push(prev[0]);
    assert(turn_state(q0, (len + 1) as nat).1 == Some(q2[0]));
    assert(q2[0] == q0[0]);
    lemma_turn_state_prefix(q0, 1);
}

} // verus!
