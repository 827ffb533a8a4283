//! The entity registry: the sole owner of all entity records and the id
//! allocator. At most one record per id ever exists; every cross-entity
//! question (who stands on a cell?) is answered by query, never by stored
//! pointer.

use vstd::prelude::*;
use crate::entity::Entity;
use crate::entity::EntityId;
use crate::entity::is_wall;
use crate::entity::occludes;
use crate::world_position::WorldPosition;

verus! {

/// There is an entity with this id in the sequence.
pub open spec fn has_id(s: Seq<Entity>, id: EntityId) -> bool {
    exists|i: int| 0 <= i < s.len() && (#[trigger] s[i]).id == id
}

/// The index of the entity with this id (meaningful under `wf_entities`
/// when `has_id` holds).
pub open spec fn idx_of(s: Seq<Entity>, id: EntityId) -> int {
    choose|i: int| 0 <= i < s.len() && (#[trigger] s[i]).id == id
}

/// The entity with this id (meaningful under `wf_entities` when `has_id`
/// holds).
pub open spec fn ent_with(s: Seq<Entity>, id: EntityId) -> Entity {
    s[idx_of(s, id)]
}

/// Some entity of kind `Wall` occupies the cell.
pub open spec fn wall_at(s: Seq<Entity>, p: WorldPosition) -> bool {
    exists|i: int| 0 <= i < s.len() && (#[trigger] s[i]).pos == Some(p) && is_wall(s[i].kind)
}

/// Some occupant of the cell occludes sight.
pub open spec fn occluder_at(s: Seq<Entity>, p: WorldPosition) -> bool {
    exists|i: int| 0 <= i < s.len() && (#[trigger] s[i]).pos == Some(p) && occludes(s[i].kind)
}

/// No two records share an id.
pub open spec fn wf_entities(s: Seq<Entity>) -> bool {
    forall|i: int, j: int| 0 <= i < j < s.len() ==> (#[trigger] s[i]).id != (#[trigger] s[j]).id
}

pub struct World {
    entities: Vec<Entity>,
    next_entity_id: EntityId,
    player_id: EntityId,
}

impl World {
    /// The stored entity records, in insertion order.
    pub closed spec fn entities_seq(&self) -> Seq<Entity> {
        self.entities@
    }

    /// The id the allocator will hand out next.
    pub closed spec fn spec_next_id(&self) -> EntityId {
        self.next_entity_id
    }

    /// The designated human-controlled actor's id.
    pub closed spec fn spec_player_id(&self) -> EntityId {
        self.player_id
    }

    pub fn player_id(&self) -> (r: EntityId)
        ensures
            r == self.spec_player_id(),
    {
        self.player_id
    }

    /// Registry invariant: at most one entity record per id.
    pub open spec fn wf(&self) -> bool {
        wf_entities(self.entities_seq())
    }

    /// A fresh registry for a world whose designated actor will carry
    /// `player_id`; ids allocated later start just above it.
    pub fn new(player_id: EntityId) -> (r: Self)
        requires
            player_id < usize::MAX,
        ensures
            r.entities_seq() =~= Seq::<Entity>::empty(),
            r.spec_next_id() == player_id + 1,
            r.spec_player_id() == player_id,
            r.wf(),
    {
        World { entities: Vec::new(), next_entity_id: player_id + 1, player_id }
    }

    /// Allocates a strictly increasing id. Id-space exhaustion is a fatal
    /// programming-limits condition, so the precondition excludes it.
    pub fn get_next_entity_id(&mut self) -> (r: EntityId)
        requires
            old(self).spec_next_id() < usize::MAX,
        ensures
            r == old(self).spec_next_id(),
            final(self).spec_next_id() == r + 1,
            final(self).entities_seq() == old(self).entities_seq(),
            final(self).spec_player_id() == old(self).spec_player_id(),
    {
        let id = self.next_entity_id;
        self.next_entity_id = id + 1;
        id
    }

    /// Stores a record under its id. Overwriting an existing id is a
    /// programming error, so the precondition demands a fresh id.
    pub fn add_entity(&mut self, entity: Entity)
        requires
            !has_id(old(self).entities_seq(), entity.id),
        ensures
            final(self).entities_seq() == old(self).entities_seq().push(entity),
            final(self).spec_next_id() == old(self).spec_next_id(),
            final(self).spec_player_id() == old(self).spec_player_id(),
            old(self).wf() ==> final(self).wf(),
    {
        proof {
            let s = self.entities_seq();
            if wf_entities(s) {
                assert forall|i: int, j: int| 0 <= i < j < s.push(entity).len() implies (
                #[trigger] s.push(entity)[i]).id != (#[trigger] s.push(entity)[j]).id by {
                    if j < s.len() {
                    } else {
                        assert(s.push(entity)[i] == s[i]);
                        assert(s[i].id != entity.id);
                    }
                }
            }
        }
        self.entities.push(entity);
    }

    /// Deletes the record with this id (at most one exists under `wf`);
    /// a no-op when the id is absent.
    pub fn remove_entity(&mut self, id: EntityId)
        ensures
            final(self).spec_next_id() == old(self).spec_next_id(),
            final(self).spec_player_id() == old(self).spec_player_id(),
            !has_id(old(self).entities_seq(), id) ==> final(self).entities_seq() == old(
                self,
            ).entities_seq(),
            old(self).wf() && has_id(old(self).entities_seq(), id) ==> final(self).entities_seq()
                == old(self).entities_seq().remove(idx_of(old(self).entities_seq(), id)),
            old(self).wf() ==> final(self).wf(),
    {
        let ghost s = self.entities@;
        let n = self.entities.len();
        let mut i: usize = 0;
        while i < n
            invariant
                i <= n == self.entities@.len(),
                self.entities@ == s,
                s == old(self).entities@,
                self.next_entity_id == old(self).next_entity_id,
                self.player_id == old(self).player_id,
                forall|k: int| 0 <= k < i ==> (#[trigger] s[k]).id != id,
            decreases n - i,
        {
            if self.entities[i].id == id {
                proof {
                    assert(s[i as int].id == id);
                    if wf_entities(s) {
                        let j = idx_of(s, id);
                        assert(s[j].id == id);
                        assert(j == i as int);
                    }
                }
                self.entities.remove(i);
                proof {
                    if wf_entities(s) {
                        lemma_remove_keeps_wf(s, i as int);
                    }
                }
                return ;
            }
            i = i + 1;
        }
    }

    /// Number of stored records.
    pub fn entity_count(&self) -> (r: usize)
        ensures
            r == self.entities_seq().len(),
    {
        self.entities.len()
    }

    /// The record at a storage index, for read-only walks over the whole
    /// registry.
    pub fn entity_at(&self, i: usize) -> (r: &Entity)
        requires
            i < self.entities_seq().len(),
        ensures
            *r == self.entities_seq()[i as int],
    {
        &self.entities[i]
    }

    /// Looks up the record with this id.
    pub fn get_entity(&self, id: EntityId) -> (r: Option<&Entity>)
        ensures
            match r {
                Some(e) => has_id(self.entities_seq(), id) && e.id == id && self.entities_seq()
                    .contains(*e) && (self.wf() ==> *e == ent_with(self.entities_seq(), id)),
                None => !has_id(self.entities_seq(), id),
            },
    {
        let n = self.entities.len();
        let mut i: usize = 0;
        while i < n
            invariant
                i <= n == self.entities@.len(),
                forall|k: int| 0 <= k < i ==> (#[trigger] self.entities@[k]).id != id,
            decreases n - i,
        {
            if self.entities[i].id == id {
                proof {
                    let s = self.entities_seq();
                    assert(s[i as int].id == id);
                    if wf_entities(s) {
                        let j = idx_of(s, id);
                        assert(s[j].id == id);
                        assert(j == i as int);
                    }
                }
                return Some(&self.entities[i]);
            }
            i = i + 1;
        }
        None
    }

    /// Same lookup, keyed by reference.
    pub fn get_entity_by_id(&self, entity_id: &EntityId) -> (r: Option<&Entity>)
        ensures
            match r {
                Some(e) => has_id(self.entities_seq(), *entity_id) && e.id == *entity_id
                    && self.entities_seq().contains(*e) && (self.wf() ==> *e == ent_with(
                    self.entities_seq(),
                    *entity_id,
                )),
                None => !has_id(self.entities_seq(), *entity_id),
            },
    {
        self.get_entity(*entity_id)
    }

    /// Every entity standing exactly on `pos`: a full scan filtering by
    /// position equality.
    pub fn get_entities_by_pos(&self, pos: &WorldPosition) -> (r: Vec<&Entity>)
        ensures
            forall|j: int| 0 <= j < r@.len() ==> self.entities_seq().contains(*(#[trigger] r@[j]))
                && r@[j].pos == Some(*pos),
            forall|i: int| 0 <= i < self.entities_seq().len() && (#[trigger] self.entities_seq()[i]).pos
                == Some(*pos) ==> exists|j: int| 0 <= j < r@.len() && *(#[trigger] r@[j])
                == self.entities_seq()[i],
    {
        let n = self.entities.len();
        let mut r: Vec<&Entity> = Vec::new();
        let mut i: usize = 0;
        while i < n
            invariant
                i <= n == self.entities@.len(),
                forall|j: int| 0 <= j < r@.len() ==> self.entities@.contains(*(#[trigger] r@[j]))
                    && r@[j].pos == Some(*pos),
                forall|k: int| 0 <= k < i && (#[trigger] self.entities@[k]).pos == Some(*pos)
                    ==> exists|j: int| 0 <= j < r@.len() && *(#[trigger] r@[j])
                    == self.entities@[k],
            decreases n - i,
        {
            let matches_pos = match &self.entities[i].pos {
                Some(p) => p.x == pos.x && p.y == pos.y,
                None => false,
            };
            proof {
                assert(matches_pos == (self.entities@[i as int].pos == Some(*pos)));
            }
            if matches_pos {
                let ghost old_r = r@;
                r.push(&self.entities[i]);
                proof {
                    assert(*r@[old_r.len() as int] == self.entities@[i as int]);
                    assert forall|k: int|
                        0 <= k < i + 1 && (#[trigger] self.entities@[k]).pos == Some(
                            *pos,
                        ) implies exists|j: int|
                        0 <= j < r@.len() && *(#[trigger] r@[j]) == self.entities@[k] by {
                        if k == i {
                            assert(0 <= old_r.len() < r@.len() && *r@[old_r.len() as int]
                                == self.entities@[k]);
                        } else {
                            let j = choose|j: int|
                                0 <= j < old_r.len() && *(#[trigger] old_r[j])
                                    == self.entities@[k];
                            assert(r@[j] == old_r[j]);
                            assert(0 <= j < r@.len() && *r@[j] == self.entities@[k]);
                        }
                    }
                }
            }
            i = i + 1;
        }
        r
    }

    /// Writes the position of the entity with this id; a no-op when the
    /// id is absent.
    pub fn set_entity_pos(&mut self, entity_id: EntityId, pos: Option<WorldPosition>)
        ensures
            final(self).spec_next_id() == old(self).spec_next_id(),
            final(self).spec_player_id() == old(self).spec_player_id(),
            !has_id(old(self).entities_seq(), entity_id) ==> final(self).entities_seq() == old(
                self,
            ).entities_seq(),
            old(self).wf() && has_id(old(self).entities_seq(), entity_id) ==> final(self)
                .entities_seq() == old(self).entities_seq().update(
                idx_of(old(self).entities_seq(), entity_id),
                (Entity { pos, ..ent_with(old(self).entities_seq(), entity_id) }),
            ),
            old(self).wf() ==> final(self).wf(),
    {
        let ghost s = self.entities@;
        let n = self.entities.len();
        let mut i: usize = 0;
        while i < n
            invariant
                i <= n == self.entities@.len(),
                self.entities@ == s,
                s == old(self).entities@,
                self.next_entity_id == old(self).next_entity_id,
                self.player_id == old(self).player_id,
                forall|k: int| 0 <= k < i ==> (#[trigger] s[k]).id != entity_id,
            decreases n - i,
        {
            if self.entities[i].id == entity_id {
                proof {
                    if wf_entities(s) {
                        let j = idx_of(s, entity_id);
                        assert(s[j].id == entity_id);
                        assert(j == i as int);
                    }
                }
                self.entities[i].set_pos(pos);
                proof {
                    if wf_entities(s) {
                        lemma_update_same_ids(s, self.entities@, i as int);
                    }
                }
                return ;
            }
            i = i + 1;
        }
    }

    /// Places the entity with this id on `target`; a no-op when the id is
    /// absent.
    pub fn move_entity(&mut self, entity_id: &EntityId, target: &WorldPosition)
        ensures
            final(self).spec_next_id() == old(self).spec_next_id(),
            final(self).spec_player_id() == old(self).spec_player_id(),
            !has_id(old(self).entities_seq(), *entity_id) ==> final(self).entities_seq() == old(
                self,
            ).entities_seq(),
            old(self).wf() && has_id(old(self).entities_seq(), *entity_id) ==> final(self)
                .entities_seq() == old(self).entities_seq().update(
                idx_of(old(self).entities_seq(), *entity_id),
                (Entity { pos: Some(*target), ..ent_with(old(self).entities_seq(), *entity_id) }),
            ),
            old(self).wf() ==> final(self).wf(),
    {
        self.set_entity_pos(*entity_id, Some(*target));
    }
}

/// Law: under the registry invariant, at most one entity record with a
/// given id exists — two records carrying the same id are one record.
pub proof fn lemma_registry_unique_ids(w: World, i: int, j: int)
    requires
        w.wf(),
        0 <= i < w.entities_seq().len(),
        0 <= j < w.entities_seq().len(),
        w.entities_seq()[i].id == w.entities_seq()[j].id,
    ensures
        i == j,
{
}

/// Removing one element preserves pairwise-distinct ids.
proof fn lemma_remove_keeps_wf(s: Seq<Entity>, at: int)
    requires
        0 <= at < s.len(),
        wf_entities(s),
    ensures
        wf_entities(s.remove(at)),
{
    let t = s.remove(at);
    assert forall|i: int, j: int| 0 <= i < j < t.len() implies (#[trigger] t[i]).id != (
    #[trigger] t[j]).id by {
        let i0 = if i < at {
            i
        } else {
            i + 1
        };
        let j0 = if j < at {
            j
        } else {
            j + 1
        };
        assert(t[i] == s[i0]);
        assert(t[j] == s[j0]);
        assert(s[i0].id != s[j0].id);
    }
}

/// An update that keeps the entity's id in place preserves the id pattern.
proof fn lemma_update_same_ids(s: Seq<Entity>, t: Seq<Entity>, at: int)
    requires
        0 <= at < s.len(),
        t.len() == s.len(),
        t[at].id == s[at].id,
        forall|k: int| 0 <= k < s.len() && k != at ==> t[k] == s[k],
        wf_entities(s),
    ensures
        wf_entities(t),
{
    assert forall|i: int, j: int| 0 <= i < j < t.len() implies (#[trigger] t[i]).id != (
    #[trigger] t[j]).id by {
        assert(s[i].id != s[j].id);
        assert(t[i].id == s[i].id);
        assert(t[j].id == s[j].id);
    }
}

} // verus!
