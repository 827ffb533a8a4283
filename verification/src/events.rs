//! Intents and the change log. A command produces an ordered sequence of
//! immutable `StateChange` records; consumers replay them instead of
//! touching kernel state. Movement resolution is a pure function of world
//! state plus the proposed intent: the resolver never writes the new
//! position itself.

use vstd::prelude::*;
use crate::entity::Entity;
use crate::entity::EntityId;
use crate::entity::dir_step;
use crate::entity::is_wall;
use crate::entity::pos_step_ok;
use crate::types::Direction;
use crate::world::World;
use crate::world::ent_with;
use crate::world::has_id;
use crate::world::idx_of;
use crate::world::wall_at;
use crate::world_position::WorldPosition;

verus! {

/// One observable effect of a processed intent; never mutated after
/// creation.
#[derive(Debug, Clone, PartialEq)]
pub enum StateChange {
    EntityMoved { entity_id: EntityId, from: Option<WorldPosition>, to: Option<WorldPosition> },
    TurnEnded { entity_id: EntityId },
    TurnStarted { entity_id: EntityId },
}

pub type StateChanges = Vec<StateChange>;

/// An intent submitted to the kernel: a directional move, an explicit end
/// of turn, or a do-nothing skip (the degraded form of an AI decision).
#[derive(Debug, Clone)]
pub enum GameEvent {
    MoveByDirection(EntityId, Direction),
    EndTurn(EntityId),
    SkipTurn,
}

/// The changes a directional move produces: none when the actor is absent,
/// un-placed, or headed into a cell occupied by a `Wall`; exactly one
/// `EntityMoved` otherwise.
pub open spec fn spec_move_changes(s: Seq<Entity>, id: EntityId, dir: Direction) -> Seq<
    StateChange,
> {
    if !has_id(s, id) {
        Seq::empty()
    } else {
        match ent_with(s, id).pos {
            None => Seq::empty(),
            Some(p) => {
                let target = dir_step(p, dir);
                if wall_at(s, target) {
                    Seq::empty()
                } else {
                    seq![StateChange::EntityMoved { entity_id: id, from: Some(p), to: Some(target) }]
                }
            },
        }
    }
}

/// The changes any intent produces against a given world.
pub open spec fn spec_changes(ev: GameEvent, s: Seq<Entity>) -> Seq<StateChange> {
    match ev {
        GameEvent::MoveByDirection(id, dir) => spec_move_changes(s, id, dir),
        GameEvent::EndTurn(id) => seq![StateChange::TurnEnded { entity_id: id }],
        GameEvent::SkipTurn => Seq::empty(),
    }
}

/// Machine limit: if the intent moves a placed actor, that actor's
/// coordinates leave room for one step.
pub open spec fn move_req(s: Seq<Entity>, ev: GameEvent) -> bool {
    match ev {
        GameEvent::MoveByDirection(id, dir) => has_id(s, id) ==> (ent_with(s, id).pos matches Some(
            p,
        ) ==> pos_step_ok(p)),
        GameEvent::EndTurn(id) => true,
        GameEvent::SkipTurn => true,
    }
}

impl GameEvent {
    /// Resolves the intent against the world, producing the ordered
    /// changes and writing nothing.
    pub fn get_changes(self, world: &World) -> (r: StateChanges)
        requires
            world.wf(),
            move_req(world.entities_seq(), self),
        ensures
            r@ == spec_changes(self, world.entities_seq()),
    {
        let ghost s = world.entities_seq();
        let mut changes: Vec<StateChange> = Vec::new();
        match self {
            GameEvent::MoveByDirection(entity_id, direction) => {
                match world.get_entity(entity_id) {
                    None => {},
                    Some(e) => {
                        proof {
                            assert(*e == ent_with(s, entity_id));
                        }
                        match e.get_pos_in_direction(direction) {
                            None => {},
                            Some(new_pos) => {
                                let old_pos = e.pos();
                                let occupants = world.get_entities_by_pos(&new_pos);
                                let allowed = e.can_move_to(&new_pos, &occupants);
                                proof {
                                    lemma_occupant_walls(s, occupants@, new_pos);
                                }
                                if allowed {
                                    changes.push(
                                        StateChange::EntityMoved {
                                            entity_id,
                                            from: old_pos,
                                            to: Some(new_pos),
                                        },
                                    );
                                }
                            },
                        }
                    },
                }
            },
            GameEvent::EndTurn(entity_id) => {
                changes.push(StateChange::TurnEnded { entity_id });
            },
            GameEvent::SkipTurn => {},
        }
        proof {
            assert(changes@ =~= spec_changes(self, s));
        }
        changes
    }

    /// Resolves the intent and writes its outcome straight into the
    /// registry: the convenience form for callers that keep no change
    /// log of their own.
    pub fn apply(self, world: &mut World)
        requires
            old(world).wf(),
            move_req(old(world).entities_seq(), self),
        ensures
            final(world).wf(),
            final(world).entities_seq() == apply_changes_to_entities(
                old(world).entities_seq(),
                spec_changes(self, old(world).entities_seq()),
            ),
            final(world).spec_player_id() == old(world).spec_player_id(),
            final(world).spec_next_id() == old(world).spec_next_id(),
    {
        let ghost ev = self;
        let changes = self.get_changes(world);
        let n = changes.len();
        let mut i: usize = 0;
        while i < n
            invariant
                i <= n == changes@.len(),
                changes@ == spec_changes(ev, old(world).entities_seq()),
                world.wf(),
                world.entities_seq() == apply_changes_to_entities(
                    old(world).entities_seq(),
                    changes@.subrange(0, i as int),
                ),
                world.spec_player_id() == old(world).spec_player_id(),
                world.spec_next_id() == old(world).spec_next_id(),
            decreases n - i,
        {
            match &changes[i] {
                StateChange::EntityMoved { entity_id, to, .. } => {
                    world.set_entity_pos(*entity_id, *to);
                },
                _ => {},
            }
            proof {
                lemma_apply_changes_push(
                    old(world).entities_seq(),
                    changes@.subrange(0, i as int),
                    changes@[i as int],
                );
                assert(changes@.subrange(0, i as int + 1) =~= changes@.subrange(0, i as int).push(
                    changes@[i as int],
                ));
            }
            i = i + 1;
        }
        proof {
            assert(changes@.subrange(0, n as int) =~= changes@);
        }
    }
}

/// What one change does to the entity records: an `EntityMoved` writes
/// the moved entity's position; turn records touch nothing.
pub open spec fn apply_change_to_entities(s: Seq<Entity>, c: StateChange) -> Seq<Entity> {
    match c {
        StateChange::EntityMoved { entity_id, to, .. } => if has_id(s, entity_id) {
            s.update(idx_of(s, entity_id), (Entity { pos: to, ..ent_with(s, entity_id) }))
        } else {
            s
        },
        _ => s,
    }
}

/// Replaying a whole log over the entity records, in order.
pub open spec fn apply_changes_to_entities(s: Seq<Entity>, cs: Seq<StateChange>) -> Seq<Entity>
    decreases cs.len(),
{
    if cs.len() == 0 {
        s
    } else {
        apply_changes_to_entities(apply_change_to_entities(s, cs[0]), cs.skip(1))
    }
}

/// Replaying a log and one more change equals replaying the log, then
/// the change.
pub proof fn lemma_apply_changes_push(s: Seq<Entity>, cs: Seq<StateChange>, c: StateChange)
    ensures
        apply_changes_to_entities(s, cs.push(c)) == apply_change_to_entities(
            apply_changes_to_entities(s, cs),
            c,
        ),
    decreases cs.len(),
{
    reveal_with_fuel(apply_changes_to_entities, 3);
    if cs.len() == 0 {
        assert(cs.push(c)[0] == c);
        assert(cs.push(c).skip(1) =~= Seq::<StateChange>::empty());
    } else {
        assert(cs.push(c)[0] == cs[0]);
        assert(cs.push(c).skip(1) =~= cs.skip(1).push(c));
        lemma_apply_changes_push(apply_change_to_entities(s, cs[0]), cs.skip(1), c);
    }
}

/// Replaying a concatenation equals replaying the parts in order.
pub proof fn lemma_apply_changes_concat(s: Seq<Entity>, a: Seq<StateChange>, b: Seq<StateChange>)
    ensures
        apply_changes_to_entities(s, a + b) == apply_changes_to_entities(
            apply_changes_to_entities(s, a),
            b,
        ),
    decreases a.len(),
{
    reveal_with_fuel(apply_changes_to_entities, 2);
    if a.len() == 0 {
        assert(a + b =~= b);
    } else {
        assert((a + b)[0] == a[0]);
        assert((a + b).skip(1) =~= a.skip(1) + b);
        lemma_apply_changes_concat(apply_change_to_entities(s, a[0]), a.skip(1), b);
    }
}

/// Connects the occupant list handed out by the registry to the
/// `wall_at` predicate over the whole world: the list holds a wall
/// exactly when the cell does.
proof fn lemma_occupant_walls(s: Seq<Entity>, occ: Seq<&Entity>, p: WorldPosition)
    requires
        forall|j: int| 0 <= j < occ.len() ==> s.contains(*(#[trigger] occ[j])) && occ[j].pos
            == Some(p),
        forall|i: int| 0 <= i < s.len() && (#[trigger] s[i]).pos == Some(p) ==> exists|j: int|
            0 <= j < occ.len() && *(#[trigger] occ[j]) == s[i],
    ensures
        (forall|j: int| 0 <= j < occ.len() ==> !is_wall((#[trigger] occ[j]).kind)) <==> !wall_at(
            s,
            p,
        ),
{
    if wall_at(s, p) {
        let i = choose|i: int|
            0 <= i < s.len() && (#[trigger] s[i]).pos == Some(p) && is_wall(s[i].kind);
        let j = choose|j: int| 0 <= j < occ.len() && *(#[trigger] occ[j]) == s[i];
        assert(is_wall(occ[j].kind));
    }
    if exists|j: int| 0 <= j < occ.len() && is_wall((#[trigger] occ[j]).kind) {
        let j = choose|j: int| 0 <= j < occ.len() && is_wall((#[trigger] occ[j]).kind);
        let e = *occ[j];
        let i = choose|i: int| 0 <= i < s.len() && s[i] == e;
        assert(s[i].pos == Some(p) && is_wall(s[i].kind));
        assert(wall_at(s, p));
    }
}

/// Law: moving an entity whose position is `None` always yields zero
/// change records.
pub proof fn lemma_move_unplaced_yields_nothing(s: Seq<Entity>, id: EntityId, dir: Direction)
    requires
        has_id(s, id) ==> ent_with(s, id).pos is None,
    ensures
        spec_move_changes(s, id, dir).len() == 0,
{
}

/// Law: moving into a cell occupied by any entity of kind `Wall` yields
/// zero change records.
pub proof fn lemma_move_against_wall_yields_nothing(
    s: Seq<Entity>,
    id: EntityId,
    dir: Direction,
    p: WorldPosition,
)
    requires
        has_id(s, id),
        ent_with(s, id).pos == Some(p),
        wall_at(s, dir_step(p, dir)),
    ensures
        spec_move_changes(s, id, dir).len() == 0,
{
}

/// Law: moving into a cell with no `Wall` occupant yields exactly one
/// `EntityMoved`, from the actor's old cell to the stepped cell.
pub proof fn lemma_move_into_free_cell_yields_one(
    s: Seq<Entity>,
    id: EntityId,
    dir: Direction,
    p: WorldPosition,
)
    requires
        has_id(s, id),
        ent_with(s, id).pos == Some(p),
        !wall_at(s, dir_step(p, dir)),
    ensures
        spec_move_changes(s, id, dir) == seq![
            StateChange::EntityMoved {
                entity_id: id,
                from: Some(p),
                to: Some(dir_step(p, dir)),
            },
        ],
{
}

/// What a position-tracking mirror does with a change: an `EntityMoved`
/// sets the moved entity's tracked position to the change's `to` field;
/// other changes leave the mirror alone.
pub open spec fn apply_moved_to_mirror(
    m: Map<EntityId, Option<WorldPosition>>,
    c: StateChange,
) -> Map<EntityId, Option<WorldPosition>> {
    match c {
        StateChange::EntityMoved { entity_id, from, to } => m.insert(entity_id, to),
        _ => m,
    }
}

/// Law: applying an `EntityMoved{from, to}` to a mirror that tracked the
/// actor at `from`, and then applying its logical inverse, restores the
/// original mirror exactly.
pub proof fn lemma_entity_moved_round_trip(
    m: Map<EntityId, Option<WorldPosition>>,
    id: EntityId,
    from: Option<WorldPosition>,
    to: Option<WorldPosition>,
)
    requires
        m.dom().contains(id),
        m[id] == from,
    ensures
        apply_moved_to_mirror(
            apply_moved_to_mirror(m, StateChange::EntityMoved { entity_id: id, from, to }),
            StateChange::EntityMoved { entity_id: id, from: to, to: from },
        ) == m,
{
    assert(m.insert(id, to).insert(id, from) =~= m);
}

} // verus!
