//! The kernel's command surface: a `GameState` owns the registry and the
//! scheduler, resolves submitted intents into ordered `StateChange`
//! records, applies them, and — on an end of turn — auto-advances through
//! non-interactive actors until the designated player is reached, the
//! queue is exhausted, or one full round has passed (the explicit bound
//! that keeps the cascade finite even without the player in the queue).

use vstd::prelude::*;
use crate::attributes::CoreAttributes;
use crate::attributes::Exhaustion;
use crate::attributes::Status;
use crate::debug_data::basic_level::get_level;
use crate::debug_data::basic_level::level_len;
use crate::debug_data::basic_level::level_pos;
use crate::entity::Entity;
use crate::entity::EntityId;
use crate::entity::EntityKind;
use crate::events::GameEvent;
use crate::events::StateChange;
use crate::events::StateChanges;
use crate::events::apply_change_to_entities;
use crate::events::apply_changes_to_entities;
use crate::events::lemma_apply_changes_concat;
use crate::events::lemma_apply_changes_push;
use crate::events::move_req;
use crate::events::spec_changes;
use crate::prefabs::dungeon_environment::spec_stone_material;
use crate::prefabs::goblins::create_goblin;
use crate::turns::TurnManager;
use crate::world::World;
use crate::world::ent_with;
use crate::world::has_id;
use crate::world::idx_of;
use crate::world_position::WorldPosition;

verus! {

/// Whether the kernel is waiting on the human player or still working
/// through non-interactive actors.
pub enum ProcessState {
    ProcessingTurns,
    WaitingForPlayer,
}

/// The cascade's shape: a sequence of complete blocks, each a
/// `TurnStarted` for a non-player actor, at most one `EntityMoved` by
/// that same actor, and its `TurnEnded`.
pub open spec fn ai_blocks(log: Seq<StateChange>, player: EntityId) -> bool
    decreases log.len(),
{
    if log.len() == 0 {
        true
    } else {
        match log[0] {
            StateChange::TurnStarted { entity_id } => entity_id != player && ((log.len() >= 2
                && log[1] == (StateChange::TurnEnded { entity_id }) && ai_blocks(
                log.skip(2),
                player,
            )) || (log.len() >= 3 && (log[1] matches StateChange::EntityMoved {
                entity_id: m,
                ..
            } && m == entity_id) && log[2] == (StateChange::TurnEnded { entity_id }) && ai_blocks(
                log.skip(3),
                player,
            ))),
            _ => false,
        }
    }
}

/// A full cascade log: complete blocks, possibly closed by one final
/// `TurnStarted` for the actor the kernel stopped at.
pub open spec fn turn_log_ok(log: Seq<StateChange>, player: EntityId) -> bool {
    ai_blocks(log, player) || (log.len() >= 1 && (log.last() matches StateChange::TurnStarted {
        ..
    }) && ai_blocks(log.drop_last(), player))
}

/// Complete blocks followed by complete blocks are complete blocks.
proof fn lemma_ai_blocks_append(a: Seq<StateChange>, b: Seq<StateChange>, player: EntityId)
    requires
        ai_blocks(a, player),
        ai_blocks(b, player),
    ensures
        ai_blocks(a + b, player),
    decreases a.len(),
{
    if a.len() == 0 {
        assert(a + b =~= b);
    } else {
        let c = a + b;
        assert(c[0] == a[0]);
        match a[0] {
            StateChange::TurnStarted { entity_id } => {
                if a.len() >= 2 && a[1] == (StateChange::TurnEnded { entity_id }) && ai_blocks(
                    a.skip(2),
                    player,
                ) {
                    assert(c[1] == a[1]);
                    assert(c.skip(2) =~= a.skip(2) + b);
                    lemma_ai_blocks_append(a.skip(2), b, player);
                } else {
                    assert(c[1] == a[1]);
                    assert(c[2] == a[2]);
                    assert(c.skip(3) =~= a.skip(3) + b);
                    lemma_ai_blocks_append(a.skip(3), b, player);
                }
            },
            _ => {
                assert(false);
            },
        }
    }
}

/// Rotating a queue left by one keeps exactly its members.
proof fn lemma_rotation_same_members(q: Seq<EntityId>)
    requires
        q.len() > 0,
    ensures
        forall|id: EntityId| q.skip(1).push(q[0]).contains(id) <==> q.contains(id),
{
    let q2 = q.skip(1).push(q[0]);
    assert forall|id: EntityId| q2.contains(id) implies q.contains(id) by {
        let w = choose|w: int| 0 <= w < q2.len() && q2[w] == id;
        if w < q.len() - 1 {
            assert(q[w + 1] == id);
        } else {
            assert(q[0] == id);
        }
    }
    assert forall|id: EntityId| q.contains(id) implies q2.contains(id) by {
        let w = choose|w: int| 0 <= w < q.len() && q[w] == id;
        if w == 0 {
            assert(q2[q.len() - 1] == id);
        } else {
            assert(q2[w - 1] == id);
        }
    }
}

pub struct GameState {
    pub world: World,
    pub turn_manager: TurnManager,
    pub process_state: ProcessState,
}

impl GameState {
    pub fn new(world: World, turn_manager: TurnManager) -> (r: Self)
        ensures
            r.world == world,
            r.turn_manager == turn_manager,
            r.process_state is ProcessingTurns,
    {
        Self { world, turn_manager, process_state: ProcessState::ProcessingTurns }
    }

    /// Pure accessor for the actor whose turn it is.
    pub fn get_current_entity(&self) -> (r: Option<EntityId>)
        ensures
            r == self.turn_manager.spec_current(),
    {
        self.turn_manager.current_entity()
    }

    /// Removes an entity from the registry and the turn order in one
    /// step: splitting the two would let the turn order reference a
    /// vanished id.
    pub fn remove_entity(&mut self, entity_id: EntityId)
        requires
            old(self).world.wf(),
        ensures
            final(self).world.wf(),
            old(self).turn_manager.wf() ==> final(self).turn_manager.wf(),
            !has_id(old(self).world.entities_seq(), entity_id) ==> final(self).world.entities_seq()
                == old(self).world.entities_seq(),
            has_id(old(self).world.entities_seq(), entity_id) ==> final(self).world.entities_seq()
                == old(self).world.entities_seq().remove(
                idx_of(old(self).world.entities_seq(), entity_id),
            ),
            final(self).world.spec_player_id() == old(self).world.spec_player_id(),
            final(self).world.spec_next_id() == old(self).world.spec_next_id(),
            final(self).turn_manager.queue() == crate::turns::without_id(
                old(self).turn_manager.queue(),
                entity_id,
            ),
            final(self).turn_manager.spec_current() == if old(self).turn_manager.spec_current()
                == Some(entity_id) {
                None::<EntityId>
            } else {
                old(self).turn_manager.spec_current()
            },
            final(self).process_state == old(self).process_state,
    {
        self.world.remove_entity(entity_id);
        self.turn_manager.remove_entity(entity_id);
    }

    /// Applies one change record to the registry, exactly as an external
    /// consumer would replay it.
    pub fn apply_change(&mut self, change: &StateChange)
        requires
            old(self).world.wf(),
        ensures
            final(self).world.wf(),
            final(self).world.entities_seq() == apply_change_to_entities(
                old(self).world.entities_seq(),
                *change,
            ),
            final(self).world.spec_player_id() == old(self).world.spec_player_id(),
            final(self).world.spec_next_id() == old(self).world.spec_next_id(),
            final(self).turn_manager == old(self).turn_manager,
            final(self).process_state == old(self).process_state,
    {
        match change {
            StateChange::EntityMoved { entity_id, to, .. } => {
                self.world.set_entity_pos(*entity_id, *to);
            },
            _ => {},
        }
    }

    /// Applies a whole log, in order.
    fn apply_all(&mut self, changes: &StateChanges)
        requires
            old(self).world.wf(),
        ensures
            final(self).world.wf(),
            final(self).world.entities_seq() == apply_changes_to_entities(
                old(self).world.entities_seq(),
                changes@,
            ),
            final(self).world.spec_player_id() == old(self).world.spec_player_id(),
            final(self).world.spec_next_id() == old(self).world.spec_next_id(),
            final(self).turn_manager == old(self).turn_manager,
            final(self).process_state == old(self).process_state,
    {
        let n = changes.len();
        let mut i: usize = 0;
        while i < n
            invariant
                i <= n == changes@.len(),
                self.world.wf(),
                self.world.entities_seq() == apply_changes_to_entities(
                    old(self).world.entities_seq(),
                    changes@.subrange(0, i as int),
                ),
                self.world.spec_player_id() == old(self).world.spec_player_id(),
                self.world.spec_next_id() == old(self).world.spec_next_id(),
                self.turn_manager == old(self).turn_manager,
                self.process_state == old(self).process_state,
            decreases n - i,
        {
            self.apply_change(&changes[i]);
            proof {
                lemma_apply_changes_push(
                    old(self).world.entities_seq(),
                    changes@.subrange(0, i as int),
                    changes@[i as int],
                );
                assert(changes@.subrange(0, i as int + 1) =~= changes@.subrange(0, i as int).push(
                    changes@[i as int],
                ));
            }
            i = i + 1;
        }
        proof {
            assert(changes@.subrange(0, n as int) =~= changes@);
        }
    }

    /// One non-interactive actor's whole turn: ask its AI for an intent
    /// (a missing AI, a missing entity, or an actor at the very edge of
    /// the representable grid degrades to a skip), resolve it, apply the
    /// outcome. Whatever the AI drew, the outcome is at most one
    /// `EntityMoved` by this very actor.
    fn take_ai_turn(&mut self, n: EntityId) -> (r: StateChanges)
        requires
            old(self).world.wf(),
        ensures
            final(self).world.wf(),
            final(self).world.spec_player_id() == old(self).world.spec_player_id(),
            final(self).world.spec_next_id() == old(self).world.spec_next_id(),
            final(self).turn_manager == old(self).turn_manager,
            final(self).process_state == old(self).process_state,
            final(self).world.entities_seq() == apply_changes_to_entities(
                old(self).world.entities_seq(),
                r@,
            ),
            r@.len() <= 1,
            r@.len() == 1 ==> (r@[0] matches StateChange::EntityMoved { entity_id, .. }
                && entity_id == n),
    {
        let action = match self.world.get_entity(n) {
            Some(e) => match e.ai() {
                Some(ai) => ai.get_action(n, &self.world),
                None => GameEvent::SkipTurn,
            },
            None => GameEvent::SkipTurn,
        };
        let safe = match self.world.get_entity(n) {
            Some(e) => match e.pos() {
                Some(p) => p.x > i32::MIN && p.x < i32::MAX && p.y > i32::MIN && p.y < i32::MAX,
                None => true,
            },
            None => true,
        };
        if !safe {
            let r: StateChanges = Vec::new();
            return r;
        }
        proof {
            assert(move_req(self.world.entities_seq(), action));
        }
        let changes = action.get_changes(&self.world);
        self.apply_all(&changes);
        changes
    }

    /// Advances the scheduler after an ended turn: exactly one
    /// `next_turn` per ended turn, a `TurnStarted` for whoever comes up,
    /// and a full auto-played turn for every non-interactive actor, until
    /// the player comes up, the queue is exhausted, or one full round has
    /// passed.
    fn advance_turns(&mut self) -> (r: StateChanges)
        requires
            old(self).world.wf(),
            old(self).turn_manager.wf(),
        ensures
            final(self).world.wf(),
            final(self).turn_manager.wf(),
            final(self).world.spec_player_id() == old(self).world.spec_player_id(),
            final(self).world.spec_next_id() == old(self).world.spec_next_id(),
            final(self).world.entities_seq() == apply_changes_to_entities(
                old(self).world.entities_seq(),
                r@,
            ),
            final(self).turn_manager.queue().len() == old(self).turn_manager.queue().len(),
            forall|id: EntityId| final(self).turn_manager.queue().contains(id) <==> old(
                self,
            ).turn_manager.queue().contains(id),
            turn_log_ok(r@, old(self).world.spec_player_id()),
            final(self).process_state is WaitingForPlayer ==> r@.len() >= 1 && r@.last() == (
            StateChange::TurnStarted { entity_id: old(self).world.spec_player_id() }),
    {
        let ghost s0 = self.world.entities_seq();
        let player = self.world.player_id();
        let mut changes: StateChanges = Vec::new();
        let mut fuel = self.turn_manager.queue_len();
        loop
            invariant_except_break
                self.world.wf(),
                self.turn_manager.wf(),
                s0 == old(self).world.entities_seq(),
                player == old(self).world.spec_player_id(),
                self.world.spec_player_id() == old(self).world.spec_player_id(),
                self.world.spec_next_id() == old(self).world.spec_next_id(),
                self.world.entities_seq() == apply_changes_to_entities(s0, changes@),
                self.turn_manager.queue().len() == old(self).turn_manager.queue().len(),
                forall|id: EntityId| self.turn_manager.queue().contains(id) <==> old(
                    self,
                ).turn_manager.queue().contains(id),
                ai_blocks(changes@, player),
            ensures
                self.world.wf(),
                self.turn_manager.wf(),
                s0 == old(self).world.entities_seq(),
                player == old(self).world.spec_player_id(),
                self.world.spec_player_id() == old(self).world.spec_player_id(),
                self.world.spec_next_id() == old(self).world.spec_next_id(),
                self.world.entities_seq() == apply_changes_to_entities(s0, changes@),
                self.turn_manager.queue().len() == old(self).turn_manager.queue().len(),
                forall|id: EntityId| self.turn_manager.queue().contains(id) <==> old(
                    self,
                ).turn_manager.queue().contains(id),
                turn_log_ok(changes@, player),
                self.process_state is WaitingForPlayer ==> changes@.len() >= 1 && changes@.last()
                    == (StateChange::TurnStarted { entity_id: player }),
            decreases fuel,
        {
            let ghost q_pre = self.turn_manager.queue();
            let ghost cur_pre = self.turn_manager.spec_current();
            let next = self.turn_manager.next_turn();
            proof {
                if q_pre.len() > 0 && !(cur_pre is None) {
                    lemma_rotation_same_members(q_pre);
                }
            }
            match next {
                None => {
                    self.process_state = ProcessState::ProcessingTurns;
                    break ;
                },
                Some(next_id) => {
                    let ghost pre_started = changes@;
                    changes.push(StateChange::TurnStarted { entity_id: next_id });
                    proof {
                        lemma_apply_changes_push(
                            s0,
                            pre_started,
                            StateChange::TurnStarted { entity_id: next_id },
                        );
                        assert(changes@.drop_last() =~= pre_started);
                    }
                    if next_id == player {
                        self.process_state = ProcessState::WaitingForPlayer;
                        break ;
                    }
                    if fuel == 0 {
                        self.process_state = ProcessState::ProcessingTurns;
                        break ;
                    }
                    fuel = fuel - 1;
                    let ghost pre_ai = changes@;
                    let mut ai_changes = self.take_ai_turn(next_id);
                    let ghost ai_log = ai_changes@;
                    changes.append(&mut ai_changes);
                    proof {
                        lemma_apply_changes_concat(s0, pre_ai, ai_log);
                    }
                    let ghost pre_ended = changes@;
                    changes.push(StateChange::TurnEnded { entity_id: next_id });
                    proof {
                        lemma_apply_changes_push(
                            s0,
                            pre_ended,
                            StateChange::TurnEnded { entity_id: next_id },
                        );
                        let block = seq![StateChange::TurnStarted { entity_id: next_id }] + ai_log
                            + seq![StateChange::TurnEnded { entity_id: next_id }];
                        assert(changes@ =~= pre_started + block);
                        assert(ai_blocks(block, player)) by {
                            reveal_with_fuel(ai_blocks, 3);
                            assert(block[0] == (StateChange::TurnStarted {
                                entity_id: next_id,
                            }));
                            if ai_log.len() == 0 {
                                assert(block.len() == 2);
                                assert(block[1] == (StateChange::TurnEnded {
                                    entity_id: next_id,
                                }));
                                assert(block.skip(2) =~= Seq::<StateChange>::empty());
                                assert(ai_blocks(block.skip(2), player));
                            } else {
                                assert(block.len() == 3);
                                assert(block[1] == ai_log[0]);
                                assert(block[2] == (StateChange::TurnEnded {
                                    entity_id: next_id,
                                }));
                                assert(block.skip(3) =~= Seq::<StateChange>::empty());
                                assert(ai_blocks(block.skip(3), player));
                            }
                        }
                        lemma_ai_blocks_append(pre_started, block, player);
                    }
                },
            }
        }
        changes
    }

    /// Resolves one submitted intent. A directional move produces and
    /// applies its change records and touches no turn state; an ended
    /// turn additionally advances the scheduler, auto-playing every
    /// non-interactive actor it lands on. The returned records, replayed
    /// in order over the old entity records, give exactly the new ones.
    pub fn handle_event(&mut self, event: GameEvent) -> (r: StateChanges)
        requires
            old(self).world.wf(),
            old(self).turn_manager.wf(),
            move_req(old(self).world.entities_seq(), event),
        ensures
            final(self).world.wf(),
            final(self).turn_manager.wf(),
            final(self).world.spec_player_id() == old(self).world.spec_player_id(),
            final(self).world.spec_next_id() == old(self).world.spec_next_id(),
            final(self).world.entities_seq() == apply_changes_to_entities(
                old(self).world.entities_seq(),
                r@,
            ),
            final(self).turn_manager.queue().len() == old(self).turn_manager.queue().len(),
            forall|id: EntityId| final(self).turn_manager.queue().contains(id) <==> old(
                self,
            ).turn_manager.queue().contains(id),
            event matches GameEvent::MoveByDirection(_, _) ==> r@ == spec_changes(
                event,
                old(self).world.entities_seq(),
            ) && final(self).turn_manager == old(self).turn_manager && final(self).process_state
                == old(self).process_state,
            event matches GameEvent::SkipTurn ==> r@.len() == 0 && final(self).turn_manager == old(
                self,
            ).turn_manager && final(self).process_state == old(self).process_state,
            event matches GameEvent::EndTurn(id) ==> r@.len() >= 1 && r@[0] == (
            StateChange::TurnEnded { entity_id: id }) && turn_log_ok(
                r@.skip(1),
                old(self).world.spec_player_id(),
            ) && (final(self).process_state is WaitingForPlayer ==> r@.last() == (
            StateChange::TurnStarted { entity_id: old(self).world.spec_player_id() })),
    {
        match event {
            GameEvent::MoveByDirection(entity_id, direction) => {
                let ev = GameEvent::MoveByDirection(entity_id, direction);
                let changes = ev.get_changes(&self.world);
                self.apply_all(&changes);
                changes
            },
            GameEvent::SkipTurn => {
                let changes: StateChanges = Vec::new();
                changes
            },
            GameEvent::EndTurn(entity_id) => {
                let mut changes: StateChanges = Vec::new();
                changes.push(StateChange::TurnEnded { entity_id });
                let ghost head = changes@;
                let mut rest = self.advance_turns();
                let ghost tail = rest@;
                changes.append(&mut rest);
                proof {
                    reveal_with_fuel(apply_changes_to_entities, 3);
                    assert(apply_changes_to_entities(old(self).world.entities_seq(), head)
                        == old(self).world.entities_seq());
                    lemma_apply_changes_concat(old(self).world.entities_seq(), head, tail);
                    assert(changes@.skip(1) =~= tail);
                    assert(changes@[0] == (StateChange::TurnEnded { entity_id }));
                    if changes@.len() > 1 {
                        assert(changes@.last() == tail.last());
                    }
                }
                changes
            },
        }
    }
}

/// All entity ids stored so far lie below the allocator's next id.
spec fn ids_below(s: Seq<Entity>, n: EntityId) -> bool {
    forall|i: int| 0 <= i < s.len() ==> (#[trigger] s[i]).id < n
}

/// Builds the starting state: a world whose designated player (id 1)
/// stands at the origin, one goblin at (5, 0), the walled debug level,
/// and a turn order that opens with the player.
pub fn create_initial_game_state() -> (r: GameState)
    ensures
        r.world.wf(),
        r.turn_manager.wf(),
        r.world.spec_player_id() == 1,
        r.turn_manager.queue() == seq![1usize, 2usize],
        r.turn_manager.spec_current() is None,
        r.world.entities_seq().len() == 2 + level_len(),
        r.world.entities_seq()[0].id == 1,
        r.world.entities_seq()[0].kind is Player,
        r.world.entities_seq()[0].pos == Some(WorldPosition { x: 0, y: 0 }),
        r.world.entities_seq()[1].id == 2,
        r.world.entities_seq()[1].kind matches EntityKind::Npc { .. },
        r.world.entities_seq()[1].pos == Some(WorldPosition { x: 5, y: 0 }),
        forall|i: int| 2 <= i < r.world.entities_seq().len() ==> (#[trigger] r.world.entities_seq()[i]).id
            == i + 1 && r.world.entities_seq()[i].kind == (EntityKind::Wall {
            material: spec_stone_material(),
        }) && r.world.entities_seq()[i].pos == Some(level_pos(i - 2)),
        r.process_state is ProcessingTurns,
{
    let player_id: EntityId = 1;
    let mut world = World::new(player_id);

    world.add_entity(
        Entity::new(
            player_id,
            EntityKind::Player,
            Some(WorldPosition::new(0, 0)),
            CoreAttributes::default(),
            Status { health: 10, stamina: 10, mana: 10, exhaustion: Exhaustion::Rested },
            None,
        ),
    );

    let goblin_id = world.get_next_entity_id();
    world.add_entity(create_goblin(Some(WorldPosition::new(5, 0))).with_id(goblin_id));

    let mut level = get_level();
    let ghost walls = level@;
    let mut k: usize = 0;
    let n = level.len();
    while k < n
        invariant
            k <= n,
            n == level_len(),
            walls.len() == level_len(),
            level@ == walls.skip(k as int),
            forall|j: int| 0 <= j < walls.len() ==> walls[j]
                == crate::prefabs::dungeon_environment::stone_wall_proto(Some(level_pos(j))),
            world.wf(),
            world.spec_player_id() == 1,
            world.spec_next_id() == 3 + k,
            world.entities_seq().len() == 2 + k,
            ids_below(world.entities_seq(), world.spec_next_id()),
            world.entities_seq()[0].id == 1,
            world.entities_seq()[0].kind is Player,
            world.entities_seq()[0].pos == Some(WorldPosition { x: 0, y: 0 }),
            world.entities_seq()[1].id == 2,
            world.entities_seq()[1].kind matches EntityKind::Npc { .. },
            world.entities_seq()[1].pos == Some(WorldPosition { x: 5, y: 0 }),
            forall|i: int| 2 <= i < world.entities_seq().len() ==> (
            #[trigger] world.entities_seq()[i]).id == i + 1 && world.entities_seq()[i].kind == (
            EntityKind::Wall { material: spec_stone_material() }) && world.entities_seq()[i].pos
                == Some(level_pos(i - 2)),
        decreases n - k,
    {
        let entity = level.remove(0);
        proof {
            assert(entity == walls[k as int]);
            assert(walls.skip(k as int).skip(1) =~= walls.skip(k as int + 1));
        }
        let id = world.get_next_entity_id();
        proof {
            assert(!has_id(world.entities_seq(), id));
        }
        world.add_entity(entity.with_id(id));
        k = k + 1;
    }

    let mut turn_manager = TurnManager::new();
    let others: [EntityId; 1] = [goblin_id];
    turn_manager.initialize(player_id, &others);
    proof {
        reveal_with_fuel(crate::turns::without_id, 3);
        assert(others@ =~= seq![2usize]);
        assert(crate::turns::without_id(others@, 1usize) =~= seq![2usize]);
        assert(turn_manager.queue() =~= seq![1usize, 2usize]);
    }

    GameState::new(world, turn_manager)
}

} // verus!
