use vstd::prelude::*;
use crate::collision::{
    Board, CollisionEvent, board_of, lemma_resolve_keeps_player, models, player_label,
    player_label_text, resolve_collisions, resolve_events,
};
use crate::edge::{EdgeDetector, rising};
use crate::motion::{HeldKeys, motion_fits, motion_fits_spec, move_position, moved_x, moved_y};
use crate::registry::{Entity, Position, Registry, RegistryError};
use crate::score::ScoreState;
use crate::spawn::{
    SpawnScheduler, is_reserved_label, lemma_new_label_is_fresh, lemma_spawn_label_reserved,
    lemma_spawn_labels_distinct, random_spawn_position, reserved_label, spawn_label,
    spawned_entity, spawned_entity_spec, in_spawn_band,
};

verus! {

/// Time between spawns, in milliseconds.
pub const SPAWN_PERIOD_MS: u64 = 2000;

/// The player's drawing scale, in hundredths.
pub const PLAYER_SCALE_PCT: u32 = 100;

/// What the outside world hands the game on one tick.
#[derive(Debug)]
pub struct TickInput {
    /// The collisions reported since the last tick, in arrival order.
    pub events: Vec<CollisionEvent>,
    /// The movement directions held.
    pub keys: HeldKeys,
    /// Whether the reset key is held.
    pub reset_held: bool,
    /// Whether the exit key is held.
    pub exit_held: bool,
    /// Time since the last tick, in milliseconds.
    pub delta_ms: u64,
}

/// What one tick did, for the display, the sound and the host.
#[derive(Debug)]
pub struct TickOutput {
    /// Points earned from collisions.
    pub points: u64,
    /// Whether collisions raised the high score.
    pub high_raised: bool,
    /// The label of the entity spawned, if one was.
    pub spawned: Option<String>,
    /// Whether the current score was reset.
    pub reset: bool,
    /// Whether the game should end.
    pub exit: bool,
}

/// The whole state of a session.
pub struct GameState {
    pub registry: Registry,
    pub score: ScoreState,
    pub spawner: SpawnScheduler,
    pub reset_key: EdgeDetector,
    pub exit_key: EdgeDetector,
}

/// The player's entity after moving for `delta` milliseconds with `keys` held.
pub open spec fn moved_entity(e: Entity, keys: HeldKeys, delta: nat) -> Entity {
    Entity {
        position: Position {
            x: moved_x(e.position, keys, delta) as i64,
            y: moved_y(e.position, keys, delta) as i64,
        },
        ..e
    }
}

impl GameState {
    /// The player is present, the parts are well formed, and no entity holds
    /// a label that the spawner has yet to hand out.
    pub open spec fn wf(&self) -> bool {
        &&& self.registry.wf()
        &&& self.score.wf()
        &&& self.spawner.wf()
        &&& self.registry@.contains_key(player_label())
        &&& forall|k: nat|
            k >= self.spawner.next_index_spec() ==> !self.registry@.contains_key(
                #[trigger] spawn_label(k),
            )
    }

    pub open spec fn board(&self) -> Board {
        board_of(self.registry, self.score)
    }

    /// The entities and the score once this tick's collisions are resolved.
    pub open spec fn collided(&self, input: TickInput) -> Board {
        resolve_events(self.board(), models(input.events@))
    }

    pub open spec fn player(&self) -> Entity {
        self.registry@[player_label()]
    }

    /// The counters stay within their types on this tick.
    pub open spec fn tick_fits(&self, input: TickInput) -> bool {
        &&& self.score.current_spec() + input.events@.len() <= u64::MAX
        &&& self.spawner.next_index_spec() < u64::MAX
        &&& motion_fits_spec(self.player().position, input.keys, input.delta_ms as nat)
    }

    /// The entities after this tick: collisions first, then the player's
    /// move, then the spawn, if the timer fires, at `spawn_at`.
    pub open spec fn entities_after(&self, input: TickInput, spawn_at: Position) -> Map<
        Seq<char>,
        Entity,
    > {
        let b = self.collided(input);
        let moved = b.entities.insert(
            player_label(),
            moved_entity(b.entities[player_label()], input.keys, input.delta_ms as nat),
        );
        if self.spawner.fires(input.delta_ms as nat) {
            moved.insert(
                spawn_label(self.spawner.next_index_spec()),
                spawned_entity_spec(spawn_at),
            )
        } else {
            moved
        }
    }

    /// One tick from `self` to `next` with output `out`, in this order:
    /// collisions, movement, spawning, reset, exit.
    pub open spec fn frame(
        &self,
        input: TickInput,
        spawn_at: Position,
        next: GameState,
        out: TickOutput,
    ) -> bool {
        let b = self.collided(input);
        let fired = self.spawner.fires(input.delta_ms as nat);
        let reset = rising(self.reset_key.was_on, input.reset_held);
        &&& next.registry@ == self.entities_after(input, spawn_at)
        &&& next.score.current_spec() == if reset {
            0
        } else {
            b.current
        }
        &&& next.score.high_spec() == b.high
        &&& next.spawner.period_spec() == self.spawner.period_spec()
        &&& next.spawner.elapsed_spec() == if fired {
            0
        } else {
            self.spawner.elapsed_spec() + input.delta_ms
        }
        &&& next.spawner.next_index_spec() == self.spawner.next_index_spec() + if fired {
            1nat
        } else {
            0nat
        }
        &&& next.reset_key.was_on == input.reset_held
        &&& next.exit_key.was_on == input.exit_held
        &&& out.points == b.current - self.score.current_spec()
        &&& out.high_raised == (b.high != self.score.high_spec())
        &&& match out.spawned {
            Some(l) => fired && l@ == spawn_label(self.spawner.next_index_spec()),
            None => !fired,
        }
        &&& out.reset == reset
        &&& out.exit == rising(self.exit_key.was_on, input.exit_held)
    }

    /// A new session: the player alone at the origin, both scores zero, the
    /// spawn timer empty, no key held before.
    pub fn new() -> (r: GameState)
        ensures
            r.wf(),
            r.registry@ == Map::<Seq<char>, Entity>::empty().insert(
                player_label(),
                Entity {
                    position: Position { x: 0, y: 0 },
                    scale_pct: PLAYER_SCALE_PCT,
                    collision: true,
                },
            ),
            r.score.current_spec() == 0,
            r.score.high_spec() == 0,
            r.spawner.next_index_spec() == 0,
            r.spawner.period_spec() == SPAWN_PERIOD_MS,
            r.spawner.elapsed_spec() == 0,
            !r.reset_key.was_on,
            !r.exit_key.was_on,
    {
        let mut registry = Registry::new();
        let player = Entity {
            position: Position { x: 0, y: 0 },
            scale_pct: PLAYER_SCALE_PCT,
            collision: true,
        };
        let _ = registry.insert(player_label_text(), player);
        let r = GameState {
            registry,
            score: ScoreState::new(),
            spawner: SpawnScheduler::new(SPAWN_PERIOD_MS),
            reset_key: EdgeDetector::new(),
            exit_key: EdgeDetector::new(),
        };
        assert forall|k: nat| k >= r.spawner.next_index_spec() implies !r.registry@.contains_key(
            #[trigger] spawn_label(k),
        ) by {
            lemma_spawn_label_reserved(k);
            lemma_player_not_reserved();
        }
        r
    }

    /// Adds an entity under a label that is neither taken nor reserved for
    /// spawning; either of those is refused as a duplicate.
    pub fn add_entity(&mut self, label: String, entity: Entity) -> (r: Result<(), RegistryError>)
        requires
            old(self).wf(),
        ensures
            final(self).wf(),
            final(self).score == old(self).score,
            final(self).spawner == old(self).spawner,
            final(self).reset_key == old(self).reset_key,
            final(self).exit_key == old(self).exit_key,
            (old(self).registry@.contains_key(label@) || reserved_label(label@)) ==> r == Err::<
                (),
                RegistryError,
            >(RegistryError::DuplicateLabel) && final(self).registry@ == old(self).registry@,
            !(old(self).registry@.contains_key(label@) || reserved_label(label@)) ==> r == Ok::<
                (),
                RegistryError,
            >(()) && final(self).registry@ == old(self).registry@.insert(label@, entity),
    {
        if is_reserved_label(&label) {
            return Err(RegistryError::DuplicateLabel);
        }
        let ghost l = label@;
        let r = self.registry.insert(label, entity);
        assert forall|k: nat| k >= self.spawner.next_index_spec() implies !self.registry@.contains_key(
            #[trigger] spawn_label(k),
        ) by {
            lemma_spawn_label_reserved(k);
        }
        r
    }

    /// Whether the counters stay within their types on this tick.
    pub fn can_tick(&self, input: &TickInput) -> (r: bool)
        requires
            self.wf(),
        ensures
            r == self.tick_fits(*input),
    {
        let player = self.registry.get(&player_label_text()).unwrap();
        self.spawner.next_index() < u64::MAX && input.events.len() as u64 <= u64::MAX
            - self.score.current() && motion_fits(player.position, input.keys, input.delta_ms)
    }
    /// Runs one tick, placing a spawned entity, if the timer fires, at
    /// `spawn_at`.
    pub fn tick_with(&mut self, input: TickInput, spawn_at: Position) -> (out: TickOutput)
        requires
            old(self).wf(),
            old(self).tick_fits(input),
        ensures
            final(self).wf(),
            old(self).frame(input, spawn_at, *final(self), out),
    {
        let ghost s0 = *self;
        let ghost b = s0.collided(input);
        let keys = input.keys;
        let delta_ms = input.delta_ms;
        let reset_held = input.reset_held;
        let exit_held = input.exit_held;
        // collisions
        let resolution = resolve_collisions(&mut self.registry, &mut self.score, input.events);
        proof {
            lemma_resolve_keeps_player(s0.board(), models(input.events@));
        }
        assert(self.registry@ == b.entities);
        // movement
        let player_name = player_label_text();
        let player = self.registry.get(&player_name).unwrap();
        let moved = move_position(player.position, keys, delta_ms);
        let _ = self.registry.set_position(&player_name, moved);
        assert(self.registry@ == b.entities.insert(
            player_label(),
            moved_entity(b.entities[player_label()], keys, delta_ms as nat),
        ));
        // spawning
        let ghost m1 = self.registry@;
        let ghost n = self.spawner.next_index_spec();
        let fired = self.spawner.advance(delta_ms);
        let spawned = if fired {
            let label = self.spawner.take_label();
            proof {
                lemma_new_label_is_fresh(n);
            }
            let _ = self.registry.insert(label.clone(), spawned_entity(spawn_at));
            Some(label)
        } else {
            None
        };
        assert forall|k: nat| k >= self.spawner.next_index_spec() implies !self.registry@.contains_key(
            #[trigger] spawn_label(k),
        ) by {
            lemma_spawn_label_reserved(k);
            lemma_player_not_reserved();
            if fired {
                lemma_spawn_labels_distinct(k, n);
            }
            assert(!s0.registry@.contains_key(spawn_label(k)));
            assert(!b.entities.contains_key(spawn_label(k)));
            assert(!m1.contains_key(spawn_label(k)));
        }
        assert(self.registry@ == s0.entities_after(input, spawn_at));
        // reset and exit
        let reset = self.reset_key.update(reset_held);
        if reset {
            self.score.reset_current();
        }
        let exit = self.exit_key.update(exit_held);
        TickOutput {
            points: resolution.points,
            high_raised: resolution.high_raised,
            spawned,
            reset,
            exit,
        }
    }

    /// Runs one tick, placing a spawned entity at a random point of the spawn
    /// band. Refuses, and changes nothing, when a counter would leave its type.
    pub fn tick(&mut self, input: TickInput) -> (out: Option<TickOutput>)
        requires
            old(self).wf(),
        ensures
            final(self).wf(),
            old(self).tick_fits(input) <==> out is Some,
            out is None ==> *final(self) == *old(self),
            out matches Some(o) ==> exists|p: Position|
                in_spawn_band(p) && #[trigger] old(self).frame(input, p, *final(self), o),
    {
        if !self.can_tick(&input) {
            return None;
        }
        let p = random_spawn_position();
        let o = self.tick_with(input, p);
        Some(o)
    }
}

proof fn lemma_player_not_reserved()
    ensures
        !reserved_label(player_label()),
{
    assert(player_label().subrange(0, 6)[0] == 'p');
}

/// `states` are the states of a run of ticks, each reached from the one
/// before it by a tick on the matching input, spawn point and output.
pub open spec fn is_run(
    states: Seq<GameState>,
    inputs: Seq<TickInput>,
    spawns: Seq<Position>,
    outs: Seq<TickOutput>,
) -> bool {
    &&& states.len() == inputs.len() + 1
    &&& spawns.len() == inputs.len()
    &&& outs.len() == inputs.len()
    &&& forall|i: int| 0 <= i < inputs.len() ==> #[trigger] tick_at(states, inputs, spawns, outs, i)
}

/// Tick `i` of a run leads from state `i` to state `i + 1`.
pub open spec fn tick_at(
    states: Seq<GameState>,
    inputs: Seq<TickInput>,
    spawns: Seq<Position>,
    outs: Seq<TickOutput>,
    i: int,
) -> bool {
    states[i].frame(inputs[i], spawns[i], states[i + 1], outs[i])
}

proof fn lemma_frame_keeps_score_order(
    s: GameState,
    input: TickInput,
    p: Position,
    next: GameState,
    out: TickOutput,
)
    requires
        s.score.wf(),
        s.frame(input, p, next, out),
    ensures
        next.score.wf(),
{
    lemma_resolve_keeps_player(s.board(), models(input.events@));
}

proof fn lemma_run_prefix_keeps_score_order(
    states: Seq<GameState>,
    inputs: Seq<TickInput>,
    spawns: Seq<Position>,
    outs: Seq<TickOutput>,
    i: int,
)
    requires
        is_run(states, inputs, spawns, outs),
        states[0].wf(),
        0 <= i < states.len(),
    ensures
        states[i].score.high_spec() >= states[i].score.current_spec(),
    decreases i,
{
    if i > 0 {
        lemma_run_prefix_keeps_score_order(states, inputs, spawns, outs, i - 1);
        assert(tick_at(states, inputs, spawns, outs, i - 1));
        lemma_frame_keeps_score_order(
            states[i - 1],
            inputs[i - 1],
            spawns[i - 1],
            states[i],
            outs[i - 1],
        );
    }
}

/// After every tick of a run the high score is at or above the current
/// score.
pub proof fn lemma_run_keeps_high_above_current(
    states: Seq<GameState>,
    inputs: Seq<TickInput>,
    spawns: Seq<Position>,
    outs: Seq<TickOutput>,
)
    requires
        is_run(states, inputs, spawns, outs),
        states[0].wf(),
    ensures
        forall|i: int|
            0 <= i < states.len() ==> #[trigger] states[i].score.high_spec()
                >= states[i].score.current_spec(),
{
    assert forall|i: int| 0 <= i < states.len() implies #[trigger] states[i].score.high_spec()
        >= states[i].score.current_spec() by {
        lemma_run_prefix_keeps_score_order(states, inputs, spawns, outs, i);
    }
}

/// While the reset key stays held over a run of ticks, only the first tick
/// of the run can reset the current score; every later one keeps the score
/// that its collisions left.
pub proof fn lemma_held_reset_acts_once(
    states: Seq<GameState>,
    inputs: Seq<TickInput>,
    spawns: Seq<Position>,
    outs: Seq<TickOutput>,
)
    requires
        is_run(states, inputs, spawns, outs),
        forall|i: int| 0 <= i < inputs.len() ==> #[trigger] inputs[i].reset_held,
    ensures
        forall|i: int|
            1 <= i < inputs.len() ==> !(#[trigger] outs[i]).reset
                && states[i + 1].score.current_spec() == states[i].collided(inputs[i]).current,
        inputs.len() > 0 ==> outs[0].reset == !states[0].reset_key.was_on,
{
    assert forall|i: int| 1 <= i < inputs.len() implies !(#[trigger] outs[i]).reset
        && states[i + 1].score.current_spec() == states[i].collided(inputs[i]).current by {
        assert(tick_at(states, inputs, spawns, outs, i - 1));
        assert(tick_at(states, inputs, spawns, outs, i));
        assert(inputs[i - 1].reset_held);
    }
    if inputs.len() > 0 {
        assert(tick_at(states, inputs, spawns, outs, 0));
        assert(inputs[0].reset_held);
    }
}

proof fn lemma_run_counter_grows(
    states: Seq<GameState>,
    inputs: Seq<TickInput>,
    spawns: Seq<Position>,
    outs: Seq<TickOutput>,
    i: int,
    j: int,
)
    requires
        is_run(states, inputs, spawns, outs),
        0 <= i <= j < states.len(),
    ensures
        states[j].spawner.next_index_spec() >= states[i].spawner.next_index_spec(),
    decreases j - i,
{
    if i < j {
        lemma_run_counter_grows(states, inputs, spawns, outs, i + 1, j);
        assert(tick_at(states, inputs, spawns, outs, i));
    }
}

/// Over a run of ticks each tick spawns at most one entity, and no two ticks
/// spawn entities with the same label.
pub proof fn lemma_run_spawn_labels_unique(
    states: Seq<GameState>,
    inputs: Seq<TickInput>,
    spawns: Seq<Position>,
    outs: Seq<TickOutput>,
)
    requires
        is_run(states, inputs, spawns, outs),
    ensures
        forall|i: int, j: int|
            0 <= i < j < outs.len() && #[trigger] outs[i].spawned is Some
                && #[trigger] outs[j].spawned is Some ==> outs[i].spawned->0@
                != outs[j].spawned->0@,
{
    assert forall|i: int, j: int|
        0 <= i < j < outs.len() && #[trigger] outs[i].spawned is Some
            && #[trigger] outs[j].spawned is Some implies outs[i].spawned->0@
            != outs[j].spawned->0@ by {
        assert(tick_at(states, inputs, spawns, outs, i));
        assert(tick_at(states, inputs, spawns, outs, j));
        lemma_run_counter_grows(states, inputs, spawns, outs, i + 1, j);
        lemma_spawn_labels_distinct(
            states[i].spawner.next_index_spec(),
            states[j].spawner.next_index_spec(),
        );
    }
}

} // verus!
