use game_sample::collision::{resolve_collisions, victim_label, CollisionEvent, Phase};
use game_sample::display::{current_score_text, high_score_text};
use game_sample::edge::EdgeDetector;
use game_sample::game::{GameState, TickInput, SPAWN_PERIOD_MS};
use game_sample::motion::{motion_fits, move_position, HeldKeys};
use game_sample::registry::{Entity, Position, Registry, RegistryError};
use game_sample::score::ScoreState;
use game_sample::spawn::{
    is_reserved_label, random_spawn_position, spawn_label_text, spawned_entity, SpawnScheduler,
    SPAWN_HALF_HEIGHT, SPAWN_HALF_WIDTH,
};

fn begin(a: &str, b: &str) -> CollisionEvent {
    CollisionEvent { first: a.to_string(), second: b.to_string(), phase: Phase::Begin }
}

fn end(a: &str, b: &str) -> CollisionEvent {
    CollisionEvent { first: a.to_string(), second: b.to_string(), phase: Phase::End }
}

fn no_keys() -> HeldKeys {
    HeldKeys { up: false, down: false, left: false, right: false }
}

fn quiet(events: Vec<CollisionEvent>) -> TickInput {
    TickInput { events, keys: no_keys(), reset_held: false, exit_held: false, delta_ms: 0 }
}

fn thing(x: i64, y: i64) -> Entity {
    Entity { position: Position { x, y }, scale_pct: 30, collision: true }
}

fn origin() -> Position {
    Position { x: 0, y: 0 }
}

fn has(g: &GameState, label: &str) -> bool {
    g.registry.contains(&label.to_string())
}

#[test]
fn scenario_score_and_reset() {
    let mut g = GameState::new();
    for l in ["x1", "x2", "x3"] {
        assert_eq!(g.add_entity(l.to_string(), thing(10, 10)), Ok(()));
    }
    g.tick_with(quiet(vec![begin("player", "x1")]), origin());
    assert_eq!((g.score.current(), g.score.high()), (1, 1));
    assert!(!has(&g, "x1"));
    g.tick_with(quiet(vec![begin("player", "x2")]), origin());
    assert_eq!((g.score.current(), g.score.high()), (2, 2));
    let mut reset = quiet(vec![]);
    reset.reset_held = true;
    let out = g.tick_with(reset, origin());
    assert!(out.reset);
    assert_eq!((g.score.current(), g.score.high()), (0, 2));
    let out = g.tick_with(quiet(vec![begin("player", "x3")]), origin());
    assert_eq!((g.score.current(), g.score.high()), (1, 2));
    assert_eq!(out.points, 1);
    assert!(!out.high_raised);
}

#[test]
fn score_tracker_sequence() {
    let mut s = ScoreState::new();
    assert!(s.record_point());
    assert!(s.record_point());
    assert_eq!((s.current(), s.high()), (2, 2));
    s.reset_current();
    assert_eq!((s.current(), s.high()), (0, 2));
    assert!(!s.record_point());
    assert_eq!((s.current(), s.high()), (1, 2));
}

#[test]
fn reset_keeps_high() {
    let mut s = ScoreState::new();
    for _ in 0..5 {
        s.record_point();
    }
    s.reset_current();
    assert_eq!(s.high(), 5);
    assert_eq!(s.current(), 0);
    s.reset_current();
    assert_eq!(s.high(), 5);
}

#[test]
fn high_never_below_current_over_ticks() {
    let mut g = GameState::new();
    for i in 0..6 {
        g.add_entity(format!("e{}", i), thing(i, i)).unwrap();
    }
    let plan: Vec<(Vec<CollisionEvent>, bool)> = vec![
        (vec![begin("player", "e0"), begin("e1", "player")], false),
        (vec![], true),
        (vec![begin("player", "e2")], true),
        (vec![begin("player", "e3"), begin("player", "e4"), begin("e5", "player")], false),
        (vec![], true),
    ];
    for (events, reset_held) in plan {
        let mut input = quiet(events);
        input.reset_held = reset_held;
        input.delta_ms = 700;
        g.tick(input).unwrap();
        assert!(g.score.high() >= g.score.current());
    }
    assert_eq!(g.score.high(), 4);
    assert_eq!(g.score.current(), 0);
}

#[test]
fn begin_with_present_entity_scores_and_removes() {
    let mut g = GameState::new();
    g.add_entity("rock".to_string(), thing(5, 5)).unwrap();
    let out = g.tick_with(quiet(vec![begin("rock", "player")]), origin());
    assert_eq!(out.points, 1);
    assert!(out.high_raised);
    assert_eq!(g.score.current(), 1);
    assert!(!has(&g, "rock"));
    assert!(has(&g, "player"));
}

#[test]
fn repeated_victim_counts_once() {
    let mut g = GameState::new();
    g.add_entity("rock".to_string(), thing(5, 5)).unwrap();
    let out = g.tick_with(
        quiet(vec![begin("player", "rock"), begin("rock", "player")]),
        origin(),
    );
    assert_eq!(out.points, 1);
    assert_eq!(g.score.current(), 1);
    let out = g.tick_with(quiet(vec![begin("player", "rock")]), origin());
    assert_eq!(out.points, 0);
    assert_eq!(g.score.current(), 1);
}

#[test]
fn ignored_events() {
    let mut reg = Registry::new();
    reg.insert("player".to_string(), thing(0, 0)).unwrap();
    reg.insert("a".to_string(), thing(1, 1)).unwrap();
    reg.insert("b".to_string(), thing(2, 2)).unwrap();
    let mut s = ScoreState::new();
    let r = resolve_collisions(
        &mut reg,
        &mut s,
        vec![end("player", "a"), begin("a", "b"), begin("player", "player")],
    );
    assert_eq!(r.points, 0);
    assert!(!r.high_raised);
    assert_eq!(s.current(), 0);
    assert_eq!(reg.len(), 3);
}

#[test]
fn victim_of_each_kind_of_event() {
    assert_eq!(victim_label(&begin("player", "a")), Some("a".to_string()));
    assert_eq!(victim_label(&begin("a", "player")), Some("a".to_string()));
    assert_eq!(victim_label(&end("a", "player")), None);
    assert_eq!(victim_label(&begin("player", "player")), None);
    assert_eq!(victim_label(&begin("a", "b")), None);
    assert_eq!(victim_label(&begin("player2", "a")), None);
}

#[test]
fn timer_fires_once_and_drops_excess() {
    let mut t = SpawnScheduler::new(2000);
    assert!(!t.advance(1999));
    assert_eq!(t.elapsed_ms(), 1999);
    assert!(t.advance(1));
    assert_eq!(t.elapsed_ms(), 0);
    assert!(t.advance(7000));
    assert_eq!(t.elapsed_ms(), 0);
    assert!(!t.advance(1500));
    assert_eq!(t.elapsed_ms(), 1500);
}

#[test]
fn spawn_labels_are_fresh() {
    let mut t = SpawnScheduler::new(SPAWN_PERIOD_MS);
    let a = t.take_label();
    let b = t.take_label();
    assert_eq!(a, "ferris0");
    assert_eq!(b, "ferris1");
    assert_eq!(t.next_index(), 2);
    assert_eq!(spawn_label_text(42), "ferris42");
    assert_eq!(spawn_label_text(1), "ferris1");
    assert_ne!(spawn_label_text(1), spawn_label_text(10));
}

#[test]
fn tick_spawns_at_most_once() {
    let mut g = GameState::new();
    let mut input = quiet(vec![]);
    input.delta_ms = 9000;
    let out = g.tick_with(input, Position { x: 1000, y: -2000 });
    assert_eq!(out.spawned, Some("ferris0".to_string()));
    assert_eq!(g.spawner.next_index(), 1);
    assert_eq!(g.registry.len(), 2);
    let e = g.registry.get(&"ferris0".to_string()).unwrap();
    assert_eq!(e, Entity { position: Position { x: 1000, y: -2000 }, scale_pct: 30, collision: true });
    let mut input = quiet(vec![]);
    input.delta_ms = 1000;
    let out = g.tick_with(input, origin());
    assert_eq!(out.spawned, None);
    let mut input = quiet(vec![]);
    input.delta_ms = 1000;
    let out = g.tick(input).unwrap();
    assert_eq!(out.spawned, Some("ferris1".to_string()));
    let p = g.registry.get(&"ferris1".to_string()).unwrap().position;
    assert!(-SPAWN_HALF_WIDTH <= p.x && p.x < SPAWN_HALF_WIDTH);
    assert!(-SPAWN_HALF_HEIGHT <= p.y && p.y < SPAWN_HALF_HEIGHT);
}

#[test]
fn random_positions_stay_in_band() {
    for _ in 0..200 {
        let p = random_spawn_position();
        assert!(-550_000 <= p.x && p.x < 550_000);
        assert!(-325_000 <= p.y && p.y < 325_000);
    }
    assert_eq!(spawned_entity(origin()).scale_pct, 30);
}

#[test]
fn held_reset_acts_once() {
    let mut g = GameState::new();
    for l in ["a", "b", "c"] {
        g.add_entity(l.to_string(), thing(1, 1)).unwrap();
    }
    g.tick_with(quiet(vec![begin("player", "a"), begin("player", "b")]), origin());
    let mut held = quiet(vec![]);
    held.reset_held = true;
    assert!(g.tick_with(held, origin()).reset);
    assert_eq!(g.score.current(), 0);
    let mut held = quiet(vec![begin("player", "c")]);
    held.reset_held = true;
    assert!(!g.tick_with(held, origin()).reset);
    assert_eq!(g.score.current(), 1);
    let mut held = quiet(vec![]);
    held.reset_held = true;
    assert!(!g.tick_with(held, origin()).reset);
    assert_eq!(g.score.current(), 1);
    g.tick_with(quiet(vec![]), origin());
    let mut held = quiet(vec![]);
    held.reset_held = true;
    assert!(g.tick_with(held, origin()).reset);
    assert_eq!((g.score.current(), g.score.high()), (0, 2));
}

#[test]
fn exit_is_edge_triggered() {
    let mut g = GameState::new();
    let mut input = quiet(vec![]);
    input.exit_held = true;
    assert!(g.tick_with(input, origin()).exit);
    let mut input = quiet(vec![]);
    input.exit_held = true;
    assert!(!g.tick_with(input, origin()).exit);
}

#[test]
fn edge_detector_rises_on_press() {
    let mut d = EdgeDetector::new();
    assert!(!d.update(false));
    assert!(d.update(true));
    assert!(!d.update(true));
    assert!(!d.update(false));
    assert!(d.update(true));
}

#[test]
fn movement_from_keys() {
    let up = HeldKeys { up: true, down: false, left: false, right: false };
    assert_eq!(move_position(origin(), up, 1000), Position { x: 0, y: 100_000 });
    let both = HeldKeys { up: true, down: true, left: true, right: false };
    assert_eq!(move_position(Position { x: 5, y: 5 }, both, 16), Position { x: 5 - 1600, y: 5 });
    let mut g = GameState::new();
    let mut input = quiet(vec![]);
    input.keys = HeldKeys { up: false, down: false, left: false, right: true };
    input.delta_ms = 20;
    g.tick_with(input, origin());
    let p = g.registry.get(&"player".to_string()).unwrap().position;
    assert_eq!(p, Position { x: 2000, y: 0 });
}

#[test]
fn movement_out_of_range_is_refused() {
    let right = HeldKeys { up: false, down: false, left: false, right: true };
    assert!(!motion_fits(Position { x: i64::MAX - 10, y: 0 }, right, 1));
    assert!(motion_fits(Position { x: i64::MAX - 100, y: 0 }, right, 1));
    assert!(!motion_fits(origin(), right, u64::MAX));
    let mut g = GameState::new();
    let mut input = quiet(vec![]);
    input.keys = right;
    input.delta_ms = u64::MAX;
    assert!(g.tick(input).is_none());
    assert_eq!(g.spawner.elapsed_ms(), 0);
}

#[test]
fn registry_errors() {
    let mut r = Registry::new();
    assert_eq!(r.insert("a".to_string(), thing(1, 2)), Ok(()));
    assert_eq!(r.insert("a".to_string(), thing(3, 4)), Err(RegistryError::DuplicateLabel));
    assert_eq!(r.get(&"a".to_string()), Ok(thing(1, 2)));
    assert_eq!(r.get(&"b".to_string()), Err(RegistryError::NotFound));
    assert_eq!(r.set_position(&"b".to_string(), origin()), Err(RegistryError::NotFound));
    assert_eq!(r.set_position(&"a".to_string(), Position { x: 9, y: 9 }), Ok(()));
    assert_eq!(r.get(&"a".to_string()).unwrap().position, Position { x: 9, y: 9 });
    assert!(!r.remove(&"b".to_string()));
    assert!(r.remove(&"a".to_string()));
    assert!(!r.remove(&"a".to_string()));
    assert_eq!(r.len(), 0);
}

#[test]
fn reserved_labels_are_refused() {
    let mut g = GameState::new();
    assert_eq!(g.add_entity("ferris7".to_string(), thing(0, 0)), Err(RegistryError::DuplicateLabel));
    assert_eq!(g.add_entity("player".to_string(), thing(0, 0)), Err(RegistryError::DuplicateLabel));
    assert_eq!(g.add_entity("ferri".to_string(), thing(0, 0)), Ok(()));
    assert!(is_reserved_label(&"ferris".to_string()));
    assert!(!is_reserved_label(&"Ferris1".to_string()));
}

#[test]
fn score_texts() {
    assert_eq!(current_score_text(0), "Current score: 0");
    assert_eq!(current_score_text(120), "Current score: 120");
    assert_eq!(high_score_text(7), "High score: 7");
}
