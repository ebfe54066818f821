use vstd::prelude::*;
use vstd::string::StringExecFns;
use crate::registry::{Entity, Registry};
use crate::score::ScoreState;

verus! {

/// Whether two entities have started or stopped touching.
#[derive(Clone, Copy, Debug, PartialEq, Eq, Structural)]
pub enum Phase {
    Begin,
    End,
}

/// Two entities, named by label in no particular order, that started or
/// stopped touching.
#[derive(Debug)]
pub struct CollisionEvent {
    pub first: String,
    pub second: String,
    pub phase: Phase,
}

/// What a collision event says, over sequences of characters.
pub struct EventModel {
    pub first: Seq<char>,
    pub second: Seq<char>,
    pub phase: Phase,
}

impl View for CollisionEvent {
    type V = EventModel;

    open spec fn view(&self) -> EventModel {
        EventModel { first: self.first@, second: self.second@, phase: self.phase }
    }
}

/// The label reserved for the player, who is never removed.
pub open spec fn player_label() -> Seq<char> {
    seq!['p', 'l', 'a', 'y', 'e', 'r']
}

/// The entity a collision takes away: for a `Begin` event in which exactly
/// one side is the player, the other side; for any other event, none.
pub open spec fn victim(e: EventModel) -> Option<Seq<char>> {
    if e.phase == Phase::Begin && (e.first == player_label()) != (e.second == player_label()) {
        if e.first == player_label() {
            Some(e.second)
        } else {
            Some(e.first)
        }
    } else {
        None
    }
}

/// The entities and the score, as collisions see them.
pub struct Board {
    pub entities: Map<Seq<char>, Entity>,
    pub current: nat,
    pub high: nat,
}

/// One event applied to the board: a victim still present is removed and
/// earns one point, which raises the high score if it passes it; every
/// other event leaves the board as it is.
pub open spec fn resolve_event(b: Board, e: EventModel) -> Board {
    match victim(e) {
        Some(v) => if b.entities.contains_key(v) {
            Board {
                entities: b.entities.remove(v),
                current: b.current + 1,
                high: if b.high < b.current + 1 {
                    b.current + 1
                } else {
                    b.high
                },
            }
        } else {
            b
        },
        None => b,
    }
}

/// The events applied to the board in order.
pub open spec fn resolve_events(b: Board, es: Seq<EventModel>) -> Board
    decreases es.len(),
{
    if es.len() == 0 {
        b
    } else {
        resolve_event(resolve_events(b, es.drop_last()), es.last())
    }
}

/// The player's label.
pub fn player_label_text() -> (r: String)
    ensures
        r@ == player_label(),
{
    let r = String::from_str("player");
    proof {
        reveal_strlit("player");
    }
    assert(r@ =~= player_label());
    r
}

/// The label of the entity that `e` takes away, if any.
pub fn victim_label(e: &CollisionEvent) -> (r: Option<String>)
    ensures
        match r {
            Some(v) => victim(e@) == Some(v@),
            None => victim(e@) == None::<Seq<char>>,
        },
{
    let player = player_label_text();
    let first_is_player = e.first == player;
    let second_is_player = e.second == player;
    match e.phase {
        Phase::Begin => {
            if first_is_player && !second_is_player {
                Some(e.second.clone())
            } else if second_is_player && !first_is_player {
                Some(e.first.clone())
            } else {
                None
            }
        },
        Phase::End => None,
    }
}

/// What resolving a tick's collisions changed in the score.
#[derive(Clone, Copy, Debug, PartialEq, Eq, Structural)]
pub struct Resolution {
    /// Points earned.
    pub points: u64,
    /// Whether the high score was raised.
    pub high_raised: bool,
}

pub open spec fn board_of(registry: Registry, score: ScoreState) -> Board {
    Board { entities: registry@, current: score.current_spec(), high: score.high_spec() }
}

pub open spec fn models(es: Seq<CollisionEvent>) -> Seq<EventModel> {
    es.map_values(|e: CollisionEvent| e@)
}

/// Applies every event of the tick, in order, to the registry and the score.
pub fn resolve_collisions(
    registry: &mut Registry,
    score: &mut ScoreState,
    events: Vec<CollisionEvent>,
) -> (r: Resolution)
    requires
        old(registry).wf(),
        old(score).wf(),
        old(score).current_spec() + events@.len() <= u64::MAX,
    ensures
        final(registry).wf(),
        final(score).wf(),
        board_of(*final(registry), *final(score)) == resolve_events(
            board_of(*old(registry), *old(score)),
            models(events@),
        ),
        r.points == final(score).current_spec() - old(score).current_spec(),
        r.high_raised == (final(score).high_spec() != old(score).high_spec()),
{
    let ghost b0 = board_of(*registry, *score);
    let ghost ms = models(events@);
    let mut points: u64 = 0;
    let mut high_raised = false;
    let mut i: usize = 0;
    while i < events.len()
        invariant
            0 <= i <= events@.len(),
            ms == models(events@),
            registry.wf(),
            score.wf(),
            board_of(*registry, *score) == resolve_events(b0, ms.take(i as int)),
            points == score.current_spec() - b0.current,
            score.current_spec() <= b0.current + i,
            b0.current + events@.len() <= u64::MAX,
            high_raised == (score.high_spec() != b0.high),
            score.high_spec() >= b0.high,
        decreases events@.len() - i,
    {
        assert(ms.take(i + 1).drop_last() =~= ms.take(i as int));
        assert(ms.take(i + 1).last() == events@[i as int]@);
        let ghost before = board_of(*registry, *score);
        match victim_label(&events[i]) {
            Some(v) => {
                if registry.remove(&v) {
                    let raised = score.record_point();
                    points = points + 1;
                    high_raised = high_raised || raised;
                } else {
                    assert(registry@ =~= before.entities);
                }
            },
            None => {},
        }
        assert(board_of(*registry, *score) == resolve_event(before, events@[i as int]@));
        assert(resolve_events(b0, ms.take(i + 1)) == resolve_event(
            resolve_events(b0, ms.take(i as int)),
            events@[i as int]@,
        ));
        i = i + 1;
    }
    assert(ms.take(events@.len() as int) =~= ms);
    Resolution { points, high_raised }
}

/// A `Begin` event between the player and an entity still present removes
/// that entity and adds exactly one point.
pub proof fn lemma_present_victim_scores_one(b: Board, e: EventModel)
    requires
        victim(e) is Some,
        b.entities.contains_key(victim(e)->0),
    ensures
        resolve_event(b, e).current == b.current + 1,
        !resolve_event(b, e).entities.contains_key(victim(e)->0),
{
}

/// Two events in one tick that take away the same entity earn one point in
/// all if it was present, and none if it was already gone.
pub proof fn lemma_repeated_victim_scores_once(b: Board, e1: EventModel, e2: EventModel)
    requires
        victim(e1) is Some,
        victim(e2) == victim(e1),
    ensures
        resolve_events(b, seq![e1, e2]).current == b.current + if b.entities.contains_key(
            victim(e1)->0,
        ) {
            1nat
        } else {
            0nat
        },
        !resolve_events(b, seq![e1, e2]).entities.contains_key(victim(e1)->0),
{
    let es = seq![e1, e2];
    assert(es.drop_last() =~= seq![e1]);
    assert(seq![e1].drop_last() =~= Seq::<EventModel>::empty());
    assert(resolve_events(b, Seq::<EventModel>::empty()) == b);
    assert(seq![e1].last() == e1 && seq![e1].len() == 1);
    assert(resolve_events(b, seq![e1]) == resolve_event(b, e1));
    assert(es.last() == e2 && es.len() == 2);
    assert(resolve_events(b, es) == resolve_event(resolve_event(b, e1), e2));
}

/// Collisions never take the player away, nor change the player's entity,
/// and keep the high score at or above the current score.
pub proof fn lemma_resolve_keeps_player(b: Board, es: Seq<EventModel>)
    requires
        b.high >= b.current,
    ensures
        resolve_events(b, es).high >= resolve_events(b, es).current,
        resolve_events(b, es).current >= b.current,
        forall|l: Seq<char>| #[trigger]
            resolve_events(b, es).entities.contains_key(l) ==> b.entities.contains_key(l),
        b.entities.contains_key(player_label()) ==> resolve_events(b, es).entities.contains_key(
            player_label(),
        ) && resolve_events(b, es).entities[player_label()] == b.entities[player_label()],
    decreases es.len(),
{
    if es.len() > 0 {
        lemma_resolve_keeps_player(b, es.drop_last());
    }
}

} // verus!
