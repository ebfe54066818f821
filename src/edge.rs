use vstd::prelude::*;

verus! {

/// Whether a signal went from off to on between two ticks.
pub open spec fn rising(before: bool, now: bool) -> bool {
    now && !before
}

/// For the signal's states over successive ticks, starting after `before`,
/// the ticks on which it went from off to on.
pub open spec fn rising_edges(before: bool, states: Seq<bool>) -> Seq<bool> {
    Seq::new(
        states.len(),
        |i: int| rising(if i == 0 { before } else { states[i - 1] }, states[i]),
    )
}

/// Tells, tick by tick, when a signal has just come on.
#[derive(Clone, Copy, Debug, PartialEq, Eq, Structural)]
pub struct EdgeDetector {
    /// The signal's state on the previous tick.
    pub was_on: bool,
}

impl EdgeDetector {
    /// A detector for a signal that was off before the first tick.
    pub fn new() -> (r: EdgeDetector)
        ensures
            r.was_on == false,
    {
        EdgeDetector { was_on: false }
    }

    /// Takes the signal's state on this tick; returns whether it has just come on.
    pub fn update(&mut self, now: bool) -> (r: bool)
        ensures
            r == rising(old(self).was_on, now),
            final(self).was_on == now,
    {
        let r = now && !self.was_on;
        self.was_on = now;
        r
    }
}

/// A signal held on over consecutive ticks comes on at most once: on the
/// first of those ticks, and only if it was off before.
pub proof fn lemma_held_signal_rises_once(before: bool, states: Seq<bool>)
    requires
        forall|i: int| 0 <= i < states.len() ==> states[i],
    ensures
        forall|i: int| 1 <= i < states.len() ==> !(#[trigger] rising_edges(before, states)[i]),
        states.len() > 0 ==> rising_edges(before, states)[0] == !before,
{
}

} // verus!
