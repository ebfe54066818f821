use vstd::prelude::*;

verus! {

/// The current score of the session and the best score seen in it.
#[derive(Clone, Copy, Debug, PartialEq, Eq)]
pub struct ScoreState {
    current: u64,
    high: u64,
}

impl ScoreState {
    /// The high score never falls below the current score.
    pub open spec fn wf(self) -> bool {
        self.high_spec() >= self.current_spec()
    }

    pub closed spec fn current_spec(self) -> nat {
        self.current as nat
    }

    pub closed spec fn high_spec(self) -> nat {
        self.high as nat
    }

    /// A fresh session: both scores are zero.
    pub fn new() -> (r: ScoreState)
        ensures
            r.wf(),
            r.current_spec() == 0,
            r.high_spec() == 0,
    {
        ScoreState { current: 0, high: 0 }
    }

    pub fn current(&self) -> (r: u64)
        ensures
            r == self.current_spec(),
    {
        self.current
    }

    pub fn high(&self) -> (r: u64)
        ensures
            r == self.high_spec(),
    {
        self.high
    }

    /// Adds one point; raises the high score to the current score when the
    /// current score passes it. Returns whether the high score changed.
    pub fn record_point(&mut self) -> (raised: bool)
        requires
            old(self).wf(),
            old(self).current_spec() < u64::MAX,
        ensures
            final(self).wf(),
            final(self).current_spec() == old(self).current_spec() + 1,
            final(self).high_spec() == if old(self).high_spec() < old(self).current_spec() + 1 {
                old(self).current_spec() + 1
            } else {
                old(self).high_spec()
            },
            raised == (old(self).high_spec() < old(self).current_spec() + 1),
    {
        self.current = self.current + 1;
        if self.high < self.current {
            self.high = self.current;
            true
        } else {
            false
        }
    }

    /// Sets the current score to zero and keeps the high score.
    pub fn reset_current(&mut self)
        requires
            old(self).wf(),
        ensures
            final(self).wf(),
            final(self).current_spec() == 0,
            final(self).high_spec() == old(self).high_spec(),
    {
        self.current = 0;
    }
}

} // verus!
