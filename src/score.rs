//! Scores kept across rounds.

use vstd::prelude::*;

verus! {

/// The length reached in the last round, and the best length of all rounds.
#[derive(Clone, Copy, Debug, PartialEq, Eq, Structural)]
pub struct Score {
    pub current: usize,
    pub best: usize,
}

impl Score {
    /// No round played yet.
    pub fn new() -> (s: Score)
        ensures
            s.current == 0,
            s.best == 0,
    {
        Score { current: 0, best: 0 }
    }

    /// Records a round that ended at length `round`.
    pub fn record_round(&mut self, round: usize)
        ensures
            final(self).current == round,
            final(self).best == if round > old(self).best {
                round
            } else {
                old(self).best
            },
    {
        self.current = round;
        if round > self.best {
            self.best = round;
        }
    }
}

impl Default for Score {
    fn default() -> (s: Score)
        ensures
            s.current == 0,
            s.best == 0,
    {
        Score::new()
    }
}

} // verus!
