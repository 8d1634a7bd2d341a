//! Wins and losses tallied across a sequence of rounds, and the win
//! percentage derived from them.

use vstd::prelude::*;
use vstd::arithmetic::div_mod::{lemma_div_is_ordered, lemma_div_multiples_vanish};

verus! {

/// The binary result of one round.
#[derive(Copy, Clone, PartialEq, Eq, Debug, Structural)]
pub enum Outcome {
    Win,
    Lose,
}

/// The one configuration fault a run can report: a percentage was asked of
/// a tally that holds no trials.
#[derive(Copy, Clone, PartialEq, Eq, Debug, Structural)]
pub enum ConfigError {
    ZeroTrials,
}

/// The integer win percentage of `won` wins out of `won + lost` rounds,
/// rounded down.
pub open spec fn percentage_of(won: u64, lost: u64) -> int {
    100 * (won as int) / (won as int + lost as int)
}

/// Running tally of wins and losses for one strategy; it grows only through
/// `score`, one round at a time.
#[derive(Copy, Clone, PartialEq, Eq, Debug, Structural)]
pub struct Results {
    pub won: u64,
    pub lost: u64,
}

impl Results {
    /// A fresh tally with nothing scored yet.
    pub fn new() -> (r: Results)
        ensures
            r.won == 0,
            r.lost == 0,
    {
        Results { won: 0, lost: 0 }
    }

    /// Record one round's outcome: a win raises the win count by one, a
    /// loss the loss count, and nothing else moves.
    pub fn score(&mut self, res: Outcome)
        requires
            res is Win ==> old(self).won < u64::MAX,
            res is Lose ==> old(self).lost < u64::MAX,
        ensures
            res is Win ==> final(self).won == old(self).won + 1 && final(self).lost == old(
                self,
            ).lost,
            res is Lose ==> final(self).lost == old(self).lost + 1 && final(self).won == old(
                self,
            ).won,
    {
        match res {
            Outcome::Lose => self.lost = self.lost + 1,
            Outcome::Win => self.won = self.won + 1,
        }
    }

    /// The tally's win percentage, rounded down to a whole number and
    /// always within zero and one hundred; asking it of a tally with no
    /// trials is the configuration error, never a number.
    pub fn percentage(&self) -> (r: Result<u64, ConfigError>)
        ensures
            self.won == 0 && self.lost == 0 ==> r == Err::<u64, ConfigError>(
                ConfigError::ZeroTrials,
            ),
            self.won as int + self.lost as int > 0 ==> (r matches Ok(p) && p == percentage_of(
                self.won,
                self.lost,
            )),
            r matches Ok(p) ==> 0 <= p <= 100,
    {
        if self.won == 0 && self.lost == 0 {
            Err(ConfigError::ZeroTrials)
        } else {
            let total: u128 = self.won as u128 + self.lost as u128;
            let scaled: u128 = (self.won as u128) * 100;
            let p_wide: u128 = scaled / total;
            proof {
                let w = self.won as int;
                let t = self.won as int + self.lost as int;
                lemma_div_is_ordered(100 * w, 100 * t, t);
                lemma_div_multiples_vanish(100, t);
                assert(100 * w / t <= 100);
            }
            let p: u64 = p_wide as u64;
            Ok(p)
        }
    }
}

} // verus!
