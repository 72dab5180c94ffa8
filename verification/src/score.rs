//! The running tally of wins.

use vstd::prelude::*;

use crate::stone::Stone;

verus! {

/// Win counters for the two players.
#[derive(Clone, Copy, PartialEq, Eq, Structural, Debug)]
pub struct Score {
    pub teal: u8,
    pub pink: u8,
}

impl Score {
    /// A fresh tally with no wins recorded.
    pub fn new() -> (s: Score)
        ensures
            s.teal == 0,
            s.pink == 0,
    {
        Score { teal: 0, pink: 0 }
    }

    /// Record a win for `player`: that player's counter goes up by one and
    /// the other player's counter stays as it was.  A `Neutral` stone records
    /// nothing.
    pub fn win(&mut self, player: Stone)
        requires
            player == Stone::Pink ==> old(self).pink < 255,
            player == Stone::Teal ==> old(self).teal < 255,
        ensures
            player == Stone::Pink ==> final(self).pink == old(self).pink + 1
                && final(self).teal == old(self).teal,
            player == Stone::Teal ==> final(self).teal == old(self).teal + 1
                && final(self).pink == old(self).pink,
            player == Stone::Neutral ==> *final(self) == *old(self),
    {
        match player {
            Stone::Pink => self.pink = self.pink + 1,
            Stone::Teal => self.teal = self.teal + 1,
            Stone::Neutral => (),
        }
    }
}

} // verus!
