//! The contents of one board cell.

use vstd::prelude::*;

verus! {

/// A cell's occupant: a stone of one of the two players, or `Neutral` for a
/// cell that holds no player stone.
#[derive(Clone, Copy, PartialEq, Eq, Structural, Debug)]
pub enum Stone {
    Pink,
    Teal,
    Neutral,
}

impl Stone {
    /// True of the two player colors, false of `Neutral`.
    pub open spec fn is_player(self) -> bool {
        self != Stone::Neutral
    }
}

} // verus!
