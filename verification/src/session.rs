//! The turn cycle around the board: whose move is awaited, how a round
//! ends, and how the next one begins.  The event loop owns a `Phase`, feeds
//! it the outcome of each drop attempt, and acknowledges an ended round
//! once its win has been shown.

use vstd::prelude::*;

use crate::game::Move;
use crate::stone::Stone;

verus! {

impl Stone {
    /// The stone of the other player; `Neutral` is mapped to `Pink`, the
    /// player that opens a game.
    pub open spec fn other(self) -> Stone {
        match self {
            Stone::Pink => Stone::Teal,
            Stone::Teal => Stone::Pink,
            Stone::Neutral => Stone::Pink,
        }
    }
}

/// Hand the turn to the other player.
pub fn other_player(player: Stone) -> (o: Stone)
    ensures
        o == player.other(),
{
    match player {
        Stone::Pink => Stone::Teal,
        Stone::Teal => Stone::Pink,
        Stone::Neutral => Stone::Pink,
    }
}

/// Where a session stands: waiting for a move by a player, or a round just
/// won by a player and not yet acknowledged.
#[derive(Clone, Copy, PartialEq, Eq, Structural, Debug)]
pub enum Phase {
    AwaitingMove(Stone),
    RoundOver(Stone),
}

impl Phase {
    /// A session opens awaiting a move by Pink.
    pub fn start() -> (p: Phase)
        ensures
            p == Phase::AwaitingMove(Stone::Pink),
    {
        Phase::AwaitingMove(Stone::Pink)
    }

    /// Advance the turn cycle by the outcome of one drop attempt: a placed
    /// stone passes the turn to the other player, a rejected move keeps it
    /// with the same player, and a win ends the round for the winner.  An
    /// outcome reported while no move is awaited changes nothing.
    pub fn after_move(self, m: Move) -> (next: Phase)
        ensures
            next == (match (self, m) {
                (Phase::AwaitingMove(p), Move::Placed(_, _)) => Phase::AwaitingMove(p.other()),
                (Phase::AwaitingMove(p), Move::ColumnFull) => Phase::AwaitingMove(p),
                (Phase::AwaitingMove(_), Move::Win(w, _, _)) => Phase::RoundOver(w),
                (Phase::RoundOver(w), _) => Phase::RoundOver(w),
            }),
    {
        match self {
            Phase::AwaitingMove(p) => match m {
                Move::Placed(_, _) => Phase::AwaitingMove(other_player(p)),
                Move::ColumnFull => Phase::AwaitingMove(p),
                Move::Win(w, _, _) => Phase::RoundOver(w),
            },
            Phase::RoundOver(w) => Phase::RoundOver(w),
        }
    }

    /// Acknowledge an ended round: the next round awaits a fresh move by
    /// Pink.  Acknowledging while a move is awaited changes nothing.
    pub fn acknowledged(self) -> (next: Phase)
        ensures
            next == (match self {
                Phase::RoundOver(_) => Phase::AwaitingMove(Stone::Pink),
                Phase::AwaitingMove(p) => Phase::AwaitingMove(p),
            }),
    {
        match self {
            Phase::RoundOver(_) => Phase::AwaitingMove(Stone::Pink),
            Phase::AwaitingMove(p) => Phase::AwaitingMove(p),
        }
    }
}

} // verus!
