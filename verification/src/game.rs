//! The game around the board: one move of a player, the outcome handed back
//! to the caller, and the win tally.

use vstd::prelude::*;

use crate::board::axis_dir;
use crate::board::board_wf;
use crate::board::cell_at;
use crate::board::col_full;
use crate::board::empty_board;
use crate::board::four_from;
use crate::board::lemma_mul_unit;
use crate::board::lemma_place_frame;
use crate::board::lemma_runs_give_win;
use crate::board::lemma_win_needs_runs;
use crate::board::place_at;
use crate::board::run_matches;
use crate::board::run_maximal;
use crate::board::wins_at;
use crate::board::Grid;
use crate::score::Score;
use crate::stone::Stone;

verus! {

/// Outcome of one drop attempt: the stone was placed at (column, row), the
/// column was full and the board is unchanged, or the stone was placed at
/// (column, row) and completed a four-in-a-row for its player.
#[derive(Clone, Copy, PartialEq, Eq, Structural, Debug)]
pub enum Move {
    Placed(usize, usize),
    ColumnFull,
    Win(Stone, usize, usize),
}

/// Game instance which serves as the main interface in an event loop: the
/// stones the players have placed so far, and the running score.
#[derive(Debug)]
pub struct Game {
    pub stones: Grid,
    pub score: Score,
}

impl Game {
    /// The board of placed stones is well formed.
    pub open spec fn wf(self) -> bool {
        board_wf(self.stones@)
    }

    /// Create a new game with an empty board, carrying over `score`.
    pub fn new(score: Score) -> (g: Game)
        ensures
            g.wf(),
            g.stones@ == empty_board(),
            g.score == score,
    {
        Game { stones: Grid::empty(), score }
    }

    /// Clear the board for a fresh round; the score persists.
    pub fn reset(&mut self)
        ensures
            final(self).wf(),
            final(self).stones@ == empty_board(),
            final(self).score == old(self).score,
    {
        self.stones.reset();
    }

    /// Count the placed stones of `player` reached from (x, y) by stepping
    /// repeatedly in direction (dx, dy), stopping at the first cell that is
    /// out of bounds, unfilled, or held by the other player.  The cell
    /// (x, y) itself is not counted.
    pub fn check_neighbours(&self, x: i8, y: i8, dx: i8, dy: i8, player: &Stone) -> (count: u32)
        requires
            self.wf(),
            0 <= x < 7,
            0 <= y < 6,
            -1 <= dx <= 1,
            -1 <= dy <= 1,
            !(dx == 0 && dy == 0),
            player.is_player(),
        ensures
            count <= 6,
            run_matches(
                self.stones@,
                x as int,
                y as int,
                dx as int,
                dy as int,
                *player,
                count as int,
            ),
            run_maximal(
                self.stones@,
                x as int,
                y as int,
                dx as int,
                dy as int,
                *player,
                count as int,
            ),
    {
        let ghost b = self.stones@;
        let mut count: u32 = 0;
        let mut cx: i32 = x as i32 + dx as i32;
        let mut cy: i32 = y as i32 + dy as i32;
        loop
            invariant
                self.wf(),
                b == self.stones@,
                0 <= x < 7,
                0 <= y < 6,
                -1 <= dx <= 1,
                -1 <= dy <= 1,
                !(dx == 0 && dy == 0),
                player.is_player(),
                count <= 6,
                cx as int == x as int + ((count as int) + 1) * (dx as int),
                cy as int == y as int + ((count as int) + 1) * (dy as int),
                run_matches(b, x as int, y as int, dx as int, dy as int, *player, count as int),
            ensures
                count <= 6,
                run_matches(b, x as int, y as int, dx as int, dy as int, *player, count as int),
                run_maximal(b, x as int, y as int, dx as int, dy as int, *player, count as int),
            decreases 7 - count,
        {
            if cx < 0 || cx >= 7 {
                proof {
                    assert(cell_at(b, cx as int, cy as int) == Stone::Neutral);
                }
                break;
            }
            let col: &Vec<Stone> = &self.stones.grid[cx as usize];
            proof {
                assert(b[cx as int] == col@);
            }
            if cy < 0 || cy >= col.len() as i32 {
                proof {
                    assert(cell_at(b, cx as int, cy as int) == Stone::Neutral);
                }
                break;
            }
            let stone: Stone = col[cy as usize];
            if stone != *player {
                proof {
                    assert(cell_at(b, cx as int, cy as int) == stone);
                }
                break;
            }
            proof {
                lemma_mul_unit((count as int) + 1, dx as int);
                lemma_mul_unit((count as int) + 1, dy as int);
                assert(b[cx as int].len() <= 6);
                assert((count as int) + 1 <= 6);
                assert(cell_at(b, cx as int, cy as int) == *player);
                assert(((count as int) + 2) * (dx as int) == ((count as int) + 1) * (dx as int)
                    + (dx as int)) by (nonlinear_arith);
                assert(((count as int) + 2) * (dy as int) == ((count as int) + 1) * (dy as int)
                    + (dy as int)) by (nonlinear_arith);
            }
            count = count + 1;
            cx = cx + dx as i32;
            cy = cy + dy as i32;
        }
        count
    }

    /// Win check for a stone of `player` standing at (column, row): scans
    /// all four axes in both directions away from that cell and reports
    /// whether it lies on a four-in-a-row of its player.
    pub fn check_win(&self, column: usize, row: usize, player: Stone) -> (won: bool)
        requires
            self.wf(),
            column < 7,
            row < 6,
            cell_at(self.stones@, column as int, row as int) == player,
            player.is_player(),
        ensures
            won == wins_at(self.stones@, column as int, row as int, player),
    {
        let x = column as i8;
        let y = row as i8;
        let right = self.check_neighbours(x, y, 1, 0, &player);
        let left = self.check_neighbours(x, y, -1, 0, &player);
        let up = self.check_neighbours(x, y, 0, 1, &player);
        let down = self.check_neighbours(x, y, 0, -1, &player);
        let up_right = self.check_neighbours(x, y, 1, 1, &player);
        let down_left = self.check_neighbours(x, y, -1, -1, &player);
        let down_right = self.check_neighbours(x, y, 1, -1, &player);
        let up_left = self.check_neighbours(x, y, -1, 1, &player);
        let won = right + left >= 3 || up + down >= 3 || up_right + down_left >= 3 || down_right
            + up_left >= 3;
        proof {
            let b = self.stones@;
            let xi = column as int;
            let yi = row as int;
            if right + left >= 3 {
                lemma_runs_give_win(b, xi, yi, 1, 0, player, right as int, left as int);
            } else if up + down >= 3 {
                lemma_runs_give_win(b, xi, yi, 0, 1, player, up as int, down as int);
            } else if up_right + down_left >= 3 {
                lemma_runs_give_win(b, xi, yi, 1, 1, player, up_right as int, down_left as int);
            } else if down_right + up_left >= 3 {
                lemma_runs_give_win(b, xi, yi, 1, -1, player, down_right as int, up_left as int);
            } else if wins_at(b, xi, yi, player) {
                let (s, dc, dr) = choose|s: int, dc: int, dr: int|
                    -3 <= s <= 0 && axis_dir(dc, dr) && #[trigger] four_from(
                        b,
                        xi + s * dc,
                        yi + s * dr,
                        dc,
                        dr,
                        player,
                    );
                if dc == 1 && dr == 0 {
                    lemma_win_needs_runs(b, xi, yi, 1, 0, player, right as int, left as int, s);
                } else if dc == 0 && dr == 1 {
                    lemma_win_needs_runs(b, xi, yi, 0, 1, player, up as int, down as int, s);
                } else if dc == 1 && dr == 1 {
                    lemma_win_needs_runs(
                        b,
                        xi,
                        yi,
                        1,
                        1,
                        player,
                        up_right as int,
                        down_left as int,
                        s,
                    );
                } else {
                    lemma_win_needs_runs(
                        b,
                        xi,
                        yi,
                        1,
                        -1,
                        player,
                        down_right as int,
                        up_left as int,
                        s,
                    );
                }
                assert(false);
            }
        }
        won
    }

    /// Add a stone of `player` to `column`.  The stone falls on top of that
    /// column's stack.  Reports where it landed, that the column was full
    /// (the game is then unchanged), or that the stone completed a
    /// four-in-a-row and won the round for `player`.
    pub fn add_stone(&mut self, player: Stone, column: usize) -> (m: Move)
        requires
            old(self).wf(),
            column < 7,
            player.is_player(),
        ensures
            final(self).wf(),
            final(self).score == old(self).score,
            col_full(old(self).stones@, column as int) ==> m == Move::ColumnFull
                && final(self).stones@ == old(self).stones@,
            !col_full(old(self).stones@, column as int) ==> ({
                let row = old(self).stones@[column as int].len() as int;
                &&& final(self).stones@ == place_at(old(self).stones@, column as int, player)
                &&& m == (if wins_at(final(self).stones@, column as int, row, player) {
                    Move::Win(player, column, row as usize)
                } else {
                    Move::Placed(column, row as usize)
                })
            }),
    {
        let landed = self.stones.drop_stone(player, column);
        match landed {
            None => Move::ColumnFull,
            Some(row) => {
                proof {
                    lemma_place_frame(old(self).stones@, column as int, player, 0, 0);
                }
                if self.check_win(column, row, player) {
                    Move::Win(player, column, row)
                } else {
                    Move::Placed(column, row)
                }
            },
        }
    }
}

} // verus!

