//! The board: seven columns of stones stacked under gravity, the
//! mathematical model behind it, and the laws of placing and clearing.

use vstd::prelude::*;

use crate::stone::Stone;

verus! {

/// A board is well formed when it has exactly seven columns, none holding
/// more than six stones.
pub open spec fn board_wf(b: Seq<Seq<Stone>>) -> bool {
    &&& b.len() == 7
    &&& forall|c: int| 0 <= c < 7 ==> (#[trigger] b[c]).len() <= 6
}

/// Occupant of cell (c, r): `Neutral` when the coordinate is out of bounds
/// or the column has not been filled up to row r.
pub open spec fn cell_at(b: Seq<Seq<Stone>>, c: int, r: int) -> Stone {
    if 0 <= c < b.len() && 0 <= r < b[c].len() {
        b[c][r]
    } else {
        Stone::Neutral
    }
}

/// A column at six stones accepts no further drop.
pub open spec fn col_full(b: Seq<Seq<Stone>>, c: int) -> bool {
    b[c].len() >= 6
}

/// The board after a stone of `p` lands on top of column `c`.
pub open spec fn place_at(b: Seq<Seq<Stone>>, c: int, p: Stone) -> Seq<Seq<Stone>> {
    b.update(c, b[c].push(p))
}

/// Seven empty columns.
pub open spec fn empty_board() -> Seq<Seq<Stone>> {
    Seq::new(7, |c: int| Seq::empty())
}

/// Seven columns filled to the top with neutral stones.
pub open spec fn neutral_board() -> Seq<Seq<Stone>> {
    Seq::new(7, |c: int| Seq::new(6, |r: int| Stone::Neutral))
}

/// The four scan axes: right, up, up-right and down-right.  Each together
/// with its opposite direction covers one full line through a cell.
pub open spec fn axis_dir(dc: int, dr: int) -> bool {
    ||| (dc == 1 && dr == 0)
    ||| (dc == 0 && dr == 1)
    ||| (dc == 1 && dr == 1)
    ||| (dc == 1 && dr == -1)
}

/// Four contiguous cells all holding `p`, starting at (c, r) and stepping
/// by (dc, dr).
pub open spec fn four_from(b: Seq<Seq<Stone>>, c: int, r: int, dc: int, dr: int, p: Stone) -> bool {
    forall|i: int| 0 <= i < 4 ==> #[trigger] cell_at(b, c + i * dc, r + i * dr) == p
}

/// A four-in-a-row of `p` running through cell (c, r): along some axis there
/// is a window of four contiguous cells of `p`, one of which is (c, r).
pub open spec fn wins_at(b: Seq<Seq<Stone>>, c: int, r: int, p: Stone) -> bool {
    exists|s: int, dc: int, dr: int|
        -3 <= s <= 0 && axis_dir(dc, dr)
            && #[trigger] four_from(b, c + s * dc, r + s * dr, dc, dr, p)
}

/// The first `n` cells away from (x, y) along direction (dx, dy) all hold
/// `p`: the scan from (x, y) matches at least `n` neighbours.
pub open spec fn run_matches(
    b: Seq<Seq<Stone>>,
    x: int,
    y: int,
    dx: int,
    dy: int,
    p: Stone,
    n: int,
) -> bool {
    forall|j: int| 1 <= j <= n ==> #[trigger] cell_at(b, x + j * dx, y + j * dy) == p
}

/// The cell one step beyond a run of `n` matches does not hold `p`: the
/// scan from (x, y) matches no more than `n` neighbours.
pub open spec fn run_maximal(
    b: Seq<Seq<Stone>>,
    x: int,
    y: int,
    dx: int,
    dy: int,
    p: Stone,
    n: int,
) -> bool {
    cell_at(b, x + (n + 1) * dx, y + (n + 1) * dy) != p
}

/// Collapse a product with a direction component, which is one of -1, 0, 1.
pub proof fn lemma_mul_unit(i: int, d: int)
    requires
        -1 <= d <= 1,
    ensures
        d == 1 ==> i * d == i,
        d == -1 ==> i * d == -i,
        d == 0 ==> i * d == 0,
{
    assert(i * 1 == i) by (nonlinear_arith);
    assert(i * (-1) == -i) by (nonlinear_arith);
    assert(i * 0 == 0) by (nonlinear_arith);
}

/// Two opposite runs around an occupied cell that together cover at least
/// three neighbours put a window of four in a row through that cell.
pub proof fn lemma_runs_give_win(
    b: Seq<Seq<Stone>>,
    x: int,
    y: int,
    dc: int,
    dr: int,
    p: Stone,
    fwd: int,
    back: int,
)
    requires
        axis_dir(dc, dr),
        cell_at(b, x, y) == p,
        0 <= fwd,
        0 <= back,
        run_matches(b, x, y, dc, dr, p, fwd),
        run_matches(b, x, y, -dc, -dr, p, back),
        fwd + back >= 3,
    ensures
        wins_at(b, x, y, p),
{
    let s: int = if back >= 3 {
        -3
    } else {
        -back
    };
    assert forall|i: int|
        0 <= i < 4 implies #[trigger] cell_at(b, (x + s * dc) + i * dc, (y + s * dr) + i * dr)
        == p by {
        let m = s + i;
        assert((s + i) * dc == s * dc + i * dc) by (nonlinear_arith);
        assert((s + i) * dr == s * dr + i * dr) by (nonlinear_arith);
        if m == 0 {
            assert(0 * dc == 0) by (nonlinear_arith);
            assert(0 * dr == 0) by (nonlinear_arith);
            assert(m * dc == 0);
            assert(m * dr == 0);
        } else if m > 0 {
            assert(m <= fwd);
            assert(cell_at(b, x + m * dc, y + m * dr) == p);
        } else {
            assert(1 <= -m <= back);
            assert((-m) * (-dc) == m * dc) by (nonlinear_arith);
            assert((-m) * (-dr) == m * dr) by (nonlinear_arith);
            assert(cell_at(b, x + (-m) * (-dc), y + (-m) * (-dr)) == p);
        }
    };
    assert(four_from(b, x + s * dc, y + s * dr, dc, dr, p));
    assert(wins_at(b, x, y, p));
}

/// A window of four in a row through a cell bounds the two opposite maximal
/// runs around that cell from below: together they cover at least three of
/// its neighbours.
pub proof fn lemma_win_needs_runs(
    b: Seq<Seq<Stone>>,
    x: int,
    y: int,
    dc: int,
    dr: int,
    p: Stone,
    fwd: int,
    back: int,
    s: int,
)
    requires
        0 <= fwd,
        0 <= back,
        run_matches(b, x, y, dc, dr, p, fwd),
        run_maximal(b, x, y, dc, dr, p, fwd),
        run_matches(b, x, y, -dc, -dr, p, back),
        run_maximal(b, x, y, -dc, -dr, p, back),
        -3 <= s <= 0,
        four_from(b, x + s * dc, y + s * dr, dc, dr, p),
    ensures
        fwd + back >= 3,
{
    if fwd < s + 3 {
        let i = fwd + 1 - s;
        assert(0 <= i < 4);
        assert(cell_at(b, (x + s * dc) + i * dc, (y + s * dr) + i * dr) == p);
        assert((s + i) * dc == s * dc + i * dc) by (nonlinear_arith);
        assert((s + i) * dr == s * dr + i * dr) by (nonlinear_arith);
        assert(s + i == fwd + 1);
        assert((s + i) * dc == (fwd + 1) * dc);
        assert((s + i) * dr == (fwd + 1) * dr);
        assert(cell_at(b, x + (fwd + 1) * dc, y + (fwd + 1) * dr) == p);
        assert(false);
    }
    if back < -s {
        let i = -(back + 1) - s;
        assert(0 <= i < 4);
        assert(cell_at(b, (x + s * dc) + i * dc, (y + s * dr) + i * dr) == p);
        assert((s + i) * dc == s * dc + i * dc) by (nonlinear_arith);
        assert((s + i) * dr == s * dr + i * dr) by (nonlinear_arith);
        assert(s + i == -(back + 1));
        assert((back + 1) * (-dc) == (-(back + 1)) * dc) by (nonlinear_arith);
        assert((back + 1) * (-dr) == (-(back + 1)) * dr) by (nonlinear_arith);
        assert((s + i) * dc == (-(back + 1)) * dc);
        assert((s + i) * dr == (-(back + 1)) * dr);
        assert(cell_at(b, x + (back + 1) * (-dc), y + (back + 1) * (-dr)) == p);
        assert(false);
    }
}

/// Seven columns of stones; entry 0 of a column is its bottom, so a dropped
/// stone is appended at the end of its column.
#[derive(Debug)]
pub struct Grid {
    pub grid: Vec<Vec<Stone>>,
}

impl View for Grid {
    type V = Seq<Seq<Stone>>;

    open spec fn view(&self) -> Seq<Seq<Stone>> {
        Seq::new(self.grid@.len(), |c: int| self.grid@[c]@)
    }
}

impl Grid {
    /// Structural invariant of the seven-column board.
    pub open spec fn wf(self) -> bool {
        board_wf(self@)
    }

    /// Empty grid: used for the stones the players place.
    pub fn empty() -> (g: Grid)
        ensures
            g@ == empty_board(),
            g.wf(),
    {
        let mut grid: Vec<Vec<Stone>> = Vec::new();
        while grid.len() < 7
            invariant
                grid@.len() <= 7,
                forall|c: int| 0 <= c < grid@.len() ==> (#[trigger] grid@[c])@.len() == 0,
            decreases 7 - grid.len(),
        {
            grid.push(Vec::new());
        }
        let g = Grid { grid };
        proof {
            assert(g@ =~~= empty_board());
        }
        g
    }

    /// Neutral grid already filled to the top.  It works as a background
    /// grid: the renderer draws a placeholder for every one of its cells.
    pub fn neutral() -> (g: Grid)
        ensures
            g@ == neutral_board(),
            g.wf(),
    {
        let mut grid: Vec<Vec<Stone>> = Vec::new();
        while grid.len() < 7
            invariant
                grid@.len() <= 7,
                forall|c: int| 0 <= c < grid@.len() ==> (#[trigger] grid@[c])@ =~= Seq::new(6, |r: int| Stone::Neutral),
            decreases 7 - grid.len(),
        {
            let mut col: Vec<Stone> = Vec::new();
            while col.len() < 6
                invariant
                    col@.len() <= 6,
                    forall|r: int| 0 <= r < col@.len() ==> col@[r] == Stone::Neutral,
                decreases 6 - col.len(),
            {
                col.push(Stone::Neutral);
            }
            proof {
                assert(col@ =~= Seq::new(6, |r: int| Stone::Neutral));
            }
            grid.push(col);
        }
        let g = Grid { grid };
        proof {
            assert(g@ =~~= neutral_board());
        }
        g
    }

    /// Occupant of (column, row): `Neutral` when the coordinate is out of
    /// bounds or not yet filled.  Never fails, so the win scan may probe
    /// outward freely.
    pub fn occupant(&self, column: usize, row: usize) -> (s: Stone)
        ensures
            s == cell_at(self@, column as int, row as int),
    {
        if column < self.grid.len() {
            let col: &Vec<Stone> = &self.grid[column];
            if row < col.len() {
                col[row]
            } else {
                Stone::Neutral
            }
        } else {
            Stone::Neutral
        }
    }

    /// Drop a stone of `player` into `column`; it lands on top of that
    /// column's stack.  Returns the landing row (0 is the bottom), or `None`
    /// when the column is already full, in which case the board is unchanged.
    pub fn drop_stone(&mut self, player: Stone, column: usize) -> (landed: Option<usize>)
        requires
            old(self).wf(),
            column < 7,
        ensures
            final(self).wf(),
            col_full(old(self)@, column as int) ==> landed is None
                && final(self)@ == old(self)@,
            !col_full(old(self)@, column as int) ==> landed == Some(old(self)@[column as int].len() as usize)
                && final(self)@ == place_at(old(self)@, column as int, player),
    {
        let len: usize = self.grid[column].len();
        if len >= 6 {
            return None;
        }
        let col: &mut Vec<Stone> = &mut self.grid[column];
        col.push(player);
        proof {
            assert(self@ =~~= place_at(old(self)@, column as int, player));
        }
        Some(len)
    }

    /// Clear every column; the board is afterwards entirely neutral and
    /// ready for a fresh round.
    pub fn reset(&mut self)
        ensures
            final(self)@ == empty_board(),
            final(self).wf(),
    {
        let g = Grid::empty();
        self.grid = g.grid;
        proof {
            assert(self@ =~~= empty_board());
        }
    }
}

/// Placing a stone preserves well-formedness, grows exactly the target
/// column by one, and leaves every other column as it was.
pub proof fn lemma_place_grows(b: Seq<Seq<Stone>>, c: int, p: Stone)
    requires
        board_wf(b),
        0 <= c < 7,
        !col_full(b, c),
    ensures
        board_wf(place_at(b, c, p)),
        place_at(b, c, p)[c].len() == b[c].len() + 1,
        forall|c2: int| 0 <= c2 < 7 && c2 != c ==> place_at(b, c, p)[c2] == b[c2],
{
}

/// After a drop the landing cell holds the dropped stone and every other
/// cell of the board reads as before.
pub proof fn lemma_place_frame(b: Seq<Seq<Stone>>, c: int, p: Stone, x: int, y: int)
    requires
        board_wf(b),
        0 <= c < 7,
        !col_full(b, c),
    ensures
        cell_at(place_at(b, c, p), c, b[c].len() as int) == p,
        !(x == c && y == b[c].len()) ==> cell_at(place_at(b, c, p), x, y) == cell_at(b, x, y),
{
}

/// The board after the stones of `drops` fall one after another into
/// column `c`.
pub open spec fn fill_column(b: Seq<Seq<Stone>>, c: int, drops: Seq<Stone>) -> Seq<Seq<Stone>>
    decreases drops.len(),
{
    if drops.len() == 0 {
        b
    } else {
        fill_column(place_at(b, c, drops[0]), c, drops.subrange(1, drops.len() as int))
    }
}

/// Dropping a sequence of stones into one column stacks them in order: the
/// k-th stone comes to rest one row above the (k-1)-th, the cells already
/// filled keep their stones, and no other column moves.  In particular a
/// column that starts empty holds exactly `drops.len()` stones afterwards,
/// so six drops fill it and land at rows 0 through 5 in order.
pub proof fn lemma_fill_column(b: Seq<Seq<Stone>>, c: int, drops: Seq<Stone>)
    requires
        board_wf(b),
        0 <= c < 7,
        b[c].len() + drops.len() <= 6,
    ensures
        board_wf(fill_column(b, c, drops)),
        fill_column(b, c, drops)[c].len() == b[c].len() + drops.len(),
        forall|k: int|
            0 <= k < drops.len() ==> cell_at(fill_column(b, c, drops), c, b[c].len() + k)
                == drops[k],
        forall|r: int|
            0 <= r < b[c].len() ==> cell_at(fill_column(b, c, drops), c, r) == cell_at(b, c, r),
        forall|c2: int| 0 <= c2 < 7 && c2 != c ==> fill_column(b, c, drops)[c2] == b[c2],
    decreases drops.len(),
{
    if drops.len() > 0 {
        let b2 = place_at(b, c, drops[0]);
        let rest = drops.subrange(1, drops.len() as int);
        let filled = fill_column(b, c, drops);
        lemma_place_grows(b, c, drops[0]);
        lemma_fill_column(b2, c, rest);
        assert(filled == fill_column(b2, c, rest));
        assert forall|k: int|
            0 <= k < drops.len() implies cell_at(filled, c, b[c].len() + k) == drops[k] by {
            if k == 0 {
                lemma_place_frame(b, c, drops[0], c, b[c].len() as int);
                assert(cell_at(filled, c, b[c].len() as int) == cell_at(b2, c, b[c].len() as int));
            } else {
                assert(cell_at(filled, c, b2[c].len() + (k - 1)) == rest[k - 1]);
            }
        };
        assert forall|r: int|
            0 <= r < b[c].len() implies cell_at(filled, c, r) == cell_at(b, c, r) by {
            assert(cell_at(filled, c, r) == cell_at(b2, c, r));
            lemma_place_frame(b, c, drops[0], c, r);
        };
    }
}

/// A cleared board is well formed, entirely neutral, and every one of its
/// columns has room for six fresh drops.
pub proof fn lemma_empty_board_clear(x: int, y: int)
    ensures
        board_wf(empty_board()),
        cell_at(empty_board(), x, y) == Stone::Neutral,
        forall|c: int| 0 <= c < 7 ==> !col_full(empty_board(), c),
{
}

/// The first drop into a column of the empty board puts the player's stone
/// at the bottom of that column and leaves every other cell neutral.
pub proof fn lemma_first_drop_occupancy(c: int, p: Stone, x: int, y: int)
    requires
        0 <= c < 7,
    ensures
        cell_at(place_at(empty_board(), c, p), c, 0) == p,
        !(x == c && y == 0) ==> cell_at(place_at(empty_board(), c, p), x, y) == Stone::Neutral,
{
    lemma_empty_board_clear(x, y);
    lemma_place_frame(empty_board(), c, p, x, y);
}

} // verus!
