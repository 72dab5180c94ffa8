use connect4::Grid;
use connect4::Stone;

/// Every cell of the board, read through `occupant`.
fn snapshot(g: &Grid) -> Vec<Vec<Stone>> {
    let mut cells: Vec<Vec<Stone>> = Vec::new();
    let mut c: usize = 0;
    while c < 7 {
        let mut col: Vec<Stone> = Vec::new();
        let mut r: usize = 0;
        while r < 6 {
            col.push(g.occupant(c, r));
            r += 1;
        }
        cells.push(col);
        c += 1;
    }
    cells
}

#[test]
fn empty_grid_has_seven_open_columns() {
    let g = Grid::empty();
    assert_eq!(g.grid.len(), 7);
    for c in 0..7usize {
        assert_eq!(g.grid[c].len(), 0);
        for r in 0..6usize {
            assert_eq!(g.occupant(c, r), Stone::Neutral);
        }
    }
}

#[test]
fn neutral_grid_is_filled_with_neutral_stones() {
    let g = Grid::neutral();
    assert_eq!(g.grid.len(), 7);
    for c in 0..7usize {
        assert_eq!(g.grid[c].len(), 6);
        for r in 0..6usize {
            assert_eq!(g.grid[c][r], Stone::Neutral);
        }
    }
}

#[test]
fn six_drops_fill_a_column_and_the_seventh_is_rejected() {
    for c in 0..7usize {
        let mut g = Grid::empty();
        for r in 0..6usize {
            let player = if r % 2 == 0 { Stone::Pink } else { Stone::Teal };
            assert_eq!(g.drop_stone(player, c), Some(r));
        }
        let before = snapshot(&g);
        assert_eq!(g.drop_stone(Stone::Pink, c), None);
        assert_eq!(snapshot(&g), before);
    }
}

#[test]
fn occupant_after_one_drop_is_the_player_and_neutral_elsewhere() {
    let mut g = Grid::empty();
    assert_eq!(g.drop_stone(Stone::Pink, 4), Some(0));
    for c in 0..7usize {
        for r in 0..6usize {
            let expected = if c == 4 && r == 0 { Stone::Pink } else { Stone::Neutral };
            assert_eq!(g.occupant(c, r), expected);
        }
    }
}

#[test]
fn occupant_out_of_bounds_is_neutral() {
    let mut g = Grid::empty();
    g.drop_stone(Stone::Teal, 0);
    assert_eq!(g.occupant(7, 0), Stone::Neutral);
    assert_eq!(g.occupant(0, 6), Stone::Neutral);
    assert_eq!(g.occupant(100, 100), Stone::Neutral);
}

#[test]
fn reset_clears_every_cell_and_reopens_every_column() {
    let mut g = Grid::empty();
    for c in 0..7usize {
        g.drop_stone(Stone::Pink, c);
        g.drop_stone(Stone::Teal, c);
    }
    g.reset();
    for c in 0..7usize {
        for r in 0..6usize {
            assert_eq!(g.occupant(c, r), Stone::Neutral);
        }
    }
    for r in 0..6usize {
        assert_eq!(g.drop_stone(Stone::Teal, 3), Some(r));
    }
    assert_eq!(g.drop_stone(Stone::Teal, 3), None);
}

#[test]
fn stones_stack_in_the_order_dropped() {
    let mut g = Grid::empty();
    assert_eq!(g.drop_stone(Stone::Pink, 2), Some(0));
    assert_eq!(g.drop_stone(Stone::Teal, 2), Some(1));
    assert_eq!(g.drop_stone(Stone::Pink, 2), Some(2));
    assert_eq!(g.occupant(2, 0), Stone::Pink);
    assert_eq!(g.occupant(2, 1), Stone::Teal);
    assert_eq!(g.occupant(2, 2), Stone::Pink);
    assert_eq!(g.occupant(2, 3), Stone::Neutral);
}
