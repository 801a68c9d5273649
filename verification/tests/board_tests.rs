//! Queue assembly and occupancy packing.

use pc_assist::board::expand_bitboard;
use pc_assist::Board;

/// An empty ten-by-twenty grid.
fn empty_columns() -> Vec<Vec<i32>> {
    (0..10).map(|_| vec![-1i32; 20]).collect()
}

/// A grid occupied (marker `0`) at exactly the given `(column, row)` cells.
fn columns_with(occupied: &[(usize, usize)]) -> Vec<Vec<i32>> {
    let mut cols = empty_columns();
    for &(x, y) in occupied {
        cols[x][y] = 0;
    }
    cols
}

fn board_with(columns: Vec<Vec<i32>>) -> Board {
    Board { columns, current_piece: None, hold: None, next_pieces: vec![] }
}

#[test]
fn queue_orders_current_then_hold_then_next() {
    let b = Board {
        columns: empty_columns(),
        current_piece: Some(2),
        hold: Some(5),
        next_pieces: vec![1, 3],
    };
    assert_eq!(b.get_queue(), vec![2, 5, 1, 3]);
}

#[test]
fn queue_skips_missing_hold() {
    let b = Board {
        columns: empty_columns(),
        current_piece: Some(2),
        hold: None,
        next_pieces: vec![1, 3],
    };
    assert_eq!(b.get_queue(), vec![2, 1, 3]);
}

#[test]
fn queue_skips_missing_current_and_hold() {
    let b = Board { columns: empty_columns(), current_piece: None, hold: None, next_pieces: vec![
        1,
        3,
    ] };
    assert_eq!(b.get_queue(), vec![1, 3]);
}

#[test]
fn well_formedness_checks_the_grid_shape() {
    assert!(board_with(empty_columns()).is_well_formed());
    let mut short_column = empty_columns();
    short_column[3].pop();
    assert!(!board_with(short_column).is_well_formed());
    let mut few_columns = empty_columns();
    few_columns.pop();
    assert!(!board_with(few_columns).is_well_formed());
}

#[test]
fn empty_board_packs_to_zero() {
    assert_eq!(board_with(empty_columns()).get_bitboard(), 0);
}

#[test]
fn packing_puts_lowest_row_in_low_bits() {
    let b = board_with(columns_with(&[(0, 0), (9, 0), (0, 1), (3, 2)]));
    let expected = 1u64 | (1 << 9) | (1 << 10) | (1 << 23);
    assert_eq!(b.get_bitboard(), expected);
}

#[test]
fn packing_excludes_rows_above_six() {
    // Cells in rows six and up never reach the mask.
    let low = board_with(columns_with(&[(4, 3)]));
    let mut with_high = columns_with(&[(4, 3)]);
    for y in 6..20 {
        with_high[7][y] = 0;
    }
    assert_eq!(low.get_bitboard(), board_with(with_high).get_bitboard());
}

#[test]
fn full_grid_packs_to_sixty_set_bits() {
    let mut cols = empty_columns();
    for x in 0..10 {
        for y in 0..20 {
            cols[x][y] = 0;
        }
    }
    assert_eq!(board_with(cols).get_bitboard(), (1u64 << 60) - 1);
}

#[test]
fn expand_reproduces_bottom_rows_exactly() {
    let occupied = [(0, 0), (1, 0), (5, 2), (9, 5), (2, 4)];
    let cols = columns_with(&occupied);
    let mask = board_with(cols.clone()).get_bitboard();
    let back = expand_bitboard(mask);
    assert_eq!(back.len(), 10);
    for x in 0..10 {
        assert_eq!(back[x].len(), 20);
        for y in 0..6 {
            assert_eq!(back[x][y] != -1, cols[x][y] != -1, "cell ({}, {})", x, y);
        }
        for y in 6..20 {
            assert_eq!(back[x][y], -1);
        }
    }
}

#[test]
fn expand_then_pack_is_identity_on_masks() {
    let mask = 1u64 | (1 << 13) | (1 << 59);
    let b = board_with(expand_bitboard(mask));
    assert_eq!(b.get_bitboard(), mask);
}
