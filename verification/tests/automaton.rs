use blockfall::colors::Colors;
use blockfall::desk::Desk;
use blockfall::grid::Space;
use blockfall::shapes::{get_i_shape, get_o_shape, get_t_shape};

const R: Option<(Colors, bool)> = Some((Colors::Red, false));
const G: Option<(Colors, bool)> = Some((Colors::Green, true));
const B: Option<(Colors, bool)> = Some((Colors::Blue, true));
const N: Option<(Colors, bool)> = None;

fn field(rows: &[&[Option<(Colors, bool)>]]) -> Desk {
    let h = rows.len();
    let w = if h == 0 { 0 } else { rows[0].len() };
    let mut d: Desk = Space::new(w, h);
    for y in 0..h {
        for x in 0..w {
            d.set(x, y, rows[y][x]).unwrap();
        }
    }
    d
}

fn cells(d: &Desk) -> Vec<Vec<Option<(Colors, bool)>>> {
    let mut rows = Vec::new();
    for y in 0..d.get_height() {
        let mut row = Vec::new();
        for x in 0..d.get_width() {
            row.push(d.get(x, y).unwrap());
        }
        rows.push(row);
    }
    rows
}

fn occupied(d: &Desk) -> usize {
    cells(d).iter().flatten().filter(|c| c.is_some()).count()
}

#[test]
fn content_height_of_an_empty_field_is_zero() {
    let d: Desk = Space::new(10, 20);
    assert_eq!(d.get_content_heigth(), 0);
    let d: Desk = Space::new(0, 0);
    assert_eq!(d.get_content_heigth(), 0);
    let d: Desk = Space::new(0, 7);
    assert_eq!(d.get_content_heigth(), 0);
}

#[test]
fn content_height_with_a_cell_in_the_top_row_is_the_height() {
    let mut d: Desk = Space::new(10, 20);
    d.set(4, 0, R).unwrap();
    assert_eq!(d.get_content_heigth(), 20);
}

#[test]
fn content_height_counts_from_the_topmost_occupied_row() {
    let mut d: Desk = Space::new(10, 20);
    d.set(9, 19, R).unwrap();
    assert_eq!(d.get_content_heigth(), 1);
    d.set(0, 12, G).unwrap();
    assert_eq!(d.get_content_heigth(), 8);
    d.set(3, 15, R).unwrap();
    assert_eq!(d.get_content_heigth(), 8);
}

#[test]
fn a_field_without_rows_never_changes() {
    let mut d: Desk = Space::new(3, 0);
    assert!(!d.fall());
    assert!(!d.remove());
    assert!(!d.step());
}

#[test]
fn a_falling_cell_moves_down_one_row() {
    let mut d = field(&[&[G, N], &[N, N], &[N, N]]);
    assert!(d.fall());
    assert_eq!(cells(&d), vec![vec![N, N], vec![G, N], vec![N, N]]);
    assert!(d.fall());
    assert_eq!(cells(&d), vec![vec![N, N], vec![N, N], vec![G, N]]);
}

#[test]
fn a_falling_cell_on_the_floor_locks_without_a_move() {
    let mut d = field(&[&[N, N], &[N, N], &[G, N]]);
    assert!(!d.fall());
    assert_eq!(cells(&d), vec![vec![N, N], vec![N, N], vec![Some((Colors::Green, false)), N]]);
}

#[test]
fn a_falling_cell_on_a_locked_cell_locks_without_a_move() {
    let mut d = field(&[&[N, N], &[G, N], &[R, N]]);
    assert!(!d.fall());
    assert_eq!(cells(&d), vec![vec![N, N], vec![Some((Colors::Green, false)), N], vec![R, N]]);
}

#[test]
fn a_row_moves_only_if_none_of_its_falling_cells_is_held() {
    // The left cell of the falling row stands on a locked cell, so the right
    // one, which has room below it, stays too, and both lock.
    let mut d = field(&[&[G, B], &[R, N], &[R, N]]);
    assert!(!d.fall());
    let g = Some((Colors::Green, false));
    let b = Some((Colors::Blue, false));
    assert_eq!(cells(&d), vec![vec![g, b], vec![R, N], vec![R, N]]);
}

#[test]
fn the_rows_of_a_piece_fall_together() {
    let mut d: Desk = Space::new(4, 6);
    d.copy_in(1, 0, get_t_shape(Colors::Yellow)).unwrap();
    assert!(d.fall());
    let y = Some((Colors::Yellow, true));
    assert_eq!(
        cells(&d),
        vec![
            vec![N, N, N, N],
            vec![N, N, y, N],
            vec![N, y, y, y],
            vec![N, N, N, N],
            vec![N, N, N, N],
            vec![N, N, N, N],
        ]
    );
}

#[test]
fn a_piece_held_higher_up_takes_back_the_moves_made_below() {
    // The falling cell in the left column has room and moves first; then the
    // falling cell in the right column is found to stand on a locked cell,
    // everything from there down locks, and the left cell is put back.
    let mut d = field(&[
        &[N, N],
        &[N, N],
        &[N, N],
        &[N, G],
        &[N, R],
        &[B, N],
        &[N, N],
        &[N, N],
    ]);
    assert!(d.fall());
    let g = Some((Colors::Green, false));
    let b = Some((Colors::Blue, false));
    assert_eq!(
        cells(&d),
        vec![
            vec![N, N],
            vec![N, N],
            vec![N, N],
            vec![N, g],
            vec![N, R],
            vec![b, N],
            vec![N, N],
            vec![N, N],
        ]
    );
    // Nothing falls any more: the lowest empty row is closed, one per step.
    assert!(d.fall());
    assert_eq!(
        cells(&d),
        vec![
            vec![N, N],
            vec![N, N],
            vec![N, N],
            vec![N, N],
            vec![N, g],
            vec![N, R],
            vec![b, N],
            vec![N, N],
        ]
    );
    assert!(d.fall());
    assert_eq!(
        cells(&d),
        vec![
            vec![N, N],
            vec![N, N],
            vec![N, N],
            vec![N, N],
            vec![N, N],
            vec![N, g],
            vec![N, R],
            vec![b, N],
        ]
    );
    assert!(!d.fall());
    assert!(!d.step());
}

#[test]
fn closing_a_gap_moves_the_rows_above_it_by_one() {
    let mut d = field(&[&[R, N], &[N, N], &[N, R], &[N, N], &[R, R]]);
    assert!(d.fall());
    assert_eq!(cells(&d), vec![vec![N, N], vec![R, N], vec![N, N], vec![N, R], vec![R, R]]);
    assert!(d.fall());
    assert_eq!(cells(&d), vec![vec![N, N], vec![N, N], vec![R, N], vec![N, R], vec![R, R]]);
    assert!(!d.fall());
}

#[test]
fn remove_empties_every_full_row_and_moves_nothing() {
    let mut d = field(&[&[R, N], &[R, R], &[N, R], &[R, G]]);
    assert!(d.remove());
    assert_eq!(cells(&d), vec![vec![R, N], vec![N, N], vec![N, R], vec![N, N]]);
    assert!(!d.remove());
}

#[test]
fn remove_finds_nothing_in_a_field_without_full_rows() {
    let mut d = field(&[&[R, N], &[N, R]]);
    let before = d.clone();
    assert!(!d.remove());
    assert!(d == before);
}

#[test]
fn every_row_of_a_field_without_columns_counts_as_full() {
    let mut d: Desk = Space::new(0, 2);
    assert!(d.remove());
    assert!(d.step());
}

#[test]
fn a_step_clears_only_when_nothing_falls() {
    // The bottom row is full, but the falling cell still moves: no clearing yet.
    let mut d = field(&[&[G, N], &[N, N], &[N, N], &[R, R]]);
    assert!(d.step());
    assert_eq!(cells(&d), vec![vec![N, N], vec![G, N], vec![N, N], vec![R, R]]);
    assert!(d.step());
    assert_eq!(cells(&d), vec![vec![N, N], vec![N, N], vec![G, N], vec![R, R]]);
    // Now the cell locks, nothing moves, and the full row is cleared.
    assert!(d.step());
    let g = Some((Colors::Green, false));
    assert_eq!(cells(&d), vec![vec![N, N], vec![N, N], vec![g, N], vec![N, N]]);
    // The gap closes.
    assert!(d.step());
    assert_eq!(cells(&d), vec![vec![N, N], vec![N, N], vec![N, N], vec![g, N]]);
    assert!(!d.step());
}

#[test]
fn a_bar_falls_height_minus_four_times() {
    let mut d: Desk = Space::new(10, 20);
    assert_eq!(d.copy_in_with_bounds(3, 0, get_i_shape(Colors::Blue)), (3, 0));
    assert_eq!(d.get_content_heigth(), 20);
    for n in 0..16 {
        assert_eq!(d.get_content_heigth(), 20 - n);
        assert!(d.step());
        assert_eq!(occupied(&d), 4);
        for y in 0..20 {
            let expected = if n + 1 <= y && y < n + 5 { B } else { N };
            assert_eq!(d.get(3, y), Ok(expected));
        }
    }
    assert_eq!(d.get_content_heigth(), 4);
    assert!(!d.step());
    assert_eq!(occupied(&d), 4);
    for y in 16..20 {
        assert_eq!(d.get(3, y), Ok(Some((Colors::Blue, false))));
    }
    assert_eq!(d.get_content_heigth(), 4);
    assert!(!d.step());
}

#[test]
fn a_piece_in_free_space_falls_height_minus_its_height_times() {
    for (h, piece_height) in [(5usize, 2usize), (9, 2), (2, 2)] {
        let mut d: Desk = Space::new(6, h);
        d.copy_in(2, 0, get_o_shape(Colors::Red)).unwrap();
        let mut falls = 0;
        while d.fall() {
            falls += 1;
        }
        assert_eq!(falls, h - piece_height);
        assert_eq!(d.get_content_heigth(), piece_height);
    }
}

#[test]
fn a_bar_in_a_field_one_cell_wide_is_cleared_when_it_lands() {
    let mut d: Desk = Space::new(1, 6);
    d.copy_in(0, 0, get_i_shape(Colors::Green)).unwrap();
    assert!(d.step());
    assert!(d.step());
    assert_eq!(d.get_content_heigth(), 4);
    assert!(d.step());
    assert_eq!(occupied(&d), 0);
    assert!(!d.step());
}

#[test]
fn four_full_rows_are_cleared_and_the_field_is_left_empty() {
    let mut d: Desk = Space::new(10, 20);
    d.copy_in(0, 16, Space::new_default(10, 4, R)).unwrap();
    assert_eq!(d.get_content_heigth(), 4);
    assert!(d.step());
    assert_eq!(occupied(&d), 0);
    assert_eq!(d.get_content_heigth(), 0);
    assert!(!d.step());
    assert!(d == Space::new(10, 20));
}

#[test]
fn four_full_falling_rows_land_and_are_cleared() {
    let mut d: Desk = Space::new(10, 20);
    d.copy_in(0, 0, Space::new_default(10, 4, G)).unwrap();
    let mut ticks = 0;
    while d.step() {
        ticks += 1;
        assert!(ticks <= 100);
    }
    assert_eq!(ticks, 17);
    assert!(d == Space::new(10, 20));
    assert_eq!(d.get_content_heigth(), 0);
}

#[test]
fn four_full_rows_under_debris_are_cleared_and_the_debris_sinks() {
    let mut d: Desk = Space::new(4, 8);
    d.copy_in(0, 4, Space::new_default(4, 4, R)).unwrap();
    d.set(1, 3, R).unwrap();
    assert!(d.step());
    assert_eq!(occupied(&d), 1);
    assert_eq!(d.get(1, 3), Ok(R));
    for row in 4..8 {
        assert!(d.step());
        assert_eq!(occupied(&d), 1);
        assert_eq!(d.get(1, row), Ok(R));
    }
    assert!(!d.step());
    assert_eq!(d.get_content_heigth(), 1);
}

#[test]
fn filling_the_gap_of_the_second_row_clears_both_full_rows() {
    let mut d: Desk = Space::new(10, 20);
    for x in 0..10 {
        d.set(x, 19, R).unwrap();
        if x != 6 {
            d.set(x, 18, R).unwrap();
        }
    }
    d.set(6, 0, G).unwrap();
    // While the piece falls, nothing is cleared, although the bottom row is full.
    for n in 0..18 {
        assert!(d.step());
        assert_eq!(d.get(6, n + 1), Ok(G));
        assert_eq!(occupied(&d), 20);
    }
    // The piece stands in the gap. The next tick locks it, moves nothing, and
    // clears every full row: both of them.
    assert!(d.step());
    assert_eq!(occupied(&d), 0);
    assert_eq!(d.get_content_heigth(), 0);
    assert!(!d.step());
}

#[test]
fn a_full_bottom_row_is_cleared_at_once_and_the_row_above_follows_later() {
    let mut d: Desk = Space::new(10, 20);
    for x in 0..10 {
        d.set(x, 19, R).unwrap();
        if x != 6 {
            d.set(x, 18, R).unwrap();
        }
    }
    // Nothing falls: the first tick clears the bottom row, the row with the
    // gap stays where it is.
    assert!(d.step());
    assert_eq!(occupied(&d), 9);
    assert_eq!(d.get_content_heigth(), 2);
    // The next tick lets it sink into the emptied row.
    assert!(d.step());
    assert_eq!(occupied(&d), 9);
    assert_eq!(d.get_content_heigth(), 1);
    assert!(!d.step());
    // A piece that then fills the gap completes the row, and it is cleared.
    d.set(6, 18, G).unwrap();
    assert!(d.step());
    assert_eq!(d.get(6, 19), Ok(G));
    assert!(d.step());
    assert_eq!(occupied(&d), 0);
    assert!(!d.step());
}
