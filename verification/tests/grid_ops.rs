use blockfall::grid::{Rotation, Space};
use blockfall::mask::Mask;

fn numbered(w: usize, h: usize) -> Space<u32> {
    let mut g: Space<u32> = Space::new(w, h);
    for y in 0..h {
        for x in 0..w {
            g.set(x, y, Some((y * w + x) as u32)).unwrap();
        }
    }
    g
}

fn cells(g: &Space<u32>) -> Vec<Vec<Option<u32>>> {
    let mut rows = Vec::new();
    for y in 0..g.get_height() {
        let mut row = Vec::new();
        for x in 0..g.get_width() {
            row.push(g.get(x, y).unwrap());
        }
        rows.push(row);
    }
    rows
}

#[test]
fn new_grid_is_empty() {
    let g: Space<u32> = Space::new(3, 2);
    assert_eq!(g.get_width(), 3);
    assert_eq!(g.get_height(), 2);
    assert_eq!(cells(&g), vec![vec![None, None, None], vec![None, None, None]]);
}

#[test]
fn new_grid_may_have_no_cells() {
    let g: Space<u32> = Space::new(0, 5);
    assert_eq!(g.get_width(), 0);
    assert_eq!(g.get_height(), 5);
    assert_eq!(g.get(0, 0), Err("Out of space"));
    let g: Space<u32> = Space::new(4, 0);
    assert_eq!(g.get_width(), 4);
    assert_eq!(g.get_height(), 0);
    assert_eq!(g.get(0, 0), Err("Out of space"));
}

#[test]
fn new_default_fills_every_cell() {
    let g = Space::new_default(2, 2, Some(7u32));
    assert_eq!(cells(&g), vec![vec![Some(7), Some(7)], vec![Some(7), Some(7)]]);
    let e: Space<u32> = Space::new_default(2, 1, None);
    assert_eq!(cells(&e), vec![vec![None, None]]);
}

#[test]
fn set_and_get_inside() {
    let mut g: Space<u32> = Space::new(3, 2);
    assert_eq!(g.set(2, 1, Some(9)), Ok(()));
    assert_eq!(g.get(2, 1), Ok(Some(9)));
    assert_eq!(g.get_clone(2, 1), Ok(Some(9)));
    assert_eq!(g.get_no_err(2, 1), Some(9));
    assert_eq!(g.get_clone_no_err(2, 1), Some(9));
    assert_eq!(g.get(0, 0), Ok(None));
    assert_eq!(g.set(2, 1, None), Ok(()));
    assert_eq!(g.get(2, 1), Ok(None));
    g.set_no_err(0, 1, Some(4));
    assert_eq!(cells(&g), vec![vec![None, None, None], vec![Some(4), None, None]]);
}

#[test]
fn set_and_get_outside_are_refused() {
    let mut g: Space<u32> = Space::new(3, 2);
    assert_eq!(g.set(3, 0, Some(1)), Err("Out of space"));
    assert_eq!(g.set(0, 2, Some(1)), Err("Out of space"));
    assert_eq!(g.get(3, 0), Err("Out of space"));
    assert_eq!(g.get(0, 2), Err("Out of space"));
    assert_eq!(g.get_clone(3, 1), Err("Out of space"));
    assert_eq!(cells(&g), vec![vec![None, None, None], vec![None, None, None]]);
}

#[test]
fn copy_in_overwrites_with_empty_cells_too() {
    let mut g = Space::new_default(4, 3, Some(1u32));
    let mut piece: Space<u32> = Space::new(2, 2);
    piece.set(0, 0, Some(5)).unwrap();
    piece.set(1, 1, Some(6)).unwrap();
    assert_eq!(g.copy_in(1, 1, piece), Ok(()));
    assert_eq!(
        cells(&g),
        vec![
            vec![Some(1), Some(1), Some(1), Some(1)],
            vec![Some(1), Some(5), None, Some(1)],
            vec![Some(1), None, Some(6), Some(1)],
        ]
    );
}

#[test]
fn copy_in_at_the_far_corner_fits() {
    let mut g: Space<u32> = Space::new(4, 3);
    assert_eq!(g.copy_in(2, 1, numbered(2, 2)), Ok(()));
    assert_eq!(
        cells(&g),
        vec![
            vec![None, None, None, None],
            vec![None, None, Some(0), Some(1)],
            vec![None, None, Some(2), Some(3)],
        ]
    );
}

#[test]
fn copy_in_past_an_edge_is_refused() {
    let mut g = Space::new_default(4, 3, Some(1u32));
    let before = g.clone();
    assert_eq!(g.copy_in(3, 0, numbered(2, 2)), Err("Out of space"));
    assert_eq!(g.copy_in(0, 2, numbered(2, 2)), Err("Out of space"));
    assert_eq!(g.copy_in(0, 0, numbered(5, 1)), Err("Out of space"));
    assert_eq!(g.copy_in(usize::MAX, 0, numbered(2, 2)), Err("Out of space"));
    assert!(g == before);
}

#[test]
fn copy_in_with_bounds_keeps_an_offset_that_fits() {
    let mut g: Space<u32> = Space::new(4, 3);
    assert_eq!(g.copy_in_with_bounds(1, 0, numbered(2, 2)), (1, 0));
    assert_eq!(
        cells(&g),
        vec![
            vec![None, Some(0), Some(1), None],
            vec![None, Some(2), Some(3), None],
            vec![None, None, None, None],
        ]
    );
}

#[test]
fn copy_in_with_bounds_moves_the_piece_inside() {
    let mut g: Space<u32> = Space::new(4, 3);
    assert_eq!(g.copy_in_with_bounds(3, 7, numbered(2, 2)), (2, 1));
    assert_eq!(
        cells(&g),
        vec![
            vec![None, None, None, None],
            vec![None, None, Some(0), Some(1)],
            vec![None, None, Some(2), Some(3)],
        ]
    );
    let mut g: Space<u32> = Space::new(4, 3);
    assert_eq!(g.copy_in_with_bounds(usize::MAX, usize::MAX, numbered(4, 3)), (0, 0));
    assert!(g == numbered(4, 3));
}

#[test]
fn copy_in_with_mask_writes_only_where_the_mask_is_present() {
    let mut g = Space::new_default(3, 3, Some(1u32));
    let mut piece: Space<u32> = Space::new(2, 2);
    piece.set(0, 0, Some(5)).unwrap();
    piece.set(0, 1, Some(6)).unwrap();
    let mut mask: Mask = Space::new(2, 2);
    mask.set(0, 0, Some(())).unwrap();
    mask.set(1, 1, Some(())).unwrap();
    assert_eq!(g.copy_in_with_mask(1, 1, piece, mask), Ok(()));
    assert_eq!(
        cells(&g),
        vec![
            vec![Some(1), Some(1), Some(1)],
            vec![Some(1), Some(5), Some(1)],
            vec![Some(1), Some(1), None],
        ]
    );
}

#[test]
fn copy_in_with_an_empty_mask_writes_nothing() {
    let mut g = Space::new_default(3, 3, Some(1u32));
    let before = g.clone();
    assert_eq!(g.copy_in_with_mask(0, 0, numbered(3, 3), Space::new(3, 3)), Ok(()));
    assert!(g == before);
}

#[test]
fn copy_in_with_the_mask_of_the_piece_keeps_the_background() {
    let mut g = Space::new_default(3, 2, Some(1u32));
    let mut piece: Space<u32> = Space::new(2, 2);
    piece.set(1, 0, Some(8)).unwrap();
    let mask = Mask::from_space(&piece);
    assert_eq!(g.copy_in_with_mask(0, 0, piece, mask), Ok(()));
    assert_eq!(cells(&g), vec![vec![Some(1), Some(8), Some(1)], vec![Some(1), Some(1), Some(1)]]);
}

#[test]
fn copy_in_with_mask_checks_the_mask_and_the_bounds() {
    let mut g = Space::new_default(3, 3, Some(1u32));
    let before = g.clone();
    assert_eq!(g.copy_in_with_mask(0, 0, numbered(2, 2), Space::new(1, 2)), Err("Mask width incorrect"));
    assert_eq!(g.copy_in_with_mask(0, 0, numbered(2, 2), Space::new(2, 3)), Err("Mask height incorrect"));
    assert_eq!(g.copy_in_with_mask(5, 5, numbered(2, 2), Space::new(1, 3)), Err("Mask width incorrect"));
    assert_eq!(g.copy_in_with_mask(2, 0, numbered(2, 2), Space::new(2, 2)), Err("Out of space"));
    assert_eq!(g.copy_in_with_mask(0, 2, numbered(2, 2), Space::new(2, 2)), Err("Out of space"));
    assert!(g == before);
}

#[test]
fn one_clockwise_turn() {
    // 0 1 2
    // 3 4 5
    let r = numbered(3, 2).get_rotated(Rotation::Clockwise, 1);
    assert_eq!(r.get_width(), 2);
    assert_eq!(r.get_height(), 3);
    assert_eq!(
        cells(&r),
        vec![vec![Some(3), Some(0)], vec![Some(4), Some(1)], vec![Some(5), Some(2)]]
    );
}

#[test]
fn one_counterclockwise_turn() {
    let r = numbered(3, 2).get_rotated(Rotation::Counterclockwise, 1);
    assert_eq!(r.get_width(), 2);
    assert_eq!(r.get_height(), 3);
    assert_eq!(
        cells(&r),
        vec![vec![Some(2), Some(5)], vec![Some(1), Some(4)], vec![Some(0), Some(3)]]
    );
}

#[test]
fn two_turns_are_a_half_turn_either_way() {
    let half = vec![vec![Some(5), Some(4), Some(3)], vec![Some(2), Some(1), Some(0)]];
    assert_eq!(cells(&numbered(3, 2).get_rotated(Rotation::Clockwise, 2)), half);
    assert_eq!(cells(&numbered(3, 2).get_rotated(Rotation::Counterclockwise, 2)), half);
}

#[test]
fn three_turns_one_way_are_one_turn_the_other_way() {
    let g = numbered(3, 2);
    assert!(g.get_rotated(Rotation::Clockwise, 3) == g.get_rotated(Rotation::Counterclockwise, 1));
    assert!(g.get_rotated(Rotation::Counterclockwise, 3) == g.get_rotated(Rotation::Clockwise, 1));
}

#[test]
fn full_turns_give_the_grid_back() {
    let g = numbered(3, 2);
    assert!(g.get_rotated(Rotation::Clockwise, 0) == g);
    assert!(g.get_rotated(Rotation::Clockwise, 4) == g);
    assert!(g.get_rotated(Rotation::Counterclockwise, 4) == g);
    assert!(g.get_rotated(Rotation::Clockwise, 8) == g);
    assert!(g.get_rotated(Rotation::Clockwise, 5) == g.get_rotated(Rotation::Clockwise, 1));
}

#[test]
fn a_turn_and_the_turn_back_give_the_grid_back() {
    let g = numbered(4, 3);
    let back = g.get_rotated(Rotation::Clockwise, 1).get_rotated(Rotation::Counterclockwise, 1);
    assert!(back == g);
    assert_eq!(back.get_width(), 4);
    assert_eq!(back.get_height(), 3);
    let back = g.get_rotated(Rotation::Counterclockwise, 1).get_rotated(Rotation::Clockwise, 1);
    assert!(back == g);
}

#[test]
fn turning_a_grid_without_cells() {
    let g: Space<u32> = Space::new(0, 3);
    let r = g.get_rotated(Rotation::Clockwise, 1);
    assert_eq!(r.get_width(), 3);
    assert_eq!(r.get_height(), 0);
}

#[test]
fn equal_grids_have_equal_dimensions_and_cells() {
    assert!(numbered(3, 2) == numbered(3, 2));
    assert!(numbered(3, 2) != numbered(2, 3));
    let mut other = numbered(3, 2);
    other.set(1, 1, None).unwrap();
    assert!(numbered(3, 2) != other);
    other.set(1, 1, Some(4)).unwrap();
    assert!(numbered(3, 2) == other);
    let a: Space<u32> = Space::new(0, 2);
    let b: Space<u32> = Space::new(0, 3);
    assert!(a != b);
}

#[test]
fn a_clone_is_equal_and_independent() {
    let source = numbered(3, 2);
    let mut copy = source.clone();
    assert!(copy == source);
    copy.set(0, 0, Some(99)).unwrap();
    copy.set(2, 1, None).unwrap();
    assert!(copy != source);
    assert!(source == numbered(3, 2));
    assert_eq!(source.get(0, 0), Ok(Some(0)));
    assert_eq!(source.get(2, 1), Ok(Some(5)));
}
