//! The catalog of the seven pieces. Each piece is a grid of the size of its
//! bounding box whose occupied cells share one color and are all falling.

use crate::colors::{draw_below, Colors};
use crate::desk::Desk;
use crate::grid::{Grid, Space};
use rand::rngs::StdRng;
use vstd::prelude::*;

verus! {

/// The piece of the given bounding box and color whose occupied cells are
/// those that `filled` holds of.
pub open spec fn piece(width: nat, height: nat, color: Colors, filled: spec_fn(int, int) -> bool) -> Grid<
    (Colors, bool),
> {
    Grid::build(
        width,
        height,
        |x: int, y: int|
            if filled(x, y) {
                Some((color, true))
            } else {
                None
            },
    )
}

/// The straight piece: one column of four cells.
pub open spec fn i_shape(color: Colors) -> Grid<(Colors, bool)> {
    piece(1, 4, color, |x: int, y: int| true)
}

/// The square piece: two by two cells.
pub open spec fn o_shape(color: Colors) -> Grid<(Colors, bool)> {
    piece(2, 2, color, |x: int, y: int| true)
}

/// The hook with its foot to the right: the left column and the bottom
/// right cell of a box two wide and three high.
pub open spec fn l_shape(color: Colors) -> Grid<(Colors, bool)> {
    piece(2, 3, color, |x: int, y: int| x == 0 || y == 2)
}

/// The hook with its foot to the left: the right column and the bottom
/// left cell of a box two wide and three high.
pub open spec fn j_shape(color: Colors) -> Grid<(Colors, bool)> {
    piece(2, 3, color, |x: int, y: int| x == 1 || y == 2)
}

/// The zig-zag that rises to the right: the right two cells of the top row
/// and the left two of the bottom row of a box three wide and two high.
pub open spec fn s_shape(color: Colors) -> Grid<(Colors, bool)> {
    piece(3, 2, color, |x: int, y: int| (y == 0 && x >= 1) || (y == 1 && x <= 1))
}

/// The zig-zag that falls to the right: the left two cells of the top row
/// and the right two of the bottom row of a box three wide and two high.
pub open spec fn z_shape(color: Colors) -> Grid<(Colors, bool)> {
    piece(3, 2, color, |x: int, y: int| (y == 0 && x <= 1) || (y == 1 && x >= 1))
}

/// The piece with a stem: the bottom row and the middle cell of the top row
/// of a box three wide and two high.
pub open spec fn t_shape(color: Colors) -> Grid<(Colors, bool)> {
    piece(3, 2, color, |x: int, y: int| y == 1 || x == 1)
}

/// The piece that a draw from `0..7` stands for: straight, square, the two
/// hooks, the two zig-zags and the stem piece in this order. Any other number
/// gives the stem piece.
pub open spec fn shape_of_draw(draw: int, color: Colors) -> Grid<(Colors, bool)> {
    if draw == 0 {
        i_shape(color)
    } else if draw == 1 {
        o_shape(color)
    } else if draw == 2 {
        l_shape(color)
    } else if draw == 3 {
        j_shape(color)
    } else if draw == 4 {
        s_shape(color)
    } else if draw == 5 {
        z_shape(color)
    } else {
        t_shape(color)
    }
}

/// Every piece of the catalog fits a box four by four, and each of its
/// occupied cells has the color asked for and is falling.
pub proof fn lemma_catalog_pieces(draw: int, color: Colors)
    ensures
        shape_of_draw(draw, color).wf(),
        1 <= shape_of_draw(draw, color).width <= 4,
        1 <= shape_of_draw(draw, color).height <= 4,
        forall|x: int, y: int|
            shape_of_draw(draw, color).contains(x, y) ==> {
                let cell = #[trigger] shape_of_draw(draw, color).at(x, y);
                cell is None || cell == Some((color, true))
            },
{
}

/// The straight piece.
pub fn get_i_shape(color: Colors) -> (shape: Desk)
    ensures
        shape@ == i_shape(color),
{
    let cell = Some((color, true));
    let mut shape = Space::new(1, 4);
    shape.set_no_err(0, 0, cell);
    shape.set_no_err(0, 1, cell);
    shape.set_no_err(0, 2, cell);
    shape.set_no_err(0, 3, cell);
    assert(shape@.rows =~~= i_shape(color).rows);
    shape
}

/// The square piece.
pub fn get_o_shape(color: Colors) -> (shape: Desk)
    ensures
        shape@ == o_shape(color),
{
    let cell = Some((color, true));
    let mut shape = Space::new(2, 2);
    shape.set_no_err(0, 0, cell);
    shape.set_no_err(0, 1, cell);
    shape.set_no_err(1, 0, cell);
    shape.set_no_err(1, 1, cell);
    assert(shape@.rows =~~= o_shape(color).rows);
    shape
}

/// The hook with its foot to the right.
pub fn get_l_shape(color: Colors) -> (shape: Desk)
    ensures
        shape@ == l_shape(color),
{
    let cell = Some((color, true));
    let mut shape = Space::new(2, 3);
    shape.set_no_err(0, 0, cell);
    shape.set_no_err(0, 1, cell);
    shape.set_no_err(0, 2, cell);
    shape.set_no_err(1, 2, cell);
    assert(shape@.rows =~~= l_shape(color).rows);
    shape
}

/// The hook with its foot to the left.
pub fn get_j_shape(color: Colors) -> (shape: Desk)
    ensures
        shape@ == j_shape(color),
{
    let cell = Some((color, true));
    let mut shape = Space::new(2, 3);
    shape.set_no_err(1, 0, cell);
    shape.set_no_err(1, 1, cell);
    shape.set_no_err(1, 2, cell);
    shape.set_no_err(0, 2, cell);
    assert(shape@.rows =~~= j_shape(color).rows);
    shape
}

/// The zig-zag that rises to the right.
pub fn get_s_shape(color: Colors) -> (shape: Desk)
    ensures
        shape@ == s_shape(color),
{
    let cell = Some((color, true));
    let mut shape = Space::new(3, 2);
    shape.set_no_err(0, 1, cell);
    shape.set_no_err(1, 1, cell);
    shape.set_no_err(1, 0, cell);
    shape.set_no_err(2, 0, cell);
    assert(shape@.rows =~~= s_shape(color).rows);
    shape
}

/// The zig-zag that falls to the right.
pub fn get_z_shape(color: Colors) -> (shape: Desk)
    ensures
        shape@ == z_shape(color),
{
    let cell = Some((color, true));
    let mut shape = Space::new(3, 2);
    shape.set_no_err(2, 1, cell);
    shape.set_no_err(1, 1, cell);
    shape.set_no_err(1, 0, cell);
    shape.set_no_err(0, 0, cell);
    assert(shape@.rows =~~= z_shape(color).rows);
    shape
}

/// The piece with a stem.
pub fn get_t_shape(color: Colors) -> (shape: Desk)
    ensures
        shape@ == t_shape(color),
{
    let cell = Some((color, true));
    let mut shape = Space::new(3, 2);
    shape.set_no_err(2, 1, cell);
    shape.set_no_err(1, 1, cell);
    shape.set_no_err(1, 0, cell);
    shape.set_no_err(0, 1, cell);
    assert(shape@.rows =~~= t_shape(color).rows);
    shape
}

/// The piece that a draw from `0..7` stands for.
pub fn shape_from_draw(draw: i32, color: Colors) -> (shape: Desk)
    ensures
        shape@ == shape_of_draw(draw as int, color),
{
    match draw {
        0 => get_i_shape(color),
        1 => get_o_shape(color),
        2 => get_l_shape(color),
        3 => get_j_shape(color),
        4 => get_s_shape(color),
        5 => get_z_shape(color),
        _ => get_t_shape(color),
    }
}

/// A piece of the given color picked by one draw from `0..7`, each of the
/// seven being the outcome of exactly one number.
pub fn get_random_shape(rng: &mut StdRng, color: Colors) -> (shape: Desk)
    ensures
        exists|draw: int| 0 <= draw < 7 && shape@ == #[trigger] shape_of_draw(draw, color),
{
    let draw = draw_below(rng, 7);
    shape_from_draw(draw, color)
}

} // verus!
