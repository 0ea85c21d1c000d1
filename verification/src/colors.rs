//! Piece colors and the random draws that pick colors and pieces.

use rand::rngs::StdRng;
use rand::Rng;
use vstd::prelude::*;

verus! {

/// The color of an occupied cell.
#[derive(Copy, Clone, PartialEq, Eq, Structural, Debug)]
pub enum Colors {
    Red,
    Green,
    Blue,
    Yellow,
}

/// The seedable generator of `rand`, `rand::rngs::StdRng`. Nothing is known
/// of its state.
#[verifier::external_type_specification]
#[verifier::external_body]
pub struct ExStdRng(StdRng);

/// Draws a number from `0..bound` with `Rng::gen_range` of `rand`. The
/// contract claims only what holds of every draw: the number lies in the
/// range. The call panics on an empty range, which `requires` leaves out.
#[verifier::external_body]
pub(crate) fn draw_below(rng: &mut StdRng, bound: i32) -> (r: i32)
    requires
        0 < bound,
    ensures
        0 <= r < bound,
{
    rng.gen_range(0..bound)
}

impl Colors {
    /// The color that a draw from `0..4` stands for: red, green, blue and
    /// yellow in this order. Any other number gives yellow.
    pub open spec fn of_draw(draw: int) -> Colors {
        if draw == 0 {
            Colors::Red
        } else if draw == 1 {
            Colors::Green
        } else if draw == 2 {
            Colors::Blue
        } else {
            Colors::Yellow
        }
    }

    /// The color that a draw from `0..4` stands for.
    pub fn from_draw(draw: i32) -> (c: Colors)
        ensures
            c == Colors::of_draw(draw as int),
    {
        match draw {
            0 => Colors::Red,
            1 => Colors::Green,
            2 => Colors::Blue,
            _ => Colors::Yellow,
        }
    }

    /// A color picked by one draw from `0..4`, each of the four being the
    /// outcome of exactly one number.
    pub fn get_random(rng: &mut StdRng) -> (c: Colors)
        ensures
            exists|draw: int| 0 <= draw < 4 && c == #[trigger] Colors::of_draw(draw),
    {
        let draw = draw_below(rng, 4);
        Colors::from_draw(draw)
    }

    /// The letter that stands for the color in diagnostic output.
    pub fn letter(&self) -> (c: char)
        ensures
            c == match *self {
                Colors::Red => 'R',
                Colors::Green => 'G',
                Colors::Blue => 'B',
                Colors::Yellow => 'Y',
            },
    {
        match self {
            Colors::Red => 'R',
            Colors::Green => 'G',
            Colors::Blue => 'B',
            Colors::Yellow => 'Y',
        }
    }
}

} // verus!
