//! Presence masks: grids whose cells say only "present" or "absent".

use crate::grid::{rows_shaped, Grid, Space};
use vstd::prelude::*;

verus! {

/// A grid of presence markers.
pub type Mask = Space<()>;

impl Grid<()> {
    /// The mask with every cell flipped between present and absent.
    pub open spec fn inverted(self) -> Grid<()> {
        Grid::<()>::build(
            self.width,
            self.height,
            |i: int, j: int|
                if self.at(i, j) is Some {
                    None
                } else {
                    Some(())
                },
        )
    }

    /// Flipping every cell twice gives the mask back.
    pub proof fn lemma_inverted_twice(self)
        requires
            self.wf(),
        ensures
            self.inverted().inverted() == self,
    {
        assert(self.inverted().inverted().rows =~~= self.rows);
    }
}

/// Flips every cell of `rows` between present and absent.
fn flip_rows(rows: &mut Vec<Vec<Option<()>>>, w: usize)
    requires
        rows_shaped(*old(rows), w as nat, old(rows)@.len()),
    ensures
        rows_shaped(*final(rows), w as nat, old(rows)@.len()),
        forall|j: int, x: int|
            0 <= j < old(rows)@.len() && 0 <= x < w ==> ((#[trigger] final(rows)@[j]@[x]) is Some) == (
            old(rows)@[j]@[x] is None),
    no_unwind
{
    let h = rows.len();
    let mut x: usize = 0;
    while x < w
        invariant
            x <= w,
            h == rows.len(),
            h == old(rows).len(),
            rows_shaped(*rows, w as nat, old(rows)@.len()),
            forall|j: int, i: int|
                0 <= j < h && 0 <= i < w ==> ((#[trigger] rows@[j]@[i]) is Some) == if i < x {
                    old(rows)@[j]@[i] is None
                } else {
                    old(rows)@[j]@[i] is Some
                },
        decreases w - x,
    {
        let mut y: usize = 0;
        while y < h
            invariant
                y <= h,
                x < w,
                h == rows.len(),
                h == old(rows).len(),
                rows_shaped(*rows, w as nat, old(rows)@.len()),
                forall|j: int, i: int|
                    0 <= j < h && 0 <= i < w ==> ((#[trigger] rows@[j]@[i]) is Some) == if i < x || (i == x
                        && j < y) {
                        old(rows)@[j]@[i] is None
                    } else {
                        old(rows)@[j]@[i] is Some
                    },
            decreases h - y,
        {
            if let None = rows[y][x] {
                rows[y][x] = Some(());
            } else {
                rows[y][x] = None;
            }
            y += 1;
        }
        x += 1;
    }
}

impl Space<()> {
    /// Flips every cell between present and absent.
    pub fn invert(&mut self)
        ensures
            final(self)@ == old(self)@.inverted(),
    {
        proof {
            use_type_invariant(&*self);
        }
        flip_rows(&mut self.space, self.w);
        assert(self@.rows =~~= old(self)@.inverted().rows);
    }

    /// The mask with every cell flipped between present and absent.
    pub fn get_invert(self) -> (r: Self)
        ensures
            r@ == self@.inverted(),
    {
        let mut clone = self.clone();
        clone.invert();
        clone
    }

    /// The presence pattern of `space`: a cell is present where the cell of
    /// `space` is occupied.
    pub fn from_space<T>(space: &Space<T>) -> (r: Self)
        ensures
            r@ == space@.occupancy(),
    {
        proof {
            use_type_invariant(space);
        }
        let mut rows: Vec<Vec<Option<()>>> = Vec::new();
        let mut y: usize = 0;
        while y < space.h
            invariant
                y <= space.h,
                rows_shaped(space.space, space.w as nat, space.h as nat),
                rows@.len() == y,
                forall|j: int|
                    0 <= j < y ==> (#[trigger] rows@[j])@ == Seq::new(
                        space.w as nat,
                        |i: int| space@.occupancy().at(i, j),
                    ),
            decreases space.h - y,
        {
            let mut row: Vec<Option<()>> = Vec::new();
            let mut x: usize = 0;
            while x < space.w
                invariant
                    x <= space.w,
                    y < space.h,
                    rows_shaped(space.space, space.w as nat, space.h as nat),
                    row@ == Seq::new(x as nat, |i: int| space@.occupancy().at(i, y as int)),
                decreases space.w - x,
            {
                let present = if let Some(_) = space.space[y][x] {
                    Some(())
                } else {
                    None
                };
                row.push(present);
                assert(row@ =~= Seq::new((x + 1) as nat, |i: int| space@.occupancy().at(i, y as int)));
                x += 1;
            }
            rows.push(row);
            y += 1;
        }
        let r = Space { space: rows, w: space.w, h: space.h };
        assert(r@.rows =~~= space@.occupancy().rows);
        r
    }
}

} // verus!
