//! Equality of grids: same dimensions and pairwise equal cells.

use crate::grid::{rows_shaped, Space};
use vstd::prelude::*;
use vstd::std_specs::cmp::PartialEqSpec;

verus! {

impl<T: PartialEq> PartialEq for Space<T> {
    /// Two grids are equal if their dimensions agree and every cell of the
    /// one equals the cell of the other at the same position.
    fn eq(&self, other: &Self) -> (r: bool) {
        proof {
            use_type_invariant(self);
            use_type_invariant(other);
        }
        if self.w != other.w || self.h != other.h {
            return false;
        }
        let mut x: usize = 0;
        while x < self.w
            invariant
                x <= self.w,
                self.w == other.w,
                self.h == other.h,
                rows_shaped(self.space, self.w as nat, self.h as nat),
                rows_shaped(other.space, self.w as nat, self.h as nat),
                T::obeys_eq_spec() ==> forall|i: int, j: int|
                    0 <= i < x && 0 <= j < self.h ==> (#[trigger] self@.at(i, j)).eq_spec(
                        &other@.at(i, j),
                    ),
            decreases self.w - x,
        {
            let mut y: usize = 0;
            while y < self.h
                invariant
                    y <= self.h,
                    x < self.w,
                    self.w == other.w,
                    self.h == other.h,
                    rows_shaped(self.space, self.w as nat, self.h as nat),
                    rows_shaped(other.space, self.w as nat, self.h as nat),
                    T::obeys_eq_spec() ==> forall|i: int, j: int|
                        (0 <= i < x && 0 <= j < self.h) || (i == x && 0 <= j < y) ==> (
                        #[trigger] self@.at(i, j)).eq_spec(&other@.at(i, j)),
                decreases self.h - y,
            {
                if self.space[y][x] != other.space[y][x] {
                    proof {
                        if T::obeys_eq_spec() {
                            assert(!self@.at(x as int, y as int).eq_spec(&other@.at(x as int, y as int)));
                        }
                    }
                    return false;
                }
                y += 1;
            }
            x += 1;
        }
        true
    }
}

impl<T: PartialEq> vstd::std_specs::cmp::PartialEqSpecImpl for Space<T> {
    open spec fn obeys_eq_spec() -> bool {
        T::obeys_eq_spec()
    }

    open spec fn eq_spec(&self, other: &Self) -> bool {
        &&& self@.width == other@.width
        &&& self@.height == other@.height
        &&& forall|x: int, y: int|
            0 <= x < self@.width && 0 <= y < self@.height ==> PartialEqSpec::eq_spec(
                &#[trigger] self@.at(x, y),
                &other@.at(x, y),
            )
    }
}

/// Where `==` on cell values holds exactly of equal values, `==` on grids
/// holds exactly of grids with equal dimensions and equal cells.
pub proof fn lemma_eq_is_equality<T: PartialEq>(a: Space<T>, b: Space<T>)
    requires
        a@.wf(),
        b@.wf(),
        forall|x: T, y: T| #[trigger] x.eq_spec(&y) <==> x == y,
    ensures
        a.eq_spec(&b) <==> a@ == b@,
{
    if a.eq_spec(&b) {
        assert forall|y: int, x: int| 0 <= y < a@.height && 0 <= x < a@.width implies a@.rows[y][x]
            == b@.rows[y][x] by {
            assert(a@.at(x, y).eq_spec(&b@.at(x, y)));
        }
        assert(a@.rows =~~= b@.rows);
    }
}

} // verus!
