//! The bounded grid: its mathematical model and the executable container.

use vstd::prelude::*;

verus! {

/// Direction of a quarter turn.
#[derive(Debug, Copy, Clone, PartialEq, Eq, Structural)]
pub enum Rotation {
    Clockwise,
    Counterclockwise,
}

/// The mathematical model of a grid: its dimensions and its rows of cells,
/// top row first, each row from left to right.
#[verifier::ext_equal]
pub struct Grid<T> {
    pub width: nat,
    pub height: nat,
    pub rows: Seq<Seq<Option<T>>>,
}

impl<T> Grid<T> {
    /// There are `height` rows and each has exactly `width` cells.
    pub open spec fn wf(self) -> bool {
        &&& self.rows.len() == self.height
        &&& forall|y: int| 0 <= y < self.height ==> (#[trigger] self.rows[y]).len() == self.width
    }

    /// Whether `(x, y)` addresses a cell of the grid.
    pub open spec fn contains(self, x: int, y: int) -> bool {
        0 <= x < self.width && 0 <= y < self.height
    }

    /// The cell in column `x` of row `y`.
    pub open spec fn at(self, x: int, y: int) -> Option<T> {
        self.rows[y][x]
    }

    /// The grid of the given dimensions whose cell at `(x, y)` is `cell(x, y)`.
    pub open spec fn build(width: nat, height: nat, cell: spec_fn(int, int) -> Option<T>) -> Grid<T> {
        Grid {
            width,
            height,
            rows: Seq::new(height, |y: int| Seq::new(width, |x: int| cell(x, y))),
        }
    }

    /// The grid in which every cell holds `value`.
    pub open spec fn filled(width: nat, height: nat, value: Option<T>) -> Grid<T> {
        Self::build(width, height, |x: int, y: int| value)
    }

    /// The grid in which every cell is empty.
    pub open spec fn empty(width: nat, height: nat) -> Grid<T> {
        Self::filled(width, height, None)
    }

    /// The grid with the cell at `(x, y)` replaced by `value`.
    pub open spec fn put(self, x: int, y: int, value: Option<T>) -> Grid<T> {
        Self::build(
            self.width,
            self.height,
            |i: int, j: int|
                if i == x && j == y {
                    value
                } else {
                    self.at(i, j)
                },
        )
    }

    /// Whether `other`, placed with its top-left corner at `(x, y)`, lies
    /// entirely inside the grid.
    pub open spec fn fits(self, x: int, y: int, other: Grid<T>) -> bool {
        x + other.width <= self.width && y + other.height <= self.height
    }

    /// The grid with every cell of `other`, empty ones included, written over
    /// it at offset `(x, y)`.
    pub open spec fn overlay(self, x: int, y: int, other: Grid<T>) -> Grid<T> {
        Self::build(
            self.width,
            self.height,
            |i: int, j: int|
                if other.contains(i - x, j - y) {
                    other.at(i - x, j - y)
                } else {
                    self.at(i, j)
                },
        )
    }

    /// The grid with those cells of `other` written over it at offset
    /// `(x, y)` whose position is present in `mask`.
    pub open spec fn overlay_masked(self, x: int, y: int, other: Grid<T>, mask: Grid<()>) -> Grid<T> {
        Self::build(
            self.width,
            self.height,
            |i: int, j: int|
                if other.contains(i - x, j - y) && mask.at(i - x, j - y) is Some {
                    other.at(i - x, j - y)
                } else {
                    self.at(i, j)
                },
        )
    }

    /// The cell that a quarter turn brings to `(i, j)`: a clockwise turn
    /// takes the cell at `(x, y)` to `(height - 1 - y, x)`, a counterclockwise
    /// turn takes it to `(y, width - 1 - x)`.
    pub open spec fn turned_cell(self, direction: Rotation, i: int, j: int) -> Option<T> {
        match direction {
            Rotation::Clockwise => self.at(j, self.height - 1 - i),
            Rotation::Counterclockwise => self.at(self.width - 1 - j, i),
        }
    }

    /// The grid after one quarter turn: width and height change places.
    pub open spec fn turned(self, direction: Rotation) -> Grid<T> {
        Self::build(self.height, self.width, |i: int, j: int| self.turned_cell(direction, i, j))
    }

    /// The grid after `count` quarter turns in the given direction.
    pub open spec fn rotated(self, direction: Rotation, count: nat) -> Grid<T>
        decreases count,
    {
        if count == 0 {
            self
        } else {
            self.rotated(direction, (count - 1) as nat).turned(direction)
        }
    }

    /// The presence pattern of the grid: a cell is present where the grid's
    /// cell is occupied.
    pub open spec fn occupancy(self) -> Grid<()> {
        Grid::<()>::build(
            self.width,
            self.height,
            |i: int, j: int|
                if self.at(i, j) is Some {
                    Some(())
                } else {
                    None
                },
        )
    }
}

impl<T> Grid<T> {
    /// A quarter turn one way followed by a quarter turn the other way gives
    /// the grid back.
    pub proof fn lemma_turn_back(self, direction: Rotation)
        requires
            self.wf(),
        ensures
            self.turned(direction).turned(opposite(direction)) == self,
    {
        assert(self.turned(direction).turned(opposite(direction)).rows =~~= self.rows);
    }

    /// Four quarter turns in one direction give the grid back.
    pub proof fn lemma_four_turns(self, direction: Rotation)
        requires
            self.wf(),
        ensures
            self.turned(direction).turned(direction).turned(direction).turned(direction) == self,
    {
        let a = self.turned(direction);
        let b = a.turned(direction);
        let c = b.turned(direction);
        let d = c.turned(direction);
        assert forall|i: int, j: int| 0 <= i < self.width && 0 <= j < self.height implies d.at(i, j)
            == self.at(i, j) by {
            match direction {
                Rotation::Clockwise => {
                    assert(d.at(i, j) == c.at(j, c.height - 1 - i));
                    assert(c.at(j, self.width - 1 - i) == b.at(self.width - 1 - i, b.height - 1 - j));
                    assert(b.at(self.width - 1 - i, self.height - 1 - j) == a.at(
                        self.height - 1 - j,
                        i,
                    ));
                },
                Rotation::Counterclockwise => {
                    assert(d.at(i, j) == c.at(c.width - 1 - j, i));
                    assert(c.at(self.height - 1 - j, i) == b.at(b.width - 1 - i, self.height - 1 - j));
                    assert(b.at(self.width - 1 - i, self.height - 1 - j) == a.at(
                        j,
                        self.width - 1 - i,
                    ));
                },
            }
        }
        assert(d.rows =~~= self.rows);
    }

    /// Turning keeps a grid well formed.
    pub proof fn lemma_rotated_wf(self, direction: Rotation, count: nat)
        requires
            self.wf(),
        ensures
            self.rotated(direction, count).wf(),
        decreases count,
    {
        if count > 0 {
            self.lemma_rotated_wf(direction, (count - 1) as nat);
        }
    }

    /// Four more quarter turns change nothing.
    pub proof fn lemma_rotated_period(self, direction: Rotation, count: nat)
        requires
            self.wf(),
        ensures
            self.rotated(direction, count + 4) == self.rotated(direction, count),
    {
        let r = self.rotated(direction, count);
        self.lemma_rotated_wf(direction, count);
        r.lemma_four_turns(direction);
        assert(self.rotated(direction, count + 1) == r.turned(direction));
        assert(self.rotated(direction, count + 2) == r.turned(direction).turned(direction));
        assert(self.rotated(direction, count + 3) == r.turned(direction).turned(direction).turned(
            direction,
        ));
        assert(self.rotated(direction, count + 4) == self.rotated(direction, count + 3).turned(
            direction,
        ));
    }

    /// Any number of full turns gives the grid back.
    pub proof fn lemma_rotated_full_turns(self, direction: Rotation, count: nat)
        requires
            self.wf(),
            count % 4 == 0,
        ensures
            self.rotated(direction, count) == self,
        decreases count,
    {
        if count > 0 {
            self.lemma_rotated_full_turns(direction, (count - 4) as nat);
            self.lemma_rotated_period(direction, (count - 4) as nat);
        }
    }

    /// Four quarter turns clockwise give the grid back, dimensions and
    /// cells, and so does a clockwise quarter turn followed by a
    /// counterclockwise one.
    pub proof fn lemma_rotation_round_trip(self)
        requires
            self.wf(),
        ensures
            self.rotated(Rotation::Clockwise, 4) == self,
            self.rotated(Rotation::Clockwise, 1).rotated(Rotation::Counterclockwise, 1) == self,
    {
        self.lemma_rotated_full_turns(Rotation::Clockwise, 4);
        self.lemma_turn_back(Rotation::Clockwise);
        let once = self.rotated(Rotation::Clockwise, 1);
        assert(self.rotated(Rotation::Clockwise, 0) == self);
        assert(once == self.turned(Rotation::Clockwise));
        assert(once.rotated(Rotation::Counterclockwise, 0) == once);
        assert(once.rotated(Rotation::Counterclockwise, 1) == once.turned(
            Rotation::Counterclockwise,
        ));
    }

    /// An overlay writes every cell of the source, empty ones included, and
    /// no other cell.
    pub proof fn lemma_overlay_cells(self, x: int, y: int, other: Grid<T>)
        requires
            self.wf(),
            other.wf(),
            0 <= x,
            0 <= y,
            self.fits(x, y, other),
        ensures
            self.overlay(x, y, other).wf(),
            self.overlay(x, y, other).width == self.width,
            self.overlay(x, y, other).height == self.height,
            forall|i: int, j: int|
                other.contains(i, j) ==> #[trigger] self.overlay(x, y, other).at(x + i, y + j)
                    == other.at(i, j),
            forall|i: int, j: int|
                self.contains(i, j) && !other.contains(i - x, j - y) ==> #[trigger] self.overlay(
                    x,
                    y,
                    other,
                ).at(i, j) == self.at(i, j),
    {
        assert forall|i: int, j: int| other.contains(i, j) implies #[trigger] self.overlay(
            x,
            y,
            other,
        ).at(x + i, y + j) == other.at(i, j) by {
            assert(self.contains(x + i, y + j));
            assert(other.contains((x + i) - x, (y + j) - y));
        }
    }

    /// A masked overlay leaves every cell as it was whose position the
    /// source does not cover or at which the mask is absent, and writes the
    /// source's cell wherever the mask is present.
    pub proof fn lemma_overlay_masked_cells(self, x: int, y: int, other: Grid<T>, mask: Grid<()>)
        requires
            self.wf(),
            other.wf(),
            mask.wf(),
            mask.width == other.width,
            mask.height == other.height,
            0 <= x,
            0 <= y,
            self.fits(x, y, other),
        ensures
            self.overlay_masked(x, y, other, mask).wf(),
            self.overlay_masked(x, y, other, mask).width == self.width,
            self.overlay_masked(x, y, other, mask).height == self.height,
            forall|i: int, j: int|
                self.contains(i, j) && !(other.contains(i - x, j - y) && mask.at(i - x, j - y) is Some)
                    ==> #[trigger] self.overlay_masked(x, y, other, mask).at(i, j) == self.at(i, j),
            forall|i: int, j: int|
                other.contains(i, j) && mask.at(i, j) is Some ==> #[trigger] self.overlay_masked(
                    x,
                    y,
                    other,
                    mask,
                ).at(x + i, y + j) == other.at(i, j),
    {
        assert forall|i: int, j: int| other.contains(i, j) && mask.at(i, j) is Some implies #[trigger] self.overlay_masked(
            x,
            y,
            other,
            mask,
        ).at(x + i, y + j) == other.at(i, j) by {
            assert(self.contains(x + i, y + j));
            assert(other.contains((x + i) - x, (y + j) - y));
        }
    }
}

/// The other direction.
pub open spec fn opposite(direction: Rotation) -> Rotation {
    match direction {
        Rotation::Clockwise => Rotation::Counterclockwise,
        Rotation::Counterclockwise => Rotation::Clockwise,
    }
}

/// The rows of a nested vector as a sequence of sequences.
pub(crate) open spec fn rows_view<T>(rows: Vec<Vec<Option<T>>>) -> Seq<Seq<Option<T>>> {
    Seq::new(rows@.len(), |y: int| rows@[y]@)
}

/// The nested vector has `h` rows of `w` cells each.
pub(crate) open spec fn rows_shaped<T>(rows: Vec<Vec<Option<T>>>, w: nat, h: nat) -> bool {
    &&& rows@.len() == h
    &&& forall|y: int| 0 <= y < h ==> (#[trigger] rows@[y])@.len() == w
}

/// Writes `value` into column `x` of row `y`, leaving every other cell as it was.
pub(crate) fn put_cell<T>(rows: &mut Vec<Vec<Option<T>>>, x: usize, y: usize, value: Option<T>)
    requires
        y < old(rows)@.len(),
        x < old(rows)@[y as int]@.len(),
    ensures
        final(rows)@.len() == old(rows)@.len(),
        forall|j: int|
            0 <= j < old(rows)@.len() ==> (#[trigger] final(rows)@[j])@ == if j == y {
                old(rows)@[j]@.update(x as int, value)
            } else {
                old(rows)@[j]@
            },
    no_unwind
{
    rows[y][x] = value;
}

/// Takes the value out of column `x` of row `y`, leaving that cell empty.
pub(crate) fn take_cell<T>(rows: &mut Vec<Vec<Option<T>>>, x: usize, y: usize) -> (value: Option<T>)
    requires
        y < old(rows)@.len(),
        x < old(rows)@[y as int]@.len(),
    ensures
        value == old(rows)@[y as int]@[x as int],
        final(rows)@.len() == old(rows)@.len(),
        forall|j: int|
            0 <= j < old(rows)@.len() ==> (#[trigger] final(rows)@[j])@ == if j == y {
                old(rows)@[j]@.update(x as int, None)
            } else {
                old(rows)@[j]@
            },
{
    rows[y][x].take()
}

/// A two-dimensional array of optional cells whose width and height are fixed
/// at construction. Columns are counted from the left, rows from the top.
pub struct Space<T> {
    pub(crate) space: Vec<Vec<Option<T>>>,
    pub(crate) w: usize,
    pub(crate) h: usize,
}

impl<T> View for Space<T> {
    type V = Grid<T>;

    open(crate) spec fn view(&self) -> Grid<T> {
        Grid { width: self.w as nat, height: self.h as nat, rows: rows_view(self.space) }
    }
}

impl<T> Space<T> {
    #[verifier::type_invariant]
    pub(crate) open(crate) spec fn shaped(self) -> bool {
        rows_shaped(self.space, self.w as nat, self.h as nat)
    }

    /// A grid of the given dimensions with every cell empty.
    pub fn new(w: usize, h: usize) -> (r: Self)
        ensures
            r@ == Grid::<T>::empty(w as nat, h as nat),
    {
        let mut space: Vec<Vec<Option<T>>> = Vec::new();
        let mut y: usize = 0;
        while y < h
            invariant
                y <= h,
                space@.len() == y,
                forall|j: int| 0 <= j < y ==> (#[trigger] space@[j])@ == Seq::new(w as nat, |x: int| None::<T>),
            decreases h - y,
        {
            let mut row: Vec<Option<T>> = Vec::new();
            let mut x: usize = 0;
            while x < w
                invariant
                    x <= w,
                    row@ == Seq::new(x as nat, |i: int| None::<T>),
                decreases w - x,
            {
                row.push(None);
                x += 1;
            }
            space.push(row);
            y += 1;
        }
        let r = Space { space, w, h };
        assert(r@.rows =~~= Grid::<T>::empty(w as nat, h as nat).rows);
        r
    }

    /// The number of columns.
    pub fn get_width(&self) -> (w: usize)
        ensures
            w == self@.width,
            self@.wf(),
    {
        proof {
            use_type_invariant(self);
        }
        self.w
    }

    /// The number of rows.
    pub fn get_height(&self) -> (h: usize)
        ensures
            h == self@.height,
            self@.wf(),
    {
        proof {
            use_type_invariant(self);
        }
        self.h
    }

    /// Writes `value` at `(x, y)`, or reports that the position lies outside the grid.
    pub fn set(&mut self, x: usize, y: usize, value: Option<T>) -> (r: Result<(), &'static str>)
        ensures
            old(self)@.contains(x as int, y as int) ==> r == Ok::<(), &'static str>(()) && final(self)@
                == old(self)@.put(x as int, y as int, value),
            !old(self)@.contains(x as int, y as int) ==> r == Err::<(), &'static str>("Out of space")
                && final(self)@ == old(self)@,
    {
        if x >= self.w || y >= self.h {
            Err("Out of space")
        } else {
            self.set_no_err(x, y, value);
            Ok(())
        }
    }

    /// Writes `value` at a position that the caller knows to lie inside the grid.
    pub fn set_no_err(&mut self, x: usize, y: usize, value: Option<T>)
        requires
            old(self)@.contains(x as int, y as int),
        ensures
            final(self)@ == old(self)@.put(x as int, y as int, value),
    {
        proof {
            use_type_invariant(&*self);
        }
        put_cell(&mut self.space, x, y, value);
        assert(self@.rows =~~= old(self)@.put(x as int, y as int, value).rows);
    }

    /// Writes every cell of `other` over the cells at offset `(x, y)`.
    fn stamp(&mut self, x: usize, y: usize, other: Space<T>)
        requires
            old(self)@.fits(x as int, y as int, other@),
        ensures
            final(self)@ == old(self)@.overlay(x as int, y as int, other@),
    {
        proof {
            use_type_invariant(&*self);
            use_type_invariant(&other);
        }
        let ghost g = self@;
        let ghost o = other@;
        let Space { space: mut src, w: ow, h: oh } = other;
        let mut yc: usize = 0;
        while yc < oh
            invariant
                yc <= oh,
                g.wf(),
                o.wf(),
                o.width == ow,
                o.height == oh,
                g.width == self.w,
                g.height == self.h,
                g.fits(x as int, y as int, o),
                rows_shaped(self.space, self.w as nat, self.h as nat),
                rows_shaped(src, ow as nat, oh as nat),
                forall|j: int, i: int|
                    0 <= j < oh && 0 <= i < ow ==> (#[trigger] src@[j]@[i]) == if j < yc {
                        None
                    } else {
                        o.at(i, j)
                    },
                forall|j: int, i: int|
                    0 <= j < self.h && 0 <= i < self.w ==> (#[trigger] self.space@[j]@[i]) == if o.contains(
                        i - x,
                        j - y,
                    ) && j - y < yc {
                        o.at(i - x, j - y)
                    } else {
                        g.at(i, j)
                    },
            decreases oh - yc,
        {
            let mut xc: usize = 0;
            while xc < ow
                invariant
                    xc <= ow,
                    yc < oh,
                    g.wf(),
                    o.wf(),
                    o.width == ow,
                    o.height == oh,
                    g.width == self.w,
                    g.height == self.h,
                    g.fits(x as int, y as int, o),
                    rows_shaped(self.space, self.w as nat, self.h as nat),
                    rows_shaped(src, ow as nat, oh as nat),
                    forall|j: int, i: int|
                        0 <= j < oh && 0 <= i < ow ==> (#[trigger] src@[j]@[i]) == if j < yc || (j == yc
                            && i < xc) {
                            None
                        } else {
                            o.at(i, j)
                        },
                    forall|j: int, i: int|
                        0 <= j < self.h && 0 <= i < self.w ==> (#[trigger] self.space@[j]@[i])
                            == if o.contains(i - x, j - y) && (j - y < yc || (j - y == yc && i - x < xc)) {
                            o.at(i - x, j - y)
                        } else {
                            g.at(i, j)
                        },
                decreases ow - xc,
            {
                let v = take_cell(&mut src, xc, yc);
                put_cell(&mut self.space, xc + x, yc + y, v);
                xc += 1;
            }
            yc += 1;
        }
        assert(self@.rows =~~= g.overlay(x as int, y as int, o).rows);
    }

    /// Writes every cell of `other`, empty ones included, over the cells at
    /// offset `(x, y)`. Fails, leaving the grid as it was, if `other` would
    /// reach past the right or the bottom edge.
    pub fn copy_in(&mut self, x: usize, y: usize, other: Space<T>) -> (r: Result<(), &'static str>)
        ensures
            old(self)@.fits(x as int, y as int, other@) ==> r == Ok::<(), &'static str>(())
                && final(self)@ == old(self)@.overlay(x as int, y as int, other@),
            !old(self)@.fits(x as int, y as int, other@) ==> r == Err::<(), &'static str>(
                "Out of space",
            ) && final(self)@ == old(self)@,
    {
        if other.w > self.w || x > self.w - other.w || other.h > self.h || y > self.h - other.h {
            return Err("Out of space");
        }
        self.stamp(x, y, other);
        Ok(())
    }

    /// Like `copy_in`, after moving the offset left and up by the least
    /// amount that makes `other` fit. Returns the offset that was used.
    pub fn copy_in_with_bounds(&mut self, x: usize, y: usize, other: Space<T>) -> (r: (usize, usize))
        requires
            other@.width <= old(self)@.width,
            other@.height <= old(self)@.height,
        ensures
            r.0 == if x + other@.width > old(self)@.width {
                old(self)@.width - other@.width
            } else {
                x as int
            },
            r.1 == if y + other@.height > old(self)@.height {
                old(self)@.height - other@.height
            } else {
                y as int
            },
            final(self)@ == old(self)@.overlay(r.0 as int, r.1 as int, other@),
    {
        let mut x = x;
        let mut y = y;
        if x > self.w - other.w {
            x = self.w - other.w;
        }
        if y > self.h - other.h {
            y = self.h - other.h;
        }
        self.stamp(x, y, other);
        (x, y)
    }

    /// Like `copy_in`, but writes only the cells whose position is present in
    /// `mask`. Fails, leaving the grid as it was, if `mask` has not the
    /// dimensions of `other` or if `other` would reach past an edge.
    pub fn copy_in_with_mask(&mut self, x: usize, y: usize, other: Space<T>, mask: Space<()>) -> (r:
        Result<(), &'static str>)
        ensures
            other@.width != mask@.width ==> r == Err::<(), &'static str>("Mask width incorrect"),
            other@.width == mask@.width && other@.height != mask@.height ==> r == Err::<
                (),
                &'static str,
            >("Mask height incorrect"),
            other@.width == mask@.width && other@.height == mask@.height && !old(self)@.fits(
                x as int,
                y as int,
                other@,
            ) ==> r == Err::<(), &'static str>("Out of space"),
            r is Err ==> final(self)@ == old(self)@,
            other@.width == mask@.width && other@.height == mask@.height && old(self)@.fits(
                x as int,
                y as int,
                other@,
            ) ==> r == Ok::<(), &'static str>(()) && final(self)@ == old(self)@.overlay_masked(
                x as int,
                y as int,
                other@,
                mask@,
            ),
    {
        if other.w != mask.w {
            return Err("Mask width incorrect");
        }
        if other.h != mask.h {
            return Err("Mask height incorrect");
        }
        if other.w > self.w || x > self.w - other.w || other.h > self.h || y > self.h - other.h {
            return Err("Out of space");
        }
        proof {
            use_type_invariant(&*self);
            use_type_invariant(&other);
            use_type_invariant(&mask);
        }
        let ghost g = self@;
        let ghost o = other@;
        let ghost m = mask@;
        let Space { space: mut src, w: ow, h: oh } = other;
        let mut yc: usize = 0;
        while yc < oh
            invariant
                yc <= oh,
                g.wf(),
                o.wf(),
                m == mask@,
                o.width == ow,
                o.height == oh,
                mask.w == ow,
                mask.h == oh,
                g.width == self.w,
                g.height == self.h,
                g.fits(x as int, y as int, o),
                rows_shaped(self.space, self.w as nat, self.h as nat),
                rows_shaped(mask.space, ow as nat, oh as nat),
                rows_shaped(src, ow as nat, oh as nat),
                forall|j: int, i: int|
                    0 <= j < oh && 0 <= i < ow && j >= yc ==> (#[trigger] src@[j]@[i]) == o.at(i, j),
                forall|j: int, i: int|
                    0 <= j < self.h && 0 <= i < self.w ==> (#[trigger] self.space@[j]@[i]) == if o.contains(
                        i - x,
                        j - y,
                    ) && m.at(i - x, j - y) is Some && j - y < yc {
                        o.at(i - x, j - y)
                    } else {
                        g.at(i, j)
                    },
            decreases oh - yc,
        {
            let mut xc: usize = 0;
            while xc < ow
                invariant
                    xc <= ow,
                    yc < oh,
                    g.wf(),
                    o.wf(),
                    m == mask@,
                    o.width == ow,
                    o.height == oh,
                    mask.w == ow,
                    mask.h == oh,
                    g.width == self.w,
                    g.height == self.h,
                    g.fits(x as int, y as int, o),
                    rows_shaped(self.space, self.w as nat, self.h as nat),
                    rows_shaped(mask.space, ow as nat, oh as nat),
                    rows_shaped(src, ow as nat, oh as nat),
                    forall|j: int, i: int|
                        0 <= j < oh && 0 <= i < ow && (j > yc || (j == yc && i >= xc)) ==> (
                        #[trigger] src@[j]@[i]) == o.at(i, j),
                    forall|j: int, i: int|
                        0 <= j < self.h && 0 <= i < self.w ==> (#[trigger] self.space@[j]@[i])
                            == if o.contains(i - x, j - y) && m.at(i - x, j - y) is Some && (j - y < yc
                            || (j - y == yc && i - x < xc)) {
                            o.at(i - x, j - y)
                        } else {
                            g.at(i, j)
                        },
                decreases ow - xc,
            {
                if let Some(_) = mask.space[yc][xc] {
                    assert(m.at(xc as int, yc as int) == mask.space@[yc as int]@[xc as int]);
                    let v = take_cell(&mut src, xc, yc);
                    put_cell(&mut self.space, xc + x, yc + y, v);
                } else {
                    assert(m.at(xc as int, yc as int) == mask.space@[yc as int]@[xc as int]);
                }
                xc += 1;
            }
            yc += 1;
        }
        assert(self@.rows =~~= g.overlay_masked(x as int, y as int, o, m).rows);
        Ok(())
    }
}

impl<T: Copy> Space<T> {
    /// The cell at `(x, y)`, or the message that the position lies outside the grid.
    pub fn get(&self, x: usize, y: usize) -> (r: Result<Option<T>, &'static str>)
        ensures
            self@.contains(x as int, y as int) ==> r == Ok::<Option<T>, &'static str>(
                self@.at(x as int, y as int),
            ),
            !self@.contains(x as int, y as int) ==> r == Err::<Option<T>, &'static str>(
                "Out of space",
            ),
    {
        if x >= self.w || y >= self.h {
            Err("Out of space")
        } else {
            Ok(self.get_no_err(x, y))
        }
    }

    /// The cell at a position that the caller knows to lie inside the grid.
    pub fn get_no_err(&self, x: usize, y: usize) -> (r: Option<T>)
        requires
            self@.contains(x as int, y as int),
        ensures
            r == self@.at(x as int, y as int),
    {
        proof {
            use_type_invariant(self);
        }
        self.space[y][x]
    }

    /// A grid of the given dimensions with every cell set to `d`.
    pub fn new_default(w: usize, h: usize, d: Option<T>) -> (r: Self)
        ensures
            r@ == Grid::filled(w as nat, h as nat, d),
    {
        let mut space: Vec<Vec<Option<T>>> = Vec::new();
        let mut y: usize = 0;
        while y < h
            invariant
                y <= h,
                space@.len() == y,
                forall|j: int| 0 <= j < y ==> (#[trigger] space@[j])@ == Seq::new(w as nat, |x: int| d),
            decreases h - y,
        {
            let mut row: Vec<Option<T>> = Vec::new();
            let mut x: usize = 0;
            while x < w
                invariant
                    x <= w,
                    row@ == Seq::new(x as nat, |i: int| d),
                decreases w - x,
            {
                row.push(d);
                x += 1;
            }
            space.push(row);
            y += 1;
        }
        let r = Space { space, w, h };
        assert(r@.rows =~~= Grid::filled(w as nat, h as nat, d).rows);
        r
    }

    /// A copy of the cell at `(x, y)`, or the message that the position lies
    /// outside the grid.
    pub fn get_clone(&self, x: usize, y: usize) -> (r: Result<Option<T>, &'static str>)
        ensures
            self@.contains(x as int, y as int) ==> r == Ok::<Option<T>, &'static str>(
                self@.at(x as int, y as int),
            ),
            !self@.contains(x as int, y as int) ==> r == Err::<Option<T>, &'static str>(
                "Out of space",
            ),
    {
        self.get(x, y)
    }

    /// A copy of the cell at a position that the caller knows to lie inside
    /// the grid.
    pub fn get_clone_no_err(&self, x: usize, y: usize) -> (r: Option<T>)
        requires
            self@.contains(x as int, y as int),
        ensures
            r == self@.at(x as int, y as int),
    {
        self.get_no_err(x, y)
    }

    /// The grid after one quarter turn.
    fn turn(&self, rotation: Rotation) -> (r: Self)
        ensures
            r@ == self@.turned(rotation),
    {
        proof {
            use_type_invariant(self);
        }
        let ghost g = self@;
        let mut space: Vec<Vec<Option<T>>> = Vec::new();
        let mut j: usize = 0;
        while j < self.w
            invariant
                j <= self.w,
                g == self@,
                rows_shaped(self.space, self.w as nat, self.h as nat),
                space@.len() == j,
                forall|k: int|
                    0 <= k < j ==> (#[trigger] space@[k])@ == Seq::new(
                        self.h as nat,
                        |i: int| g.turned_cell(rotation, i, k),
                    ),
            decreases self.w - j,
        {
            let mut row: Vec<Option<T>> = Vec::new();
            let mut i: usize = 0;
            while i < self.h
                invariant
                    i <= self.h,
                    j < self.w,
                    g == self@,
                    rows_shaped(self.space, self.w as nat, self.h as nat),
                    row@ == Seq::new(i as nat, |k: int| g.turned_cell(rotation, k, j as int)),
                decreases self.h - i,
            {
                let v = match rotation {
                    Rotation::Clockwise => self.space[self.h - 1 - i][j],
                    Rotation::Counterclockwise => self.space[i][self.w - 1 - j],
                };
                row.push(v);
                assert(row@ =~= Seq::new((i + 1) as nat, |k: int| g.turned_cell(rotation, k, j as int)));
                i += 1;
            }
            space.push(row);
            j += 1;
        }
        let r = Space { space, w: self.h, h: self.w };
        assert(r@.rows =~~= g.turned(rotation).rows);
        r
    }

    /// The grid after `count` quarter turns in the given direction. The
    /// result is a new grid; after an odd number of turns its width and
    /// height have changed places.
    pub fn get_rotated(&self, rotation: Rotation, count: usize) -> (r: Self)
        ensures
            r@ == self@.rotated(rotation, count as nat),
    {
        proof {
            use_type_invariant(self);
        }
        if count % 4 == 0 {
            proof {
                self@.lemma_rotated_full_turns(rotation, count as nat);
            }
            return self.clone();
        }
        let mut result = self.clone();
        let mut n: usize = 0;
        while n < count
            invariant
                n <= count,
                result@ == self@.rotated(rotation, n as nat),
            decreases count - n,
        {
            result = result.turn(rotation);
            n += 1;
        }
        result
    }
}

impl<T: Copy> Clone for Space<T> {
    /// An independent copy with the same dimensions and cells.
    fn clone(&self) -> (r: Self)
        ensures
            r@ == self@,
    {
        proof {
            use_type_invariant(self);
        }
        let mut space: Vec<Vec<Option<T>>> = Vec::new();
        let mut y: usize = 0;
        while y < self.h
            invariant
                y <= self.h,
                rows_shaped(self.space, self.w as nat, self.h as nat),
                space@.len() == y,
                forall|j: int| 0 <= j < y ==> (#[trigger] space@[j])@ == self.space@[j]@,
            decreases self.h - y,
        {
            let mut row: Vec<Option<T>> = Vec::new();
            let mut x: usize = 0;
            while x < self.w
                invariant
                    x <= self.w,
                    y < self.h,
                    rows_shaped(self.space, self.w as nat, self.h as nat),
                    row@ == self.space@[y as int]@.subrange(0, x as int),
                decreases self.w - x,
            {
                row.push(self.space[y][x]);
                assert(row@ =~= self.space@[y as int]@.subrange(0, x + 1));
                x += 1;
            }
            assert(row@ =~= self.space@[y as int]@);
            space.push(row);
            y += 1;
        }
        let r = Space { space, w: self.w, h: self.h };
        assert(r@.rows =~~= self@.rows);
        r
    }
}

} // verus!
