//! The playing field: a grid of colored cells that are either falling or
//! locked, and the automaton that lets them fall, lock and clear.

use crate::colors::Colors;
use crate::grid::{rows_shaped, Grid, Space};
use vstd::prelude::*;

verus! {

/// A cell of the playing field: empty, or a color with the flag that tells a
/// falling cell (`true`) from a locked one (`false`).
pub type Block = Option<(Colors, bool)>;

/// A playing field.
pub type Desk = Space<(Colors, bool)>;

/// The cell belongs to the falling piece.
pub open spec fn is_active(c: Block) -> bool {
    c matches Some(p) && p.1
}

/// The cell is occupied and settled.
pub open spec fn is_locked(c: Block) -> bool {
    c matches Some(p) && !p.1
}

/// The cell with its falling flag cleared; an empty cell stays empty.
pub open spec fn locked(c: Block) -> Block {
    match c {
        Some(p) => Some((p.0, false)),
        None => None,
    }
}

impl Grid<(Colors, bool)> {
    /// Some cell of row `y` is falling.
    pub open spec fn row_has_active(self, y: int) -> bool {
        exists|x: int| 0 <= x < self.width && is_active(#[trigger] self.at(x, y))
    }

    /// The falling cell at `(x, y)` rests on a cell that does not give way:
    /// a locked one, or any occupied one where the row below is held in place
    /// (`line` is the topmost held row below `y`).
    pub open spec fn rests(self, x: int, y: int, line: int) -> bool {
        is_active(self.at(x, y)) && (is_locked(self.at(x, y + 1)) || (line == y + 1 && self.at(
            x,
            y + 1,
        ) is Some))
    }

    /// Some falling cell of row `y` rests on a cell that does not give way.
    pub open spec fn row_blocked(self, y: int, line: int) -> bool {
        exists|x: int| 0 <= x < self.width && #[trigger] self.rests(x, y, line)
    }

    /// The topmost row at or below `y` that is held in place: the bottom row,
    /// or a row with a falling cell that rests on a locked cell or on a held
    /// row. Everything from that row down to the floor locks.
    pub open spec fn lock_line(self, y: int) -> int
        decreases self.height - y,
    {
        if y >= self.height - 1 {
            self.height - 1
        } else if self.row_blocked(y, self.lock_line(y + 1)) {
            y
        } else {
            self.lock_line(y + 1)
        }
    }

    /// The cell at `(x, j)` once the rows below `y` have had their turn,
    /// where `line` is the topmost held row among them: above `y` nothing has
    /// changed yet; from `line` down every cell is locked where it was; in
    /// between, locked cells stay and falling cells have moved down one row.
    pub open spec fn sunk_cell(self, x: int, j: int, y: int, line: int) -> Block {
        if j <= y {
            self.at(x, j)
        } else if j >= line && self.at(x, j) is Some {
            locked(self.at(x, j))
        } else if j < line && is_locked(self.at(x, j)) {
            self.at(x, j)
        } else if j <= line && j - 1 > y && is_active(self.at(x, j - 1)) {
            self.at(x, j - 1)
        } else {
            None
        }
    }

    /// The field once the rows below `y` have had their turn.
    pub open spec fn sunk_below(self, y: int) -> Grid<(Colors, bool)> {
        Grid::build(
            self.width,
            self.height,
            |x: int, j: int| self.sunk_cell(x, j, y, self.lock_line(y + 1)),
        )
    }

    /// Some row strictly between `y` and the bottom row holds falling cells
    /// and is not held in place: its falling cells move down. The move counts
    /// even where a row further up is held and the cells are put back as they
    /// lock.
    pub open spec fn sinks_below(self, y: int) -> bool {
        exists|j: int|
            y < j < self.height - 1 && self.lock_line(j) != j && #[trigger] self.row_has_active(j)
    }

    /// The field after the descent, when every row has had its turn: from
    /// the topmost held row down every cell is locked where it was; above it,
    /// locked cells stay and falling cells have moved down one row.
    pub open spec fn sunk(self) -> Grid<(Colors, bool)> {
        self.sunk_below(-1)
    }

    /// Some falling cell moves during the descent.
    pub open spec fn sinks(self) -> bool {
        self.sinks_below(-1)
    }

    /// Every cell of row `y` is empty.
    pub open spec fn row_void(self, y: int) -> bool {
        forall|x: int| 0 <= x < self.width ==> (#[trigger] self.at(x, y)) is None
    }

    /// The lowest entirely empty row among rows `0..=y`, or `-1` if there is none.
    pub open spec fn gap_upto(self, y: int) -> int
        decreases y + 1,
    {
        if y < 0 {
            -1
        } else if self.row_void(y) {
            y
        } else {
            self.gap_upto(y - 1)
        }
    }

    /// The lowest entirely empty row, or `-1` if there is none.
    pub open spec fn gap(self) -> int {
        self.gap_upto(self.height - 1)
    }

    /// The field with its lowest empty row closed: every row above it moves
    /// down by one and the top row becomes empty.
    pub open spec fn compacted(self) -> Grid<(Colors, bool)> {
        Grid::build(
            self.width,
            self.height,
            |x: int, j: int|
                if j > self.gap() {
                    self.at(x, j)
                } else if j >= 1 {
                    self.at(x, j - 1)
                } else {
                    None
                },
        )
    }

    /// Closing the lowest empty row moves at least one occupied cell.
    pub open spec fn compacts(self) -> bool {
        exists|x: int, j: int|
            0 <= x < self.width && 0 <= j < self.gap() && (#[trigger] self.at(x, j)) is Some
    }

    /// The field after one fall step: falling cells descend by one row or
    /// lock; if none descends, the lowest empty row is closed.
    pub open spec fn after_fall(self) -> Grid<(Colors, bool)> {
        if self.height == 0 {
            self
        } else if self.sinks() {
            self.sunk()
        } else {
            self.sunk().compacted()
        }
    }

    /// The fall step moves a cell.
    pub open spec fn fall_moves(self) -> bool {
        self.height > 0 && (self.sinks() || self.sunk().compacts())
    }

    /// Every cell of row `y` is occupied.
    pub open spec fn row_full(self, y: int) -> bool {
        forall|x: int| 0 <= x < self.width ==> (#[trigger] self.at(x, y)) is Some
    }

    /// Some row is fully occupied.
    pub open spec fn has_full_row(self) -> bool {
        exists|y: int| 0 <= y < self.height && #[trigger] self.row_full(y)
    }

    /// The field with every fully occupied row emptied.
    pub open spec fn cleared(self) -> Grid<(Colors, bool)> {
        Grid::build(
            self.width,
            self.height,
            |x: int, j: int|
                if self.row_full(j) {
                    None
                } else {
                    self.at(x, j)
                },
        )
    }

    /// The field after one tick: the fall step, and where that moves
    /// nothing, the clearing of full rows.
    pub open spec fn after_step(self) -> Grid<(Colors, bool)> {
        if self.fall_moves() {
            self.after_fall()
        } else {
            self.after_fall().cleared()
        }
    }

    /// The tick changes something.
    pub open spec fn step_moves(self) -> bool {
        self.fall_moves() || self.after_fall().has_full_row()
    }

    /// Some cell of row `y` is occupied.
    pub open spec fn row_occupied(self, y: int) -> bool {
        exists|x: int| 0 <= x < self.width && (#[trigger] self.at(x, y)) is Some
    }

    /// The topmost occupied row at or below `y`, or `height` if there is none.
    pub open spec fn top_from(self, y: int) -> int
        decreases self.height - y,
    {
        if y >= self.height {
            self.height as int
        } else if self.row_occupied(y) {
            y
        } else {
            self.top_from(y + 1)
        }
    }

    /// The distance from the topmost occupied row down to the bottom edge,
    /// `0` for an empty field.
    pub open spec fn content_height(self) -> int {
        self.height - self.top_from(0)
    }
}

/// The cell at `(x, j)` after its own turn in the locking of the rows from
/// `y` down: a falling cell below row `y` leaves, any other cell is locked.
spec fn vacated(rows: Vec<Vec<Block>>, x: int, j: int, y: int) -> Block {
    if is_active(rows@[j]@[x]) && j > y {
        None
    } else {
        locked(rows@[j]@[x])
    }
}

/// The cell at `(x, j)` after the rows from `y` down have been locked: every
/// falling cell below row `y` has moved up one row, and every cell is locked.
spec fn settled(rows: Vec<Vec<Block>>, x: int, j: int, y: int) -> Block {
    if j < y {
        rows@[j]@[x]
    } else if j + 1 < rows@.len() && is_active(rows@[j + 1]@[x]) {
        locked(rows@[j + 1]@[x])
    } else {
        vacated(rows, x, j, y)
    }
}

/// The cell at `(x, j)` while the rows from `y` down are being locked, when
/// the rows above `yy` and the first `xx` cells of row `yy` have had their turn.
spec fn settling(rows: Vec<Vec<Block>>, x: int, j: int, y: int, yy: int, xx: int) -> Block {
    if j < y {
        rows@[j]@[x]
    } else if j + 1 < yy {
        settled(rows, x, j, y)
    } else if j + 1 == yy {
        if x < xx && is_active(rows@[yy]@[x]) {
            locked(rows@[yy]@[x])
        } else {
            vacated(rows, x, j, y)
        }
    } else if j == yy && x < xx {
        vacated(rows, x, j, y)
    } else {
        rows@[j]@[x]
    }
}

/// The falling cell at `(x, y)` has an empty cell below it.
spec fn drops(rows: Vec<Vec<Block>>, x: int, y: int) -> bool {
    is_active(rows@[y]@[x]) && rows@[y + 1]@[x] is None
}

/// The falling cell at `(x, y)` has a locked cell below it.
spec fn stuck(rows: Vec<Vec<Block>>, x: int, y: int) -> bool {
    is_active(rows@[y]@[x]) && is_locked(rows@[y + 1]@[x])
}

/// The cell at `(x, y)` is occupied.
spec fn occupied(rows: Vec<Vec<Block>>, x: int, y: int) -> bool {
    rows@[y]@[x] is Some
}

/// Clears the falling flag of every cell of row `y`.
fn lock_row(rows: &mut Vec<Vec<Block>>, y: usize, w: usize)
    requires
        y < old(rows)@.len(),
        rows_shaped(*old(rows), w as nat, old(rows)@.len()),
    ensures
        rows_shaped(*final(rows), w as nat, old(rows)@.len()),
        forall|j: int, x: int|
            0 <= j < old(rows)@.len() && 0 <= x < w ==> (#[trigger] final(rows)@[j]@[x]) == if j == y {
                locked(old(rows)@[j]@[x])
            } else {
                old(rows)@[j]@[x]
            },
    no_unwind
{
    let mut x: usize = 0;
    while x < w
        invariant
            x <= w,
            y < rows@.len(),
            rows@.len() == old(rows)@.len(),
            rows_shaped(*rows, w as nat, old(rows)@.len()),
            forall|j: int, i: int|
                0 <= j < rows@.len() && 0 <= i < w ==> (#[trigger] rows@[j]@[i]) == if j == y && i < x {
                    locked(old(rows)@[j]@[i])
                } else {
                    old(rows)@[j]@[i]
                },
        decreases w - x,
    {
        if let Some((c, _)) = rows[y][x] {
            rows[y][x] = Some((c, false));
        }
        x += 1;
    }
}

/// Whether no falling cell of row `y` has a locked cell directly below it.
fn row_can_fall(rows: &Vec<Vec<Block>>, y: usize, w: usize) -> (r: bool)
    requires
        y + 1 < rows.len(),
        rows_shaped(*rows, w as nat, rows@.len()),
    ensures
        r == forall|x: int| 0 <= x < w ==> !#[trigger] stuck(*rows, x, y as int),
    no_unwind
{
    let mut can_fall = true;
    let mut x: usize = 0;
    while x < w
        invariant
            x <= w,
            y + 1 < rows.len(),
            rows_shaped(*rows, w as nat, rows@.len()),
            can_fall == forall|i: int| 0 <= i < x ==> !#[trigger] stuck(*rows, i, y as int),
        decreases w - x,
    {
        if let Some((_, s)) = rows[y][x] {
            if s {
                if let Some((_, s2)) = rows[y + 1][x] {
                    if !s2 {
                        assert(stuck(*rows, x as int, y as int));
                        can_fall = false;
                    }
                }
            }
        }
        x += 1;
    }
    can_fall
}

/// Moves every falling cell of row `y` that has an empty cell below it down
/// by one row, and tells whether any cell moved.
fn sink_row(rows: &mut Vec<Vec<Block>>, y: usize, w: usize) -> (moved: bool)
    requires
        y + 1 < old(rows).len(),
        rows_shaped(*old(rows), w as nat, old(rows)@.len()),
    ensures
        rows_shaped(*final(rows), w as nat, old(rows)@.len()),
        forall|j: int, x: int|
            0 <= j < old(rows)@.len() && 0 <= x < w ==> (#[trigger] final(rows)@[j]@[x]) == if j == y
                && drops(*old(rows), x, y as int) {
                None
            } else if j == y + 1 && drops(*old(rows), x, y as int) {
                old(rows)@[y as int]@[x]
            } else {
                old(rows)@[j]@[x]
            },
        moved == exists|x: int| 0 <= x < w && #[trigger] drops(*old(rows), x, y as int),
    no_unwind
{
    let mut moved = false;
    let mut x: usize = 0;
    while x < w
        invariant
            x <= w,
            y + 1 < rows.len(),
            rows@.len() == old(rows)@.len(),
            rows_shaped(*rows, w as nat, old(rows)@.len()),
            forall|j: int, i: int|
                0 <= j < rows@.len() && 0 <= i < w ==> (#[trigger] rows@[j]@[i]) == if i < x && j == y
                    && drops(*old(rows), i, y as int) {
                    None
                } else if i < x && j == y + 1 && drops(*old(rows), i, y as int) {
                    old(rows)@[y as int]@[i]
                } else {
                    old(rows)@[j]@[i]
                },
            moved == exists|i: int| 0 <= i < x && #[trigger] drops(*old(rows), i, y as int),
        decreases w - x,
    {
        if let Some((_, s)) = rows[y][x] {
            if s {
                if let None = rows[y + 1][x] {
                    assert(drops(*old(rows), x as int, y as int));
                    let v = rows[y][x];
                    rows[y + 1][x] = v;
                    rows[y][x] = None;
                    moved = true;
                }
            }
        }
        x += 1;
    }
    moved
}

/// Locks every cell from row `y` down to the floor, and moves each falling
/// cell below row `y` up by one row as it is locked.
fn settle_rows(rows: &mut Vec<Vec<Block>>, y: usize, w: usize)
    requires
        y < old(rows).len(),
        rows_shaped(*old(rows), w as nat, old(rows)@.len()),
    ensures
        rows_shaped(*final(rows), w as nat, old(rows)@.len()),
        forall|j: int, x: int|
            0 <= j < old(rows)@.len() && 0 <= x < w ==> (#[trigger] final(rows)@[j]@[x]) == settled(
                *old(rows),
                x,
                j,
                y as int,
            ),
    no_unwind
{
    let h = rows.len();
    let mut yy: usize = y;
    while yy < h
        invariant
            y <= yy <= h,
            h == rows.len(),
            h == old(rows).len(),
            rows_shaped(*rows, w as nat, old(rows)@.len()),
            forall|j: int, i: int|
                0 <= j < h && 0 <= i < w ==> (#[trigger] rows@[j]@[i]) == settling(
                    *old(rows),
                    i,
                    j,
                    y as int,
                    yy as int,
                    0,
                ),
        decreases h - yy,
    {
        let mut x: usize = 0;
        while x < w
            invariant
                x <= w,
                y <= yy < h,
                h == rows.len(),
                h == old(rows).len(),
                rows_shaped(*rows, w as nat, old(rows)@.len()),
                forall|j: int, i: int|
                    0 <= j < h && 0 <= i < w ==> (#[trigger] rows@[j]@[i]) == settling(
                        *old(rows),
                        i,
                        j,
                        y as int,
                        yy as int,
                        x as int,
                    ),
            decreases w - x,
        {
            if let Some((c, s)) = rows[yy][x] {
                rows[yy][x] = Some((c, false));
                if s && yy > y {
                    let v = rows[yy][x];
                    rows[yy - 1][x] = v;
                    rows[yy][x] = None;
                }
            }
            x += 1;
        }
        yy += 1;
    }
}

/// Whether every cell of row `y` is empty.
fn row_is_void(rows: &Vec<Vec<Block>>, y: usize, w: usize) -> (r: bool)
    requires
        y < rows.len(),
        rows_shaped(*rows, w as nat, rows@.len()),
    ensures
        r == forall|x: int| 0 <= x < w ==> !#[trigger] occupied(*rows, x, y as int),
    no_unwind
{
    let mut x: usize = 0;
    while x < w
        invariant
            x <= w,
            y < rows.len(),
            rows_shaped(*rows, w as nat, rows@.len()),
            forall|i: int| 0 <= i < x ==> !#[trigger] occupied(*rows, i, y as int),
        decreases w - x,
    {
        if let Some(_) = rows[y][x] {
            assert(occupied(*rows, x as int, y as int));
            return false;
        }
        x += 1;
    }
    true
}

/// Moves every occupied cell of row `y - 1` down into row `y`, and tells
/// whether any cell moved.
fn pull_row(rows: &mut Vec<Vec<Block>>, y: usize, w: usize) -> (moved: bool)
    requires
        1 <= y < old(rows).len(),
        rows_shaped(*old(rows), w as nat, old(rows)@.len()),
    ensures
        rows_shaped(*final(rows), w as nat, old(rows)@.len()),
        forall|j: int, x: int|
            0 <= j < old(rows)@.len() && 0 <= x < w ==> (#[trigger] final(rows)@[j]@[x]) == if j == y
                && occupied(*old(rows), x, y - 1) {
                old(rows)@[y - 1]@[x]
            } else if j == y - 1 {
                None
            } else {
                old(rows)@[j]@[x]
            },
        moved == exists|x: int| 0 <= x < w && #[trigger] occupied(*old(rows), x, y - 1),
    no_unwind
{
    let mut moved = false;
    let mut x: usize = 0;
    while x < w
        invariant
            x <= w,
            1 <= y < rows.len(),
            rows@.len() == old(rows)@.len(),
            rows_shaped(*rows, w as nat, old(rows)@.len()),
            forall|j: int, i: int|
                0 <= j < rows@.len() && 0 <= i < w ==> (#[trigger] rows@[j]@[i]) == if i < x && j == y
                    && occupied(*old(rows), i, y - 1) {
                    old(rows)@[y - 1]@[i]
                } else if i < x && j == y - 1 {
                    None
                } else {
                    old(rows)@[j]@[i]
                },
            moved == exists|i: int| 0 <= i < x && #[trigger] occupied(*old(rows), i, y - 1),
        decreases w - x,
    {
        if let Some(_) = rows[y - 1][x] {
            assert(occupied(*old(rows), x as int, y - 1));
            let v = rows[y - 1][x];
            rows[y][x] = v;
            rows[y - 1][x] = None;
            moved = true;
        }
        x += 1;
    }
    moved
}

/// Whether every cell of row `y` is occupied.
fn row_is_full(rows: &Vec<Vec<Block>>, y: usize, w: usize) -> (r: bool)
    requires
        y < rows.len(),
        rows_shaped(*rows, w as nat, rows@.len()),
    ensures
        r == forall|x: int| 0 <= x < w ==> #[trigger] occupied(*rows, x, y as int),
    no_unwind
{
    let mut x: usize = 0;
    while x < w
        invariant
            x <= w,
            y < rows.len(),
            rows_shaped(*rows, w as nat, rows@.len()),
            forall|i: int| 0 <= i < x ==> #[trigger] occupied(*rows, i, y as int),
        decreases w - x,
    {
        if let None = rows[y][x] {
            assert(!occupied(*rows, x as int, y as int));
            return false;
        }
        x += 1;
    }
    true
}

/// Empties every cell of row `y`.
fn clear_row(rows: &mut Vec<Vec<Block>>, y: usize, w: usize)
    requires
        y < old(rows).len(),
        rows_shaped(*old(rows), w as nat, old(rows)@.len()),
    ensures
        rows_shaped(*final(rows), w as nat, old(rows)@.len()),
        forall|j: int, x: int|
            0 <= j < old(rows)@.len() && 0 <= x < w ==> (#[trigger] final(rows)@[j]@[x]) == if j == y {
                None
            } else {
                old(rows)@[j]@[x]
            },
    no_unwind
{
    let mut x: usize = 0;
    while x < w
        invariant
            x <= w,
            y < rows.len(),
            rows@.len() == old(rows)@.len(),
            rows_shaped(*rows, w as nat, old(rows)@.len()),
            forall|j: int, i: int|
                0 <= j < rows@.len() && 0 <= i < w ==> (#[trigger] rows@[j]@[i]) == if j == y && i < x {
                    None
                } else {
                    old(rows)@[j]@[i]
                },
        decreases w - x,
    {
        rows[y][x] = None;
        x += 1;
    }
}

impl Grid<(Colors, bool)> {
    /// The topmost held row at or below `y` lies between `y` and the bottom row.
    pub proof fn lemma_lock_line_bounds(self, y: int)
        requires
            0 <= y < self.height,
        ensures
            y <= self.lock_line(y) <= self.height - 1,
        decreases self.height - y,
    {
        if y < self.height - 1 {
            self.lemma_lock_line_bounds(y + 1);
        }
    }

    /// No row between `y` and the topmost held row at or below `y` is held,
    /// and all of them share that held row.
    pub proof fn lemma_lock_line_span(self, y: int, j: int)
        requires
            0 <= y <= j < self.lock_line(y),
            y < self.height,
        ensures
            self.lock_line(j) == self.lock_line(y),
            self.lock_line(j + 1) == self.lock_line(y),
            !self.row_blocked(j, self.lock_line(y)),
        decreases j - y,
    {
        self.lemma_lock_line_bounds(y);
        if y < j {
            self.lemma_lock_line_span(y + 1, j);
        }
    }

    /// Where no row from `y` down is occupied, there is no occupied row at
    /// or below `y`.
    pub proof fn lemma_top_from_unoccupied(self, y: int)
        requires
            0 <= y,
            forall|j: int| y <= j < self.height ==> !self.row_occupied(j),
        ensures
            self.top_from(y) == self.height,
        decreases self.height - y,
    {
        if y < self.height {
            self.lemma_top_from_unoccupied(y + 1);
        }
    }

    /// An entirely empty field has content height `0`.
    pub proof fn lemma_content_height_empty(self)
        requires
            forall|x: int, y: int| self.contains(x, y) ==> (#[trigger] self.at(x, y)) is None,
        ensures
            self.content_height() == 0,
    {
        self.lemma_top_from_unoccupied(0);
    }

    /// A field with an occupied cell in its top row has its full height as
    /// content height.
    pub proof fn lemma_content_height_top_row(self)
        requires
            self.height > 0,
            self.row_occupied(0),
        ensures
            self.content_height() == self.height,
    {
    }

    /// The lowest empty row among rows `0..=y` is at most `y`, and it is empty.
    pub proof fn lemma_gap_upto(self, y: int)
        ensures
            -1 <= self.gap_upto(y),
            y >= -1 ==> self.gap_upto(y) <= y,
            self.gap_upto(y) >= 0 ==> self.row_void(self.gap_upto(y)),
        decreases y + 1,
    {
        if y >= 0 && !self.row_void(y) {
            self.lemma_gap_upto(y - 1);
        }
    }
}

/// The cell at `(x, j)` while the lowest empty row of `g` is being closed
/// from the bottom up, when the rows below `y` have had their turn.
spec fn closing(g: Grid<(Colors, bool)>, x: int, j: int, y: int) -> Block {
    if j > y {
        g.compacted().at(x, j)
    } else if j == y && y < g.gap() {
        None
    } else {
        g.at(x, j)
    }
}

impl Space<(Colors, bool)> {
    /// One fall step. Falling cells in the bottom row lock. Then, row by row
    /// from the bottom up, the falling cells of a row move down by one if none
    /// of them rests on a locked cell; otherwise everything from that row down
    /// locks in place. If no cell descended, the lowest empty row is closed by
    /// moving the rows above it down by one. Returns whether a cell moved.
    pub fn fall(&mut self) -> (moved: bool)
        ensures
            final(self)@ == old(self)@.after_fall(),
            moved == old(self)@.fall_moves(),
    {
        proof {
            use_type_invariant(&*self);
        }
        let h = self.h;
        let w = self.w;
        if h == 0 {
            return false;
        }
        let ghost g = self@;
        let mut ret = false;
        lock_row(&mut self.space, h - 1, w);
        let mut y: usize = h - 1;
        while y > 0
            invariant
                y < h,
                h == self.h,
                w == self.w,
                g.width == w,
                g.height == h,
                g == old(self)@,
                g.wf(),
                rows_shaped(self.space, w as nat, h as nat),
                forall|j: int, x: int|
                    0 <= j < h && 0 <= x < w ==> (#[trigger] self.space@[j]@[x]) == g.sunk_cell(
                        x,
                        j,
                        y - 1,
                        g.lock_line(y as int),
                    ),
                ret == g.sinks_below(y - 1),
            decreases y,
        {
            y -= 1;
            let ghost line = g.lock_line(y + 1);
            let ghost before = self.space;
            proof {
                g.lemma_lock_line_bounds(y + 1);
                assert forall|x: int|
                    #![trigger stuck(before, x, y as int)]
                    #![trigger g.rests(x, y as int, line)]
                    0 <= x < w implies stuck(before, x, y as int) == g.rests(x, y as int, line) by {
                    assert(before@[y as int]@[x] == g.at(x, y as int));
                    assert(before@[y + 1]@[x] == g.sunk_cell(x, y + 1, y as int, line));
                }
            }
            let can_fall = row_can_fall(&self.space, y, w);
            assert(can_fall == !g.row_blocked(y as int, line));
            if can_fall {
                let m = sink_row(&mut self.space, y, w);
                if m {
                    ret = true;
                }
                proof {
                    assert(g.lock_line(y as int) == line);
                    assert forall|x: int|
                        #![trigger drops(before, x, y as int)]
                        #![trigger g.at(x, y as int)]
                        0 <= x < w implies drops(before, x, y as int) == is_active(
                        g.at(x, y as int),
                    ) by {
                        assert(before@[y as int]@[x] == g.at(x, y as int));
                        assert(before@[y + 1]@[x] == g.sunk_cell(x, y + 1, y as int, line));
                        assert(!g.rests(x, y as int, line));
                    }
                    assert(m == g.row_has_active(y as int));
                    assert forall|j: int, x: int| 0 <= j < h && 0 <= x < w implies (
                    #[trigger] self.space@[j]@[x]) == g.sunk_cell(x, j, y - 1, line) by {
                        assert(before@[j]@[x] == g.sunk_cell(x, j, y as int, line));
                        assert(before@[y as int]@[x] == g.at(x, y as int));
                        assert(before@[y + 1]@[x] == g.sunk_cell(x, y + 1, y as int, line));
                    }
                }
            } else {
                settle_rows(&mut self.space, y, w);
                proof {
                    assert(g.lock_line(y as int) == y);
                    assert forall|j: int, x: int| 0 <= j < h && 0 <= x < w implies (
                    #[trigger] self.space@[j]@[x]) == g.sunk_cell(x, j, y - 1, y as int) by {
                        assert(before@[j]@[x] == g.sunk_cell(x, j, y as int, line));
                        if j >= y {
                            if j + 1 < h {
                                assert(before@[j + 1]@[x] == g.sunk_cell(x, j + 1, y as int, line));
                            }
                            if y < j < line {
                                g.lemma_lock_line_span(y + 1, j);
                                assert(!g.rests(x, j, line));
                            }
                        }
                    }
                }
            }
        }
        if ret {
            assert(self@.rows =~~= g.sunk().rows);
            return true;
        }
        let ghost gs = self@;
        proof {
            assert(gs.rows =~~= g.sunk().rows);
            gs.lemma_gap_upto(h - 1);
        }
        let mut y: usize = h - 1;
        while y > 0
            invariant
                y < h,
                h == self.h,
                w == self.w,
                gs.width == w,
                gs.height == h,
                gs.wf(),
                rows_shaped(self.space, w as nat, h as nat),
                forall|j: int, x: int|
                    0 <= j < h && 0 <= x < w ==> (#[trigger] self.space@[j]@[x]) == closing(
                        gs,
                        x,
                        j,
                        y as int,
                    ),
                gs.gap() <= y ==> gs.gap() == gs.gap_upto(y as int),
                ret == exists|x: int, j: int|
                    0 <= x < w && y <= j < gs.gap() && (#[trigger] gs.at(x, j)) is Some,
            decreases y,
        {
            let ghost before = self.space;
            proof {
                gs.lemma_gap_upto(y as int);
                gs.lemma_gap_upto(y - 1);
                gs.lemma_gap_upto(h - 1);
                assert forall|x: int|
                    #![trigger occupied(before, x, y as int)]
                    #![trigger gs.at(x, y as int)]
                    0 <= x < w implies occupied(before, x, y as int) == (y >= gs.gap() && gs.at(
                    x,
                    y as int,
                ) is Some) by {
                    assert(before@[y as int]@[x] == closing(gs, x, y as int, y as int));
                }
                let up = y - 1;
                assert forall|x: int|
                    #![trigger occupied(before, x, up)]
                    #![trigger gs.at(x, up)]
                    0 <= x < w implies occupied(before, x, up) == (gs.at(x, up) is Some) by {
                    assert(before@[up]@[x] == closing(gs, x, up, y as int));
                }
            }
            let void = row_is_void(&self.space, y, w);
            assert(void == (y <= gs.gap()));
            if void {
                let m = pull_row(&mut self.space, y, w);
                if m {
                    ret = true;
                }
            }
            proof {
                assert forall|j: int, x: int| 0 <= j < h && 0 <= x < w implies (
                #[trigger] self.space@[j]@[x]) == closing(gs, x, j, y - 1) by {
                    assert(before@[j]@[x] == closing(gs, x, j, y as int));
                    assert(before@[y as int]@[x] == closing(gs, x, y as int, y as int));
                    assert(before@[y - 1]@[x] == closing(gs, x, y - 1, y as int));
                }
            }
            y -= 1;
        }
        proof {
            gs.lemma_gap_upto(0);
            assert(self@.rows =~~= gs.compacted().rows);
        }
        ret
    }

    /// One clear step: every fully occupied row is emptied. The rows above
    /// stay where they are. Returns whether a row was emptied.
    pub fn remove(&mut self) -> (removed: bool)
        ensures
            final(self)@ == old(self)@.cleared(),
            removed == old(self)@.has_full_row(),
    {
        proof {
            use_type_invariant(&*self);
        }
        let h = self.h;
        let w = self.w;
        let ghost g = self@;
        let mut ret = false;
        let mut y: usize = 0;
        while y < h
            invariant
                y <= h,
                h == self.h,
                w == self.w,
                g.width == w,
                g.height == h,
                g.wf(),
                rows_shaped(self.space, w as nat, h as nat),
                forall|j: int, x: int|
                    0 <= j < h && 0 <= x < w ==> (#[trigger] self.space@[j]@[x]) == if j < y
                        && g.row_full(j) {
                        None
                    } else {
                        g.at(x, j)
                    },
                ret == exists|j: int| 0 <= j < y && #[trigger] g.row_full(j),
            decreases h - y,
        {
            let ghost before = self.space;
            proof {
                assert forall|x: int|
                    #![trigger occupied(before, x, y as int)]
                    #![trigger g.at(x, y as int)]
                    0 <= x < w implies occupied(before, x, y as int) == (g.at(x, y as int) is Some) by {
                    assert(before@[y as int]@[x] == g.at(x, y as int));
                }
            }
            let rm = row_is_full(&self.space, y, w);
            assert(rm == g.row_full(y as int));
            if rm {
                ret = true;
                clear_row(&mut self.space, y, w);
            }
            proof {
                assert forall|j: int, x: int| 0 <= j < h && 0 <= x < w implies (
                #[trigger] self.space@[j]@[x]) == if j < y + 1 && g.row_full(j) {
                    None
                } else {
                    g.at(x, j)
                } by {
                    assert(before@[j]@[x] == if j < y && g.row_full(j) {
                        None
                    } else {
                        g.at(x, j)
                    });
                }
            }
            y += 1;
        }
        assert(self@.rows =~~= g.cleared().rows);
        ret
    }

    /// One tick of the automaton: the fall step, and, if that moved nothing,
    /// the clear step. Returns whether anything changed; `false` means that
    /// the field is settled.
    pub fn step(&mut self) -> (changed: bool)
        ensures
            final(self)@ == old(self)@.after_step(),
            changed == old(self)@.step_moves(),
    {
        if self.fall() {
            return true;
        }
        if self.remove() {
            return true;
        }
        false
    }

    /// The distance from the topmost occupied row down to the bottom edge,
    /// `0` for an empty field.
    pub fn get_content_heigth(&self) -> (r: usize)
        ensures
            r == self@.content_height(),
    {
        proof {
            use_type_invariant(self);
        }
        let h = self.h;
        let w = self.w;
        let ghost g = self@;
        let mut y: usize = 0;
        while y < h
            invariant
                y <= h,
                h == self.h,
                w == self.w,
                g == self@,
                rows_shaped(self.space, w as nat, h as nat),
                g.top_from(0) == g.top_from(y as int),
            decreases h - y,
        {
            proof {
                assert forall|x: int|
                    #![trigger occupied(self.space, x, y as int)]
                    #![trigger g.at(x, y as int)]
                    0 <= x < w implies occupied(self.space, x, y as int) == (g.at(x, y as int) is Some) by {
                    assert(self.space@[y as int]@[x] == g.at(x, y as int));
                }
            }
            if !row_is_void(&self.space, y, w) {
                assert(g.row_occupied(y as int));
                return h - y;
            }
            assert(!g.row_occupied(y as int));
            y += 1;
        }
        0
    }
}

} // verus!
