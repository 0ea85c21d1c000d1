//! How the automaton treats a piece that falls through free space: it
//! descends by one row per tick until it stands on the floor, where it locks.

use crate::colors::Colors;
use crate::desk::{is_active, is_locked, locked};
use crate::grid::Grid;
use vstd::prelude::*;

verus! {

impl Grid<(Colors, bool)> {
    /// The field after `n` ticks.
    pub open spec fn after_steps(self, n: nat) -> Grid<(Colors, bool)>
        decreases n,
    {
        if n == 0 {
            self
        } else {
            self.after_steps((n - 1) as nat).after_step()
        }
    }

    /// No cell of the field is locked.
    pub open spec fn all_falling(self) -> bool {
        forall|x: int, y: int| self.contains(x, y) ==> !is_locked(#[trigger] self.at(x, y))
    }

    /// Some cell of the field is occupied.
    pub open spec fn occupied_somewhere(self) -> bool {
        exists|x: int, y: int| self.contains(x, y) && (#[trigger] self.at(x, y)) is Some
    }

    /// The field with every row moved down by one; the top row is empty and
    /// the former bottom row is gone.
    pub open spec fn shifted_down(self) -> Grid<(Colors, bool)> {
        Grid::build(
            self.width,
            self.height,
            |x: int, y: int|
                if y >= 1 {
                    self.at(x, y - 1)
                } else {
                    None
                },
        )
    }

    /// The field holds nothing but a falling rectangle: the cells of the
    /// `m` columns from column `c` on in the `k` rows from row `t` down. A
    /// rectangle one column wide is a bar; one row high, a lying bar.
    pub open spec fn is_rectangle(self, c: int, m: int, t: int, k: int) -> bool {
        &&& self.wf()
        &&& 0 <= c
        &&& 1 <= m
        &&& c + m <= self.width
        &&& 0 <= t
        &&& 1 <= k
        &&& t + k <= self.height
        &&& forall|x: int, y: int|
            self.contains(x, y) ==> if c <= x < c + m && t <= y < t + k {
                is_active(#[trigger] self.at(x, y))
            } else {
                self.at(x, y) is None
            }
    }

    /// What the descent does to each cell. A falling cell above the topmost
    /// held row moves down by one row as it is. A locked cell above that row
    /// stays as it is. Every cell from that row down stays and is locked. No
    /// cell is lost, none lands on another, and none appears from nowhere.
    pub proof fn lemma_sunk_cells(self)
        requires
            self.wf(),
            self.height > 0,
        ensures
            0 <= self.lock_line(0) < self.height,
            forall|x: int, y: int|
                self.contains(x, y) && y < self.lock_line(0) && is_active(#[trigger] self.at(x, y))
                    ==> self.sunk().at(x, y + 1) == self.at(x, y),
            forall|x: int, y: int|
                self.contains(x, y) && y < self.lock_line(0) && is_locked(#[trigger] self.at(x, y))
                    ==> self.sunk().at(x, y) == self.at(x, y),
            forall|x: int, y: int|
                self.contains(x, y) && y >= self.lock_line(0) && (#[trigger] self.at(x, y)) is Some
                    ==> self.sunk().at(x, y) == locked(self.at(x, y)),
            forall|x: int, y: int|
                self.contains(x, y) && (#[trigger] self.sunk().at(x, y)) is Some ==> (self.at(x, y) is Some
                    && !(is_active(self.at(x, y)) && y < self.lock_line(0))) || (1 <= y
                    <= self.lock_line(0) && is_active(self.at(x, y - 1))),
    {
        let line = self.lock_line(0);
        self.lemma_lock_line_bounds(0);
        assert forall|x: int, y: int|
            self.contains(x, y) && y < line && is_active(#[trigger] self.at(x, y)) implies self.sunk().at(
            x,
            y + 1,
        ) == self.at(x, y) by {
            self.lemma_lock_line_span(0, y);
            assert(!self.rests(x, y, line));
            assert(self.contains(x, y + 1));
        }
    }

    /// In a field without locked cells whose bottom row is empty, no row is
    /// held in place but the bottom row.
    pub proof fn lemma_free_lock_line(self, y: int)
        requires
            self.wf(),
            self.all_falling(),
            self.row_void(self.height - 1),
            0 <= y < self.height,
        ensures
            self.lock_line(y) == self.height - 1,
        decreases self.height - y,
    {
        if y < self.height - 1 {
            self.lemma_free_lock_line(y + 1);
            let line = self.lock_line(y + 1);
            assert forall|x: int| 0 <= x < self.width implies !#[trigger] self.rests(x, y, line) by {
                assert(self.contains(x, y + 1));
                assert(!is_locked(self.at(x, y + 1)));
                if y + 1 == self.height - 1 {
                    assert(self.at(x, y + 1) is None);
                }
            }
        }
    }

    /// Free fall: in a field without locked cells whose bottom row is empty,
    /// one fall step moves every cell down by one row, and it reports a move
    /// exactly if the field holds a cell.
    pub proof fn lemma_free_fall(self)
        requires
            self.wf(),
            self.height > 0,
            self.all_falling(),
            self.row_void(self.height - 1),
        ensures
            self.after_fall() == self.shifted_down(),
            self.fall_moves() == self.occupied_somewhere(),
    {
        let h = self.height as int;
        let line = self.lock_line(0);
        self.lemma_free_lock_line(0);
        let sunk = self.sunk();
        let down = self.shifted_down();
        assert forall|x: int, j: int| 0 <= x < self.width && 0 <= j < h implies sunk.at(x, j)
            == down.at(x, j) by {
            assert(self.contains(x, j));
            assert(!is_locked(self.at(x, j)));
            if j == h - 1 {
                assert(self.at(x, j) is None);
            }
            if j >= 1 {
                assert(self.contains(x, j - 1));
                assert(!is_locked(self.at(x, j - 1)));
            }
        }
        assert(sunk.rows =~~= down.rows);
        if self.sinks() {
            let j = choose|j: int|
                -1 < j < self.height - 1 && self.lock_line(j) != j && #[trigger] self.row_has_active(j);
            let x = choose|x: int| 0 <= x < self.width && is_active(#[trigger] self.at(x, j));
            assert(self.contains(x, j) && self.at(x, j) is Some);
        } else {
            assert forall|x: int, j: int| self.contains(x, j) implies (#[trigger] self.at(x, j)) is None by {
                assert(!is_locked(self.at(x, j)));
                if j < h - 1 {
                    self.lemma_free_lock_line(j);
                    if is_active(self.at(x, j)) {
                        assert(self.row_has_active(j));
                        assert(false);
                    }
                }
            }
            assert forall|x: int, j: int| 0 <= x < self.width && 0 <= j < h implies (#[trigger] down.at(
                x,
                j,
            )) is None by {
                if j >= 1 {
                    assert(self.contains(x, j - 1));
                    assert(self.at(x, j - 1) is None);
                }
            }
            assert(sunk.compacted().rows =~~= down.rows);
            if sunk.compacts() {
                let (x, j) = choose|x: int, j: int|
                    0 <= x < sunk.width && 0 <= j < sunk.gap() && (#[trigger] sunk.at(x, j)) is Some;
                sunk.lemma_gap_upto(h - 1);
                assert(down.at(x, j) is None);
                assert(false);
            }
        }
    }

    /// A rectangle that stands on the floor holds every row that it covers.
    proof fn lemma_rectangle_lock_line(self, c: int, m: int, t: int, k: int, y: int)
        requires
            self.is_rectangle(c, m, t, k),
            t + k == self.height,
            0 <= y < self.height,
        ensures
            self.lock_line(y) == if y < t {
                t
            } else {
                y
            },
        decreases self.height - y,
    {
        if y < self.height - 1 {
            self.lemma_rectangle_lock_line(c, m, t, k, y + 1);
            let line = self.lock_line(y + 1);
            if y >= t {
                assert(self.contains(c, y) && self.contains(c, y + 1));
                assert(is_active(self.at(c, y)));
                assert(is_active(self.at(c, y + 1)));
                assert(self.rests(c, y, line));
            } else {
                assert forall|x: int| 0 <= x < self.width implies !#[trigger] self.rests(x, y, line) by {
                    assert(self.contains(x, y));
                    assert(self.at(x, y) is None);
                }
            }
        }
    }

    /// Where the rows from row `t` down are occupied in column `c` and the
    /// rows above are empty, the lowest empty row is the one just above row
    /// `t`.
    proof fn lemma_gap_above(self, c: int, t: int, y: int)
        requires
            self.wf(),
            0 <= c < self.width,
            0 <= t <= self.height,
            forall|j: int| t <= j < self.height ==> (#[trigger] self.at(c, j)) is Some,
            forall|x: int, j: int| self.contains(x, j) && j < t ==> (#[trigger] self.at(x, j)) is None,
            -1 <= y < self.height,
        ensures
            self.gap_upto(y) == if y < t {
                y
            } else {
                t - 1
            },
        decreases y + 1,
    {
        if y >= 0 {
            if y >= t {
                assert(self.at(c, y) is Some);
                assert(!self.row_void(y));
                self.lemma_gap_above(c, t, y - 1);
            } else {
                assert forall|x: int| 0 <= x < self.width implies (#[trigger] self.at(x, y)) is None by {
                    assert(self.contains(x, y));
                }
            }
        }
    }

    /// A falling rectangle with free rows below it descends by one row in
    /// one tick, and the tick reports a move made by the fall step.
    pub proof fn lemma_rectangle_descends(self, c: int, m: int, t: int, k: int)
        requires
            self.is_rectangle(c, m, t, k),
            t + k < self.height,
        ensures
            self.fall_moves(),
            self.step_moves(),
            self.after_step().is_rectangle(c, m, t + 1, k),
            self.after_step().width == self.width,
            self.after_step().height == self.height,
            forall|x: int, y: int|
                c <= x < c + m && t <= y < t + k ==> self.after_step().at(x, y + 1) == self.at(x, y),
    {
        assert forall|x: int, y: int| self.contains(x, y) implies !is_locked(#[trigger] self.at(x, y)) by {}
        assert forall|x: int| 0 <= x < self.width implies (#[trigger] self.at(
            x,
            self.height - 1,
        )) is None by {
            assert(self.contains(x, self.height - 1));
        }
        self.lemma_free_fall();
        assert(self.contains(c, t) && self.at(c, t) is Some);
        let next = self.shifted_down();
        assert forall|x: int, y: int| next.contains(x, y) implies if c <= x < c + m && t + 1 <= y < t + 1
            + k {
            is_active(#[trigger] next.at(x, y))
        } else {
            next.at(x, y) is None
        } by {
            if y >= 1 {
                assert(self.contains(x, y - 1));
            }
        }
        assert forall|x: int, y: int| c <= x < c + m && t <= y < t + k implies next.at(x, y + 1)
            == self.at(x, y) by {
            assert(next.contains(x, y + 1));
        }
    }

    /// A rectangle that stands on the floor does not move: the fall step
    /// locks its cells where they are and reports no move, and the tick
    /// reports a change exactly if the rectangle fills its rows, that is, if
    /// it is as wide as the field.
    pub proof fn lemma_rectangle_lands(self, c: int, m: int, t: int, k: int)
        requires
            self.is_rectangle(c, m, t, k),
            t + k == self.height,
        ensures
            !self.fall_moves(),
            self.after_fall() == self.locked_in_place(),
            self.step_moves() == (m == self.width),
    {
        let h = self.height as int;
        self.lemma_rectangle_lock_line(c, m, t, k, 0);
        assert forall|j: int| -1 < j < h - 1 && self.lock_line(j) != j implies !#[trigger] self.row_has_active(
            j,
        ) by {
            self.lemma_rectangle_lock_line(c, m, t, k, j);
            assert forall|x: int| 0 <= x < self.width implies !is_active(#[trigger] self.at(x, j)) by {
                assert(self.contains(x, j));
            }
        }
        assert(!self.sinks());
        self.lemma_no_sink_locks();
        let sunk = self.sunk();
        assert forall|x: int, j: int| sunk.contains(x, j) implies ((#[trigger] sunk.at(x, j)) is Some)
            == (c <= x < c + m && t <= j) by {
            assert(self.contains(x, j));
        }
        assert forall|j: int| t <= j < sunk.height implies (#[trigger] sunk.at(c, j)) is Some by {
            assert(sunk.contains(c, j));
        }
        sunk.lemma_gap_above(c, t, h - 1);
        if sunk.compacts() {
            let (x, j) = choose|x: int, j: int|
                0 <= x < sunk.width && 0 <= j < sunk.gap() && (#[trigger] sunk.at(x, j)) is Some;
            assert(sunk.contains(x, j));
            assert(false);
        }
        sunk.lemma_idle_compaction();
        let rest = self.after_fall();
        assert(rest == sunk);
        if m == self.width {
            assert forall|x: int| 0 <= x < rest.width implies (#[trigger] rest.at(x, t)) is Some by {
                assert(sunk.contains(x, t));
            }
            assert(rest.row_full(t));
        } else {
            assert forall|y: int| 0 <= y < rest.height implies !#[trigger] rest.row_full(y) by {
                let x = if c == 0 {
                    m
                } else {
                    0int
                };
                assert(sunk.contains(x, y));
                assert(rest.at(x, y) is None);
            }
        }
    }

    /// A rectangle of `k` rows placed at the top of an otherwise empty field
    /// is `n` rows further down after `n` ticks, for every `n` up to the
    /// number of free rows below it, and every one of those ticks reports a
    /// move made by the fall step.
    pub proof fn lemma_rectangle_after_steps(self, c: int, m: int, k: int, n: nat)
        requires
            self.is_rectangle(c, m, 0, k),
            n <= self.height - k,
        ensures
            self.after_steps(n).is_rectangle(c, m, n as int, k),
            self.after_steps(n).width == self.width,
            self.after_steps(n).height == self.height,
            forall|i: nat| i < n ==> (#[trigger] self.after_steps(i)).fall_moves(),
        decreases n,
    {
        if n > 0 {
            let i = (n - 1) as nat;
            self.lemma_rectangle_after_steps(c, m, k, i);
            self.after_steps(i).lemma_rectangle_descends(c, m, i as int, k);
        }
    }

    /// A rectangle of `k` rows placed at the top of an otherwise empty field
    /// of height `h` falls for exactly `h - k` ticks: each of the first
    /// `h - k` ticks moves it down by the fall step, and the fall step of the
    /// next tick moves nothing, so that this tick clears rows or reports no
    /// change.
    pub proof fn lemma_rectangle_fall_count(self, c: int, m: int, k: int)
        requires
            self.is_rectangle(c, m, 0, k),
        ensures
            forall|i: nat| i < self.height - k ==> (#[trigger] self.after_steps(i)).fall_moves(),
            !self.after_steps((self.height - k) as nat).fall_moves(),
            self.after_steps((self.height - k) as nat).step_moves() == (m == self.width),
    {
        let n = (self.height - k) as nat;
        self.lemma_rectangle_after_steps(c, m, k, n);
        self.after_steps(n).lemma_rectangle_lands(c, m, n as int, k);
    }
}

} // verus!
