//! How the automaton treats full rows: a block of full rows falls to the
//! floor, is cleared by the tick after it has landed, and leaves an empty
//! field behind.

use crate::colors::Colors;
use crate::desk::{is_active, is_locked};
use crate::grid::Grid;
use vstd::prelude::*;

verus! {

impl Grid<(Colors, bool)> {
    /// The field holds nothing but `k` fully occupied rows, from row `t`
    /// down.
    pub open spec fn is_block(self, t: int, k: int) -> bool {
        &&& self.wf()
        &&& self.width > 0
        &&& 0 <= t
        &&& 1 <= k
        &&& t + k <= self.height
        &&& forall|x: int, y: int|
            self.contains(x, y) ==> ((#[trigger] self.at(x, y)) is Some) == (t <= y < t + k)
    }

    /// What is cleared stays cleared: the clear step empties every full row,
    /// leaves every other row as it is, and, in a field with columns, leaves
    /// no full row behind.
    pub proof fn lemma_cleared_rows(self)
        requires
            self.wf(),
        ensures
            forall|y: int| 0 <= y < self.height && self.row_full(y) ==> #[trigger] self.cleared().row_void(y),
            forall|x: int, y: int|
                self.contains(x, y) && !self.row_full(y) ==> #[trigger] self.cleared().at(x, y) == self.at(
                    x,
                    y,
                ),
            self.width > 0 ==> !self.cleared().has_full_row(),
    {
        let c = self.cleared();
        if self.width > 0 {
            assert forall|y: int| 0 <= y < c.height implies !#[trigger] c.row_full(y) by {
                if self.row_full(y) {
                    assert(c.at(0, y) is None);
                } else {
                    let x = choose|x: int| 0 <= x < self.width && !((#[trigger] self.at(x, y)) is Some);
                    assert(c.at(x, y) == self.at(x, y));
                }
            }
        }
    }

    /// An empty field with columns is settled: a tick changes nothing.
    pub proof fn lemma_empty_field_is_settled(self)
        requires
            self.wf(),
            self.width > 0,
            forall|x: int, y: int| self.contains(x, y) ==> (#[trigger] self.at(x, y)) is None,
        ensures
            !self.step_moves(),
            self.after_step() == self,
    {
        self.lemma_locked_field_does_not_sink();
        assert(self.locked_in_place().rows =~~= self.rows);
        if self.height > 0 {
            self.lemma_no_sink_locks();
            if self.compacts() {
                let (x, j) = choose|x: int, j: int|
                    0 <= x < self.width && 0 <= j < self.gap() && (#[trigger] self.at(x, j)) is Some;
                self.lemma_gap_upto(self.height - 1);
                assert(self.contains(x, j));
                assert(false);
            }
            self.lemma_idle_compaction();
        }
        assert(self.after_fall() == self);
        if self.has_full_row() {
            let y = choose|y: int| 0 <= y < self.height && #[trigger] self.row_full(y);
            assert(self.contains(0, y));
            assert(self.at(0, y) is Some);
            assert(false);
        }
        self.lemma_settled();
    }

    /// In a block of full rows that stands on the floor, every row that is
    /// not the bottom row and holds a falling cell is held in place.
    proof fn lemma_block_lock_line(self, k: int, y: int)
        requires
            self.is_block(self.height - k, k),
            self.height - k <= y < self.height,
        ensures
            y == self.height - 1 || self.row_has_active(y) ==> self.lock_line(y) == y,
            y <= self.lock_line(y) < self.height,
            self.lock_line(y) > y ==> forall|x: int|
                0 <= x < self.width ==> !is_active(#[trigger] self.at(x, y)),
        decreases self.height - y,
    {
        self.lemma_lock_line_bounds(y);
        if y < self.height - 1 {
            self.lemma_block_lock_line(k, y + 1);
            let line = self.lock_line(y + 1);
            if self.row_has_active(y) {
                let x = choose|x: int| 0 <= x < self.width && is_active(#[trigger] self.at(x, y));
                assert(self.contains(x, y + 1));
                assert(self.at(x, y + 1) is Some);
                if line != y + 1 {
                    assert(!is_active(self.at(x, y + 1)));
                }
                assert(self.rests(x, y, line));
            } else {
                assert forall|x: int| 0 <= x < self.width implies !is_active(#[trigger] self.at(x, y)) by {
                    if is_active(self.at(x, y)) {
                        assert(self.row_has_active(y));
                    }
                }
            }
        }
    }

    /// A block of full rows that stands on the floor is cleared by one tick:
    /// the fall step moves nothing, the clear step empties every row of the
    /// block, the field is left empty with content height `0`, and the next
    /// tick changes nothing.
    pub proof fn lemma_block_cleared(self, k: int)
        requires
            self.is_block(self.height - k, k),
        ensures
            !self.fall_moves(),
            self.step_moves(),
            self.after_step() == Grid::<(Colors, bool)>::empty(self.width, self.height),
            self.after_step().content_height() == 0,
            !self.after_step().step_moves(),
    {
        let h = self.height as int;
        let t = h - k;
        if self.sinks() {
            let j = choose|j: int|
                -1 < j < self.height - 1 && self.lock_line(j) != j && #[trigger] self.row_has_active(j);
            let x = choose|x: int| 0 <= x < self.width && is_active(#[trigger] self.at(x, j));
            assert(self.contains(x, j));
            self.lemma_block_lock_line(k, j);
            assert(false);
        }
        self.lemma_no_sink_locks();
        let sunk = self.sunk();
        assert forall|x: int, y: int| sunk.contains(x, y) implies ((#[trigger] sunk.at(x, y)) is Some) == (t
            <= y) by {
            assert(self.contains(x, y));
        }
        sunk.lemma_gap_upto(h - 1);
        if sunk.compacts() {
            let (x, j) = choose|x: int, j: int|
                0 <= x < sunk.width && 0 <= j < sunk.gap() && (#[trigger] sunk.at(x, j)) is Some;
            assert(sunk.contains(x, j));
            let gap = sunk.gap();
            assert(sunk.row_void(gap));
            assert(sunk.contains(0, gap));
            assert(sunk.at(0, gap) is None);
            assert(false);
        }
        sunk.lemma_idle_compaction();
        assert(self.after_fall() == sunk);
        assert forall|y: int| 0 <= y < h implies #[trigger] sunk.row_full(y) == (t <= y) by {
            if t <= y {
                assert forall|x: int| 0 <= x < sunk.width implies (#[trigger] sunk.at(x, y)) is Some by {
                    assert(sunk.contains(x, y));
                }
            } else {
                assert(sunk.contains(0, y));
                assert(sunk.at(0, y) is None);
            }
        }
        assert(sunk.row_full(h - 1));
        let rest = self.after_step();
        let none = Grid::<(Colors, bool)>::empty(self.width, self.height);
        assert forall|x: int, y: int| 0 <= x < self.width && 0 <= y < h implies rest.at(x, y) == none.at(
            x,
            y,
        ) by {
            assert(sunk.contains(x, y));
            assert(sunk.row_full(y) == (t <= y));
        }
        assert(rest.rows =~~= none.rows);
        rest.lemma_content_height_empty();
        rest.lemma_empty_field_is_settled();
    }

    /// A falling block of full rows with free rows below it descends by one
    /// row in one tick.
    pub proof fn lemma_block_descends(self, t: int, k: int)
        requires
            self.is_block(t, k),
            self.all_falling(),
            t + k < self.height,
        ensures
            self.fall_moves(),
            self.after_step().is_block(t + 1, k),
            self.after_step().all_falling(),
            self.after_step().width == self.width,
            self.after_step().height == self.height,
    {
        assert forall|x: int| 0 <= x < self.width implies (#[trigger] self.at(
            x,
            self.height - 1,
        )) is None by {
            assert(self.contains(x, self.height - 1));
        }
        self.lemma_free_fall();
        assert(self.contains(0, t) && self.at(0, t) is Some);
        let next = self.shifted_down();
        assert forall|x: int, y: int| next.contains(x, y) implies ((#[trigger] next.at(x, y)) is Some) == (t
            + 1 <= y < t + 1 + k) && !is_locked(next.at(x, y)) by {
            if y >= 1 {
                assert(self.contains(x, y - 1));
                assert(!is_locked(self.at(x, y - 1)));
            }
        }
    }

    /// A falling block of `k` full rows that starts at row `t` stands on
    /// the floor after one tick for every free row below it, each of which
    /// reports a move made by the fall step; one more tick clears it and
    /// leaves the field empty, and the tick after that changes nothing.
    pub proof fn lemma_block_falls_and_is_cleared(self, t: int, k: int)
        requires
            self.is_block(t, k),
            self.all_falling(),
        ensures
            forall|m: nat| m < self.height - k - t ==> (#[trigger] self.after_steps(m)).fall_moves(),
            self.after_steps((self.height - k - t) as nat).is_block(self.height - k, k),
            self.after_steps((self.height - k - t + 1) as nat) == Grid::<(Colors, bool)>::empty(
                self.width,
                self.height,
            ),
            self.after_steps((self.height - k - t + 1) as nat).content_height() == 0,
            !self.after_steps((self.height - k - t + 1) as nat).step_moves(),
    {
        let n = (self.height - k - t) as nat;
        self.lemma_block_run(t, k, n);
        let landed = self.after_steps(n);
        landed.lemma_block_cleared(k);
        assert(self.after_steps((n + 1) as nat) == landed.after_step());
    }

    /// A falling block of full rows is `n` rows further down after `n`
    /// ticks, for every `n` up to the number of free rows below it.
    proof fn lemma_block_run(self, t: int, k: int, n: nat)
        requires
            self.is_block(t, k),
            self.all_falling(),
            n <= self.height - k - t,
        ensures
            self.after_steps(n).is_block(t + n, k),
            self.after_steps(n).all_falling(),
            self.after_steps(n).width == self.width,
            self.after_steps(n).height == self.height,
            forall|m: nat| m < n ==> (#[trigger] self.after_steps(m)).fall_moves(),
        decreases n,
    {
        if n > 0 {
            let m = (n - 1) as nat;
            self.lemma_block_run(t, k, m);
            self.after_steps(m).lemma_block_descends(t + m, k);
        }
    }
}

} // verus!
