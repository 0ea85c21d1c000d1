//! The settled state of the automaton: a tick that reports no change leaves
//! every cell where it is and locked, with no full row, and further ticks
//! change nothing.

use crate::colors::Colors;
use crate::desk::{is_active, locked};
use crate::grid::Grid;
use vstd::prelude::*;

verus! {

impl Grid<(Colors, bool)> {
    /// No cell of the field is falling.
    pub open spec fn all_locked(self) -> bool {
        forall|x: int, y: int| self.contains(x, y) ==> !is_active(#[trigger] self.at(x, y))
    }

    /// The field with every cell locked where it is.
    pub open spec fn locked_in_place(self) -> Grid<(Colors, bool)> {
        Grid::build(self.width, self.height, |x: int, y: int| locked(self.at(x, y)))
    }

    /// The fall and the clear step keep the dimensions of the field.
    pub proof fn lemma_step_dimensions(self)
        requires
            self.wf(),
        ensures
            self.after_fall().wf(),
            self.after_fall().width == self.width,
            self.after_fall().height == self.height,
            self.cleared().wf(),
            self.cleared().width == self.width,
            self.cleared().height == self.height,
            self.after_step().wf(),
            self.after_step().width == self.width,
            self.after_step().height == self.height,
    {
    }

    /// Where no falling cell descends, the fall step locks every cell where
    /// it is.
    pub proof fn lemma_no_sink_locks(self)
        requires
            self.wf(),
            self.height > 0,
            !self.sinks(),
        ensures
            self.sunk() == self.locked_in_place(),
    {
        let h = self.height as int;
        let line = self.lock_line(0);
        self.lemma_lock_line_bounds(0);
        assert forall|x: int, j: int| 0 <= x < self.width && 0 <= j < line implies !is_active(
            #[trigger] self.at(x, j),
        ) by {
            if is_active(self.at(x, j)) {
                self.lemma_lock_line_span(0, j);
                assert(self.row_has_active(j));
                assert(false);
            }
        }
        assert forall|x: int, j: int| 0 <= x < self.width && 0 <= j < h implies self.sunk().at(x, j)
            == locked(self.at(x, j)) by {
            if j >= 1 && j - 1 < line {
                assert(!is_active(self.at(x, j - 1)));
            }
            if j < line {
                assert(!is_active(self.at(x, j)));
            }
        }
        assert(self.sunk().rows =~~= self.locked_in_place().rows);
    }

    /// A field without falling cells has none that descends.
    pub proof fn lemma_locked_field_does_not_sink(self)
        requires
            self.wf(),
            self.all_locked(),
        ensures
            !self.sinks(),
    {
        if self.sinks() {
            let j = choose|j: int|
                -1 < j < self.height - 1 && self.lock_line(j) != j && #[trigger] self.row_has_active(j);
            let x = choose|x: int| 0 <= x < self.width && is_active(#[trigger] self.at(x, j));
            assert(self.contains(x, j));
            assert(false);
        }
    }

    /// Where closing the lowest empty row moves no cell, it changes nothing.
    pub proof fn lemma_idle_compaction(self)
        requires
            self.wf(),
            !self.compacts(),
        ensures
            self.compacted() == self,
    {
        let h = self.height as int;
        self.lemma_gap_upto(h - 1);
        assert forall|x: int, j: int| 0 <= x < self.width && 0 <= j < h implies self.compacted().at(
            x,
            j,
        ) == self.at(x, j) by {
            let gap = self.gap();
            if j <= gap {
                if j < gap {
                    if self.at(x, j) is Some {
                        assert(self.compacts());
                    }
                } else {
                    assert(self.row_void(gap));
                }
                if j >= 1 {
                    if self.at(x, j - 1) is Some {
                        assert(self.compacts());
                    }
                }
            }
        }
        assert(self.compacted().rows =~~= self.rows);
    }

    /// Where no row is full, the clear step changes nothing.
    pub proof fn lemma_idle_clearing(self)
        requires
            self.wf(),
            !self.has_full_row(),
        ensures
            self.cleared() == self,
    {
        assert forall|x: int, j: int| 0 <= x < self.width && 0 <= j < self.height implies self.cleared().at(
            x,
            j,
        ) == self.at(x, j) by {
            assert(!self.row_full(j));
        }
        assert(self.cleared().rows =~~= self.rows);
    }

    /// A tick that reports no change leaves every cell where it is and
    /// locked, and leaves no full row.
    pub proof fn lemma_settled(self)
        requires
            self.wf(),
            !self.step_moves(),
        ensures
            self.after_step() == self.locked_in_place(),
            self.after_step().all_locked(),
            !self.after_step().has_full_row(),
    {
        let rest = self.locked_in_place();
        if self.height == 0 {
            assert(self.rows =~~= rest.rows);
            assert(self == rest);
        } else {
            self.lemma_no_sink_locks();
            rest.lemma_idle_compaction();
        }
        assert(self.after_fall() == rest);
        rest.lemma_idle_clearing();
    }

    /// Once a tick has reported no change, no later tick reports one: the
    /// settled field stays as it is.
    pub proof fn lemma_settled_stays(self)
        requires
            self.wf(),
            !self.step_moves(),
        ensures
            !self.after_step().step_moves(),
            self.after_step().after_step() == self.after_step(),
    {
        self.lemma_settled();
        let rest = self.after_step();
        assert(rest.locked_in_place().rows =~~= rest.rows);
        rest.lemma_locked_field_does_not_sink();
        if rest.height > 0 {
            rest.lemma_no_sink_locks();
            if self.height > 0 {
                self.lemma_no_sink_locks();
            }
            assert(rest.sunk() == rest);
            assert(self.sunk() == rest);
        }
        assert(!rest.step_moves());
        rest.lemma_settled();
    }
}

} // verus!
