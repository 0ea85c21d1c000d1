//! A textual picture of a grid for diagnostics: a header line with the first
//! ten column numbers, then one line per row with its number (for the first
//! ten rows) and two glyphs per cell.

use crate::grid::{rows_shaped, Grid, Space};
use vstd::prelude::*;
use vstd::string::StringExecFns;

verus! {

/// The decimal digit `d` as text.
pub open spec fn digit_text(d: int) -> Seq<char> {
    if d == 0 {
        "0"@
    } else if d == 1 {
        "1"@
    } else if d == 2 {
        "2"@
    } else if d == 3 {
        "3"@
    } else if d == 4 {
        "4"@
    } else if d == 5 {
        "5"@
    } else if d == 6 {
        "6"@
    } else if d == 7 {
        "7"@
    } else if d == 8 {
        "8"@
    } else {
        "9"@
    }
}

/// The two glyphs that picture a cell: light shade for an empty cell, full
/// blocks for an occupied one.
pub open spec fn glyph_text<T>(cell: Option<T>) -> Seq<char> {
    if cell is None {
        "░░"@
    } else {
        "██"@
    }
}

impl<T> Grid<T> {
    /// The start of the header line: a blank, then the numbers of the first
    /// `n` columns, each followed by a blank.
    pub open spec fn header_text(self, n: nat) -> Seq<char>
        decreases n,
    {
        if n == 0 {
            " "@
        } else {
            self.header_text((n - 1) as nat) + digit_text(n - 1) + " "@
        }
    }

    /// The start of the line of row `y`: its number if that is below ten,
    /// else a blank, then the glyphs of its first `n` cells.
    pub open spec fn cells_text(self, y: int, n: nat) -> Seq<char>
        decreases n,
    {
        if n == 0 {
            if y < 10 {
                digit_text(y)
            } else {
                " "@
            }
        } else {
            self.cells_text(y, (n - 1) as nat) + glyph_text(self.at(n - 1, y))
        }
    }

    /// The header line and the lines of the first `n` rows.
    pub open spec fn rows_text(self, n: nat) -> Seq<char>
        decreases n,
    {
        if n == 0 {
            self.header_text(
                if self.width < 10 {
                    self.width
                } else {
                    10
                },
            ) + "\n"@
        } else {
            self.rows_text((n - 1) as nat) + self.cells_text(n - 1, self.width) + "\n"@
        }
    }

    /// The whole picture.
    pub open spec fn debug_text(self) -> Seq<char> {
        self.rows_text(self.height)
    }
}

/// The decimal digit `d` as text.
fn digit_str(d: usize) -> (s: &'static str)
    requires
        d < 10,
    ensures
        s@ == digit_text(d as int),
{
    match d {
        0 => "0",
        1 => "1",
        2 => "2",
        3 => "3",
        4 => "4",
        5 => "5",
        6 => "6",
        7 => "7",
        8 => "8",
        _ => "9",
    }
}

impl<T> Space<T> {
    /// The textual picture of the grid.
    pub fn to_debug_string(&self) -> (s: String)
        ensures
            s@ == self@.debug_text(),
    {
        proof {
            use_type_invariant(self);
        }
        let ghost g = self@;
        let mut out = String::new();
        out.append(" ");
        let shown = if self.w < 10 {
            self.w
        } else {
            10
        };
        let mut i: usize = 0;
        while i < shown
            invariant
                i <= shown <= 10,
                out@ == g.header_text(i as nat),
            decreases shown - i,
        {
            out.append(digit_str(i));
            out.append(" ");
            i += 1;
        }
        out.append("\n");
        let mut y: usize = 0;
        while y < self.h
            invariant
                y <= self.h,
                g == self@,
                shown == if self.w < 10 {
                    self.w
                } else {
                    10
                },
                rows_shaped(self.space, self.w as nat, self.h as nat),
                out@ == g.rows_text(y as nat),
            decreases self.h - y,
        {
            let ghost before = out@;
            if y < 10 {
                out.append(digit_str(y));
            } else {
                out.append(" ");
            }
            let mut x: usize = 0;
            while x < self.w
                invariant
                    x <= self.w,
                    y < self.h,
                    g == self@,
                    rows_shaped(self.space, self.w as nat, self.h as nat),
                    out@ == before + g.cells_text(y as int, x as nat),
                decreases self.w - x,
            {
                if let None = self.space[y][x] {
                    out.append("░░");
                } else {
                    out.append("██");
                }
                assert(out@ =~= before + g.cells_text(y as int, (x + 1) as nat));
                x += 1;
            }
            out.append("\n");
            assert(out@ =~= g.rows_text((y + 1) as nat));
            y += 1;
        }
        out
    }
}

} // verus!
