//! The rules of a game played on up to four fields that share one selection
//! panel: where the panels stand on the screen, what a key does to the piece
//! being placed, how a cell is drawn and how the score is kept. Nothing here
//! reads a key or writes to a screen.

use crate::colors::Colors;
use crate::desk::{is_active, Block, Desk};
use crate::grid::{Grid, Rotation, Space};
use vstd::prelude::*;

verus! {

/// What a key asks for while a piece is being placed.
#[derive(Copy, Clone, PartialEq, Eq, Structural, Debug)]
pub enum Command {
    Left,
    Right,
    Up,
    Down,
    TurnClockwise,
    TurnCounterclockwise,
    Release,
    Ignore,
}

/// The command that a character key stands for.
pub open spec fn command_of(key: char) -> Command {
    if key == 'a' {
        Command::Left
    } else if key == 'd' {
        Command::Right
    } else if key == 'w' {
        Command::Up
    } else if key == 's' {
        Command::Down
    } else if key == 'e' {
        Command::TurnClockwise
    } else if key == 'q' {
        Command::TurnCounterclockwise
    } else if key == ' ' {
        Command::Release
    } else {
        Command::Ignore
    }
}

/// The command that a character key stands for.
pub fn command_for_key(key: char) -> (c: Command)
    ensures
        c == command_of(key),
{
    match key {
        'a' => Command::Left,
        'd' => Command::Right,
        'w' => Command::Up,
        's' => Command::Down,
        'e' => Command::TurnClockwise,
        'q' => Command::TurnCounterclockwise,
        ' ' => Command::Release,
        _ => Command::Ignore,
    }
}

/// The offset of the piece after a move command: one step in the direction
/// asked for, except that the offset never goes below zero nor past the
/// largest number. Other commands leave the offset as it is.
pub open spec fn nudged(x: usize, y: usize, command: Command) -> (usize, usize) {
    match command {
        Command::Left if x > 0 => ((x - 1) as usize, y),
        Command::Right if x < usize::MAX => ((x + 1) as usize, y),
        Command::Up if y > 0 => (x, (y - 1) as usize),
        Command::Down if y < usize::MAX => (x, (y + 1) as usize),
        _ => (x, y),
    }
}

/// Moves the offset of the piece as `command` asks, and tells whether the
/// offset has changed.
pub fn nudge(x: usize, y: usize, command: Command) -> (r: (usize, usize, bool))
    ensures
        (r.0, r.1) == nudged(x, y, command),
        r.2 == (nudged(x, y, command) != (x, y)),
{
    match command {
        Command::Left => {
            if x > 0 {
                (x - 1, y, true)
            } else {
                (x, y, false)
            }
        },
        Command::Right => {
            if x < usize::MAX {
                (x + 1, y, true)
            } else {
                (x, y, false)
            }
        },
        Command::Up => {
            if y > 0 {
                (x, y - 1, true)
            } else {
                (x, y, false)
            }
        },
        Command::Down => {
            if y < usize::MAX {
                (x, y + 1, true)
            } else {
                (x, y, false)
            }
        },
        _ => (x, y, false),
    }
}

/// The number of counterclockwise quarter turns by which the selection
/// is turned before it enters the field of the given index: the second and
/// the fourth field change places, the others turn by their index.
pub open spec fn turns_of(index: usize) -> usize {
    if index == 1 {
        3
    } else if index == 3 {
        1
    } else {
        index
    }
}

/// The number of quarter turns for the field of the given index.
pub fn panel_turns(index: usize) -> (turns: usize)
    ensures
        turns == turns_of(index),
{
    match index {
        1 => 3,
        3 => 1,
        _ => index,
    }
}

/// How a cell is drawn.
#[derive(Copy, Clone, PartialEq, Eq, Structural, Debug)]
pub enum Glyph {
    /// A full block in the cell's color.
    Solid(Colors),
    /// A shaded block in the cell's color.
    Shaded(Colors),
    /// A light pattern that shows an empty cell.
    Dotted,
    /// Nothing.
    Blank,
}

/// How `cell` is drawn. The extended style tells locked cells from falling
/// ones and shows empty cells; the plain style draws every occupied cell as
/// a full block and leaves empty cells blank.
pub open spec fn glyph_of(cell: Block, extended: bool) -> Glyph {
    match cell {
        Some(p) => if is_active(cell) || !extended {
            Glyph::Solid(p.0)
        } else {
            Glyph::Shaded(p.0)
        },
        None => if extended {
            Glyph::Dotted
        } else {
            Glyph::Blank
        },
    }
}

/// How `cell` is drawn.
pub fn glyph_for(cell: Block, extended: bool) -> (g: Glyph)
    ensures
        g == glyph_of(cell, extended),
{
    if let Some((c, f)) = cell {
        if f {
            Glyph::Solid(c)
        } else {
            if extended {
                Glyph::Shaded(c)
            } else {
                Glyph::Solid(c)
            }
        }
    } else {
        if extended {
            Glyph::Dotted
        } else {
            Glyph::Blank
        }
    }
}

/// The measures of a game: the number of fields, the side of the square
/// selection panel, and the height below which a field's content must stay.
#[derive(Copy, Clone, PartialEq, Eq, Structural, Debug)]
pub struct Layout {
    pub fields: u8,
    pub width: u16,
    pub height: u16,
}

impl Layout {
    /// The measures that a game is played with, given the ones asked for: at
    /// most four fields, and a width no larger than the height. There is no
    /// game without a field.
    pub open spec fn of(fields: u8, width: u16, height: u16) -> Option<Layout> {
        if fields < 1 {
            None
        } else {
            Some(
                Layout {
                    fields: if fields > 4 {
                        4
                    } else {
                        fields
                    },
                    width: if width > height {
                        height
                    } else {
                        width
                    },
                    height,
                },
            )
        }
    }

    /// The measures that a game is played with, given the ones asked for.
    pub fn new(fields: u8, width: u16, height: u16) -> (r: Option<Layout>)
        ensures
            r == Layout::of(fields, width, height),
    {
        let mut fields = fields;
        let mut width = width;
        if fields > 4 {
            fields = 4;
        }
        if fields < 1 {
            return None;
        }
        if width > height {
            width = height;
        }
        Some(Layout { fields, width, height })
    }

    /// The number of columns of each field.
    pub fn field_width(&self) -> (w: usize)
        ensures
            w == self.width,
    {
        self.width as usize
    }

    /// The number of rows of each field: the selection panel on top of the
    /// play area.
    pub fn field_height(&self) -> (h: usize)
        ensures
            h == self.height + self.width,
    {
        self.height as usize + self.width as usize
    }

    /// The number of screen rows that the game takes: one field, and with
    /// more than two fields the height of another play area.
    pub open spec fn rows(self) -> int {
        if self.fields > 2 {
            self.height + self.width + self.height
        } else {
            self.height + self.width
        }
    }

    /// The number of screen rows that the game takes.
    pub fn total_rows(&self) -> (n: u32)
        ensures
            n == self.rows(),
    {
        let real_height = self.height as u32 + self.width as u32;
        if self.fields > 2 {
            real_height + self.height as u32
        } else {
            real_height
        }
    }

    /// The screen row at which the game starts when the cursor stands in
    /// row `cursor`: as many rows above the cursor as the game takes, or the
    /// top of the screen.
    pub fn first_row(&self, cursor: u16) -> (row: u16)
        ensures
            row == if self.rows() > cursor {
                0
            } else {
                cursor - self.rows()
            },
    {
        let total = self.total_rows();
        if total > cursor as u32 {
            0
        } else {
            cursor - total as u16
        }
    }

    /// Whether the content of `desk` has reached the height at which the
    /// game is lost.
    pub fn overflowed(&self, desk: &Desk) -> (r: bool)
        ensures
            r == (desk@.content_height() >= self.height),
    {
        desk.get_content_heigth() >= self.height as usize
    }

    /// The screen position of the field of the given index, as column and
    /// row, when the game starts at row `first`.
    pub open spec fn origin(self, index: u8, first: int) -> (int, int) {
        (
            if index < 3 && self.fields > 3 {
                self.height * 2
            } else {
                0
            },
            first + if index == 0 || index == 1 {
                if self.fields > 2 {
                    self.height as int
                } else {
                    0
                }
            } else if index == 2 {
                0
            } else {
                self.height as int
            },
        )
    }

    /// The screen position of the field of the given index.
    pub fn panel_origin(&self, index: u8, first: u16) -> (r: (u32, u32))
        ensures
            (r.0 as int, r.1 as int) == self.origin(index, first as int),
    {
        let x: u32 = if index < 3 && self.fields > 3 {
            self.height as u32 * 2
        } else {
            0
        };
        let down: u32 = match index {
            0 => if self.fields > 2 {
                self.height as u32
            } else {
                0
            },
            1 => if self.fields > 2 {
                self.height as u32
            } else {
                0
            },
            2 => 0,
            _ => self.height as u32,
        };
        (x, first as u32 + down)
    }

    /// The screen position of the score line: to the right of the first
    /// field's selection panel, and below that panel when there is more than
    /// one field.
    pub fn score_origin(&self, first: u16) -> (r: (u32, u32))
        ensures
            r.0 == self.origin(0, first as int).0 + self.width * 2 + 1,
            r.1 == self.origin(0, first as int).1 + if self.fields > 1 {
                self.width + 1
            } else {
                0
            },
    {
        let origin = self.panel_origin(0, first);
        let down: u32 = if self.fields > 1 {
            self.width as u32 + 1
        } else {
            0
        };
        (origin.0 + self.width as u32 * 2 + 1, origin.1 + down)
    }
}

/// The offset at which a piece of the given measure comes to lie along one
/// axis of a panel when `at` is asked for: `at`, or the largest offset at which
/// the piece ends inside the panel.
pub open spec fn clipped(at: int, piece: int, panel: int) -> int {
    if at + piece > panel {
        panel - piece
    } else {
        at
    }
}

/// The square selection panel of the given side, empty but for `shape`,
/// which is placed at `(x, y)` or as near to it as it fits, together with the
/// offset that was used. There is no such panel if the shape is larger than
/// the panel.
pub fn place_piece(side: usize, x: usize, y: usize, shape: &Desk) -> (r: Option<(Desk, usize, usize)>)
    ensures
        r is Some == (shape@.width <= side && shape@.height <= side),
        r matches Some(placed) ==> {
            &&& placed.1 == clipped(x as int, shape@.width as int, side as int)
            &&& placed.2 == clipped(y as int, shape@.height as int, side as int)
            &&& placed.0@ == Grid::empty(side as nat, side as nat).overlay(
                placed.1 as int,
                placed.2 as int,
                shape@,
            )
        },
{
    if shape.get_width() > side || shape.get_height() > side {
        return None;
    }
    let mut panel: Desk = Space::new(side, side);
    let at = panel.copy_in_with_bounds(x, y, shape.clone());
    Some((panel, at.0, at.1))
}

/// What follows from a command while a piece is being placed.
#[derive(Copy, Clone, PartialEq, Eq, Structural, Debug)]
pub enum Effect {
    /// The piece may have changed or moved: it is placed and drawn anew.
    Redraw,
    /// Nothing has changed.
    Wait,
    /// The piece is released into the fields.
    Release,
}

/// The piece being placed and the offset asked for it in the selection
/// panel.
pub struct Selection {
    pub shape: Desk,
    pub x: usize,
    pub y: usize,
}

impl Selection {
    /// What follows from `command`: a release ends the placing, a turn and
    /// a move to the right or down ask for a redraw, a move to the left or up
    /// asks for one if the offset has changed, and anything else lets the
    /// game wait.
    pub open spec fn effect_of(x: usize, y: usize, command: Command) -> Effect {
        match command {
            Command::Release => Effect::Release,
            Command::TurnClockwise | Command::TurnCounterclockwise => Effect::Redraw,
            Command::Right | Command::Down => Effect::Redraw,
            Command::Left | Command::Up => if nudged(x, y, command) != (x, y) {
                Effect::Redraw
            } else {
                Effect::Wait
            },
            Command::Ignore => Effect::Wait,
        }
    }

    /// The piece after `command`: turned by a quarter for a turn, else as it
    /// was.
    pub open spec fn shape_after(shape: Grid<(Colors, bool)>, command: Command) -> Grid<(Colors, bool)> {
        match command {
            Command::TurnClockwise => shape.rotated(Rotation::Clockwise, 1),
            Command::TurnCounterclockwise => shape.rotated(Rotation::Counterclockwise, 1),
            _ => shape,
        }
    }

    /// Carries out `command` on the piece and its offset, and tells what
    /// follows from it.
    pub fn apply(&mut self, command: Command) -> (effect: Effect)
        ensures
            effect == Selection::effect_of(old(self).x, old(self).y, command),
            final(self).shape@ == Selection::shape_after(old(self).shape@, command),
            (final(self).x, final(self).y) == nudged(old(self).x, old(self).y, command),
    {
        match command {
            Command::Release => Effect::Release,
            Command::TurnClockwise => {
                self.shape = self.shape.get_rotated(Rotation::Clockwise, 1);
                Effect::Redraw
            },
            Command::TurnCounterclockwise => {
                self.shape = self.shape.get_rotated(Rotation::Counterclockwise, 1);
                Effect::Redraw
            },
            Command::Ignore => Effect::Wait,
            _ => {
                let moved = nudge(self.x, self.y, command);
                self.x = moved.0;
                self.y = moved.1;
                match command {
                    Command::Right => Effect::Redraw,
                    Command::Down => Effect::Redraw,
                    _ => if moved.2 {
                        Effect::Redraw
                    } else {
                        Effect::Wait
                    },
                }
            },
        }
    }

    /// The selection panel of the given side with the piece placed at its
    /// offset, or as near to it as it fits; the offset then becomes the one
    /// that was used. There is no such panel, and the offset stays, if the
    /// piece is larger than the panel.
    pub fn place(&mut self, side: usize) -> (r: Option<Desk>)
        ensures
            final(self).shape@ == old(self).shape@,
            r is Some == (old(self).shape@.width <= side && old(self).shape@.height <= side),
            r is None ==> final(self).x == old(self).x && final(self).y == old(self).y,
            r matches Some(panel) ==> {
                &&& final(self).x == clipped(old(self).x as int, old(self).shape@.width as int, side as int)
                &&& final(self).y == clipped(old(self).y as int, old(self).shape@.height as int, side as int)
                &&& panel@ == Grid::empty(side as nat, side as nat).overlay(
                    final(self).x as int,
                    final(self).y as int,
                    old(self).shape@,
                )
            },
    {
        match place_piece(side, self.x, self.y, &self.shape) {
            Some(placed) => {
                self.x = placed.1;
                self.y = placed.2;
                Some(placed.0)
            },
            None => None,
        }
    }
}

/// Puts the selection panel into the top left corner of the field of the
/// given index, turned as that field asks. Nothing happens, and `false`
/// comes back, if the turned panel is larger than the field.
pub fn drop_into(desk: &mut Desk, selection: &Desk, index: usize) -> (fits: bool)
    ensures
        fits == old(desk)@.fits(
            0,
            0,
            selection@.rotated(Rotation::Counterclockwise, turns_of(index) as nat),
        ),
        fits ==> final(desk)@ == old(desk)@.overlay(
            0,
            0,
            selection@.rotated(Rotation::Counterclockwise, turns_of(index) as nat),
        ),
        !fits ==> final(desk)@ == old(desk)@,
{
    let turned = selection.get_rotated(Rotation::Counterclockwise, panel_turns(index));
    if turned.get_width() > desk.get_width() || turned.get_height() > desk.get_height() {
        return false;
    }
    desk.copy_in_with_bounds(0, 0, turned);
    true
}

/// The running score and the best score so far.
#[derive(Copy, Clone, PartialEq, Eq, Structural, Debug)]
pub struct Score {
    pub score: usize,
    pub max_score: usize,
}

impl Score {
    /// The score after a piece has settled: back to zero if a field has
    /// overflowed, else one more, and the best score follows.
    pub open spec fn after(self, overflowed: bool) -> Score {
        if overflowed {
            Score { score: 0, max_score: self.max_score }
        } else if self.score < usize::MAX {
            Score {
                score: (self.score + 1) as usize,
                max_score: if self.score + 1 > self.max_score {
                    (self.score + 1) as usize
                } else {
                    self.max_score
                },
            }
        } else {
            self
        }
    }

    /// A score of zero with no best score yet.
    pub fn new() -> (s: Score)
        ensures
            s == (Score { score: 0, max_score: 0 }),
    {
        Score { score: 0, max_score: 0 }
    }

    /// Records that a piece has settled.
    pub fn record(&mut self, overflowed: bool)
        ensures
            *final(self) == old(self).after(overflowed),
    {
        if overflowed {
            self.score = 0;
        } else if self.score < usize::MAX {
            self.score += 1;
            if self.score > self.max_score {
                self.max_score = self.score;
            }
        }
    }
}

} // verus!
