//! The viewport mapper: screen rows against buffer lines under a scroll
//! offset `top`, the buffer line shown on screen row 0.
//!
//! The line under screen row `r` is line `top + r`. Scrolling moves the
//! window by exactly one line per step.

use vstd::prelude::*;

verus! {

/// Width and height of the terminal, in cells.
#[derive(Clone, Copy, Debug, PartialEq, Eq, Structural)]
pub struct ScreenSize {
    pub width: u16,
    pub height: u16,
}

/// A position on the screen: column and row, both counted from zero.
#[derive(Clone, Copy, Debug, PartialEq, Eq, Structural)]
pub struct Cursor {
    pub screen_col: u16,
    pub screen_row: u16,
}

/// The smaller of two numbers.
pub open spec fn least(a: int, b: int) -> int {
    if a <= b {
        a
    } else {
        b
    }
}

impl ScreenSize {
    /// The terminal has at least one cell.
    pub open spec fn positive(&self) -> bool {
        self.width >= 1 && self.height >= 1
    }

    /// `cursor` lies inside the terminal.
    pub open spec fn holds(&self, cursor: Cursor) -> bool {
        cursor.screen_col < self.width && cursor.screen_row < self.height
    }

    /// Where the terminal cursor comes to rest when sent to (`col`, `row`):
    /// a terminal keeps its cursor inside the window, so a coordinate past
    /// the last column or row stops there.
    pub open spec fn confined(&self, col: int, row: int) -> Cursor {
        Cursor {
            screen_col: least(col, self.width - 1) as u16,
            screen_row: least(row, self.height - 1) as u16,
        }
    }

    /// Computes [`Self::confined`].
    pub fn confine(&self, col: usize, row: usize) -> (cursor: Cursor)
        requires
            self.positive(),
        ensures
            cursor == self.confined(col as int, row as int),
            self.holds(cursor),
    {
        let last_col: u16 = self.width - 1;
        let last_row: u16 = self.height - 1;
        Cursor {
            screen_col: if col <= last_col as usize {
                col as u16
            } else {
                last_col
            },
            screen_row: if row <= last_row as usize {
                row as u16
            } else {
                last_row
            },
        }
    }
}

/// The scroll offset after the cursor on `screen_row` is asked to move up:
/// on row 0 the window scrolls up by one line, unless it already shows the
/// first line; on any other row the window stays.
pub fn clamp_top_for_upward_move(top: usize, screen_row: u16) -> (new_top: usize)
    ensures
        new_top == if screen_row == 0 && top > 0 {
            top - 1
        } else {
            top as int
        },
{
    if screen_row == 0 && top > 0 {
        top - 1
    } else {
        top
    }
}

/// The scroll offset after the cursor on `screen_row` is asked to move
/// down: on the last row of the window the window scrolls down by one line;
/// on any other row the window stays.
pub fn clamp_top_for_downward_move(top: usize, screen_row: u16, terminal_height: u16) -> (new_top:
    usize)
    requires
        top < usize::MAX,
    ensures
        new_top == if screen_row + 1 == terminal_height {
            top + 1
        } else {
            top as int
        },
{
    if terminal_height > 0 && screen_row == terminal_height - 1 {
        top + 1
    } else {
        top
    }
}

/// The column a vertical move lands on: the remembered column, or the end
/// of the target line where that line is shorter.
pub fn resolve_vertical_target(remembered_column: u16, target_line_length: usize) -> (target_col:
    u16)
    ensures
        target_col == least(remembered_column as int, target_line_length as int),
{
    if remembered_column as usize > target_line_length {
        target_line_length as u16
    } else {
        remembered_column
    }
}

} // verus!
