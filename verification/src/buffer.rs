//! The edit engine: the editor's state and the operations a key press
//! stands for.
//!
//! The state is the line buffer, the scroll offset `top` and the cursor,
//! kept as one value. Each operation takes the terminal's size, changes the
//! state, and returns what to send to the terminal so that the screen and
//! the terminal cursor follow ([`screen_follows`]). Between operations the
//! buffer has at least one line and the cursor is on an existing line,
//! within it or just behind its end ([`BufferContext::wf`]).

use vstd::prelude::*;
use crate::codec::{lemma_split_lines_nonempty, load, save, saved_bytes, split_lines};
use crate::lines::{
    content,
    insert_char,
    join_with_previous,
    insert_line,
    joined_at,
    remove_char,
    split_at,
    split_line,
};
use crate::render::{drawn, line_paint, repaint_line, repaint_window, window_paint, Draw, ScreenOp};
use crate::screen::{
    law_line_paint_keeps_window,
    law_place_keeps_cells,
    law_window_paint_shows,
    law_window_paint_then_place,
    lemma_then_place,
    Screen,
};
use crate::viewport::{
    clamp_top_for_downward_move,
    clamp_top_for_upward_move,
    least,
    resolve_vertical_target,
    Cursor,
    ScreenSize,
};

verus! {

/// The editing mode. It is a tag for the key dispatch around the library:
/// every operation here does the same in all three modes.
#[derive(Clone, Copy, Debug, PartialEq, Eq, Structural)]
pub enum BufferMode {
    Normal,
    Insert,
    Highlight,
}

/// A direction to move the cursor in.
#[derive(Clone, Copy, Debug, PartialEq, Eq, Structural)]
pub enum Direction {
    Left,
    Right,
    Up,
    Down,
}

/// The editor's state.
#[derive(Debug)]
pub struct BufferContext {
    /// The lines of the text.
    pub buffer: Vec<Vec<char>>,
    /// Where the cursor is on the screen.
    pub cursor: Cursor,
    /// The column last set on purpose, which vertical moves aim for.
    pub last_x: u16,
    /// The buffer line shown on screen row 0.
    pub top: usize,
    /// The editing mode.
    pub mode: BufferMode,
    /// The file the text belongs to.
    pub path: String,
}

/// The lines after `c` is typed before column `col` of line `line_index`.
pub open spec fn typed_at(lines: Seq<Seq<char>>, line_index: int, col: int, c: char) -> Seq<
    Seq<char>,
> {
    lines.update(line_index, lines[line_index].insert(col, c))
}

/// The lines after the character left of column `col` of line `line_index`
/// is rubbed out.
pub open spec fn erased_at(lines: Seq<Seq<char>>, line_index: int, col: int) -> Seq<Seq<char>> {
    lines.update(line_index, lines[line_index].remove(col - 1))
}

/// In a window that shows line `top` on row 0, `cursor` is on the text
/// `lines`: on an existing line, on one of its characters or just behind the
/// last.
pub open spec fn on_text(lines: Seq<Seq<char>>, top: usize, cursor: Cursor) -> bool {
    &&& top + cursor.screen_row < lines.len()
    &&& cursor.screen_col <= lines[top + cursor.screen_row].len()
}

/// The screen follows the edit: whatever screen mirrored the editor
/// `before`, after `ops` are carried out on it, it mirrors the editor
/// `after`.
pub open spec fn screen_follows(
    before: &BufferContext,
    after: &BufferContext,
    ops: Seq<ScreenOp>,
    size: ScreenSize,
) -> bool {
    forall|s: Screen| #[trigger] s.mirrors(before, size) ==> s.run(drawn(ops)).mirrors(after, size)
}

/// Rubbing out a character right after typing it gives back the lines as
/// they were.
pub proof fn law_type_then_erase(lines: Seq<Seq<char>>, line_index: int, col: int, c: char)
    requires
        0 <= line_index < lines.len(),
        0 <= col <= lines[line_index].len(),
    ensures
        erased_at(typed_at(lines, line_index, col, c), line_index, col + 1) == lines,
{
    assert(lines[line_index].insert(col, c).remove(col) =~= lines[line_index]);
    assert(erased_at(typed_at(lines, line_index, col, c), line_index, col + 1) =~= lines);
}

impl BufferContext {
    /// The text: the lines of the buffer.
    pub open spec fn lines(&self) -> Seq<Seq<char>> {
        content(&self.buffer)
    }

    /// The index of the line under the cursor.
    pub open spec fn line_index(&self) -> int {
        self.top + self.cursor.screen_row
    }

    /// The state is well formed: the buffer has at least one line, and
    /// the cursor is on an existing line, on one of its characters or just
    /// behind the last.
    pub open spec fn wf(&self) -> bool {
        self.lines().len() >= 1 && on_text(self.lines(), self.top, self.cursor)
    }

    /// The state is well formed and its cursor lies inside a terminal of
    /// size `size`.
    pub open spec fn fits(&self, size: ScreenSize) -> bool {
        self.wf() && size.holds(self.cursor)
    }

    /// Mode and path are those of `other`.
    pub open spec fn same_file(&self, other: &BufferContext) -> bool {
        self.mode == other.mode && self.path == other.path
    }

    /// Scroll offset, cursor and remembered column are those of `other`.
    pub open spec fn same_place(&self, other: &BufferContext) -> bool {
        self.top == other.top && self.cursor == other.cursor && self.last_x == other.last_x
    }

    /// An editor for the file at `path`, before anything is loaded: one
    /// empty line, the cursor in the top left corner, insert mode.
    pub fn new(path: String) -> (context: BufferContext)
        ensures
            context.wf(),
            context.lines() == seq![Seq::<char>::empty()],
            context.top == 0,
            context.cursor == (Cursor { screen_col: 0, screen_row: 0 }),
            context.last_x == 0,
            context.mode == BufferMode::Insert,
            context.path == path,
    {
        let mut buffer: Vec<Vec<char>> = Vec::new();
        buffer.push(Vec::new());
        let context = BufferContext {
            buffer,
            cursor: Cursor { screen_col: 0, screen_row: 0 },
            last_x: 0,
            top: 0,
            mode: BufferMode::Insert,
            path,
        };
        assert(context.lines() =~= seq![Seq::<char>::empty()]);
        context
    }

    /// Whether the state is well formed.
    pub fn is_well_formed(&self) -> (ok: bool)
        ensures
            ok == self.wf(),
    {
        let count = self.buffer.len();
        let row = self.cursor.screen_row as usize;
        if self.top >= count || row >= count - self.top {
            return false;
        }
        self.cursor.screen_col as usize <= self.buffer[self.top + row].len()
    }

    /// Whether the state is well formed and its cursor lies inside a
    /// terminal of size `size`: what every editing operation asks for.
    pub fn fits_in(&self, size: ScreenSize) -> (ok: bool)
        ensures
            ok == self.fits(size),
    {
        self.is_well_formed() && self.cursor.screen_col < size.width && self.cursor.screen_row
            < size.height
    }

    /// The path of the file to load: `path_opt` where one is given, else
    /// the editor's own path.
    pub fn source_path(&self, path_opt: Option<String>) -> (path: String)
        ensures
            path == match path_opt {
                Some(given) => given,
                None => self.path,
            },
    {
        match path_opt {
            Some(given) => given,
            None => self.path.clone(),
        }
    }

    /// Takes the text of the file as the buffer: `content` is what was read
    /// from the file, or `None` when the file is missing or cannot be read
    /// as text, which gives one empty line. Nothing else changes, unless
    /// the cursor is no longer on the text: then it goes to the top left
    /// corner of an unscrolled window.
    pub fn read_file(&mut self, content: Option<&str>)
        ensures
            final(self).wf(),
            final(self).lines() == match content {
                Some(text) => split_lines(text@),
                None => seq![Seq::<char>::empty()],
            },
            final(self).last_x == old(self).last_x,
            final(self).same_file(old(self)),
            if on_text(final(self).lines(), old(self).top, old(self).cursor) {
                final(self).top == old(self).top && final(self).cursor == old(self).cursor
            } else {
                final(self).top == 0 && final(self).cursor == (Cursor {
                    screen_col: 0,
                    screen_row: 0,
                })
            },
    {
        match content {
            Some(text) => {
                proof {
                    lemma_split_lines_nonempty(text@);
                }
                self.buffer = load(text);
            },
            None => {
                let mut buffer: Vec<Vec<char>> = Vec::new();
                buffer.push(Vec::new());
                self.buffer = buffer;
                assert(self.lines() =~= seq![Seq::<char>::empty()]);
            },
        }
        if !self.is_well_formed() {
            self.top = 0;
            self.cursor = Cursor { screen_col: 0, screen_row: 0 };
        }
    }

    /// The bytes to write to the file: each line in UTF-8 followed by a
    /// newline byte, but for an empty last line, which adds nothing.
    pub fn write_buf_to_file(&self) -> (bytes: Vec<u8>)
        ensures
            bytes@ == saved_bytes(self.lines()),
    {
        save(&self.buffer)
    }

    /// What repaints the whole window with line `from_row` on screen row 0;
    /// a `from_row` past the last line counts as 0. The terminal cursor is
    /// left wherever the last write ends.
    pub fn write_buf_to_screen(&self, from_row: usize, size: ScreenSize) -> (ops: Vec<ScreenOp>)
        ensures
            drawn(ops@) == window_paint(
                self.lines(),
                if from_row >= self.lines().len() {
                    0
                } else {
                    from_row as int
                },
                size.width as int,
                size.height as int,
            ),
            forall|s: Screen|
                s.sized(size) ==> (#[trigger] s.run(drawn(ops@))).shows(
                    self.lines(),
                    if from_row >= self.lines().len() {
                        0
                    } else {
                        from_row as int
                    },
                ),
    {
        let first = if from_row >= self.buffer.len() {
            0
        } else {
            from_row
        };
        let mut ops: Vec<ScreenOp> = Vec::new();
        repaint_window(&mut ops, &self.buffer, first, size);
        assert(drawn(ops@) =~= window_paint(
            self.lines(),
            first as int,
            size.width as int,
            size.height as int,
        ));
        assert forall|s: Screen| s.sized(size) implies (#[trigger] s.run(drawn(ops@))).shows(
            self.lines(),
            first as int,
        ) by {
            law_window_paint_shows(s, self.lines(), first as int);
        }
        ops
    }

    /// Types `c` at the cursor.
    ///
    /// Left of the last column of the window, `c` is inserted into the line
    /// under the cursor, the cursor moves one column right, and the line is
    /// repainted from column 0.
    ///
    /// In the last column `c` starts a new line instead: a line that holds
    /// `c` alone is put below the line under the cursor, which stays as it
    /// is, as do all other lines. The cursor moves behind `c` on the new
    /// line, one screen row down; on the last row of the window the window
    /// scrolls down one line and the cursor keeps its row. The whole window
    /// is repainted.
    pub fn write_char(&mut self, c: char, size: ScreenSize) -> (ops: Vec<ScreenOp>)
        requires
            old(self).fits(size),
        ensures
            final(self).fits(size),
            final(self).same_file(old(self)),
            final(self).last_x == final(self).cursor.screen_col,
            old(self).cursor.screen_col + 1 < size.width ==> {
                &&& final(self).lines() == typed_at(
                    old(self).lines(),
                    old(self).line_index(),
                    old(self).cursor.screen_col as int,
                    c,
                )
                &&& final(self).top == old(self).top
                &&& final(self).cursor == (Cursor {
                    screen_col: (old(self).cursor.screen_col + 1) as u16,
                    screen_row: old(self).cursor.screen_row,
                })
                &&& drawn(ops@) == line_paint(
                    final(self).lines()[final(self).line_index()],
                    0,
                    final(self).cursor.screen_row as int,
                    size.width as int,
                ).push(placing(final(self).cursor))
            },
            old(self).cursor.screen_col + 1 >= size.width ==> {
                &&& final(self).lines() == old(self).lines().insert(
                    old(self).line_index() + 1,
                    seq![c],
                )
                &&& final(self).top == stepped_down(old(self).top, old(self).cursor, size)
                &&& final(self).cursor == (Cursor {
                    screen_col: least(1, size.width - 1) as u16,
                    screen_row: row_below(old(self).cursor, size),
                })
                &&& drawn(ops@) == window_paint(
                    final(self).lines(),
                    final(self).top as int,
                    size.width as int,
                    size.height as int,
                ).push(placing(final(self).cursor))
            },
            screen_follows(old(self), final(self), ops@, size),
    {
        let x = self.cursor.screen_col;
        let y = self.cursor.screen_row;
        let count = self.buffer.len();
        let buffer_y = self.top + y as usize;
        let mut ops: Vec<ScreenOp> = Vec::new();
        if x < size.width - 1 {
            insert_char(&mut self.buffer, buffer_y, x as usize, c);
            self.cursor = Cursor { screen_col: x + 1, screen_row: y };
            assert(self.lines().len() == self.buffer@.len());
            repaint_line(&mut ops, &self.buffer[buffer_y], 0, y, size.width);
            place(&mut ops, self.cursor);
            assert(drawn(ops@) =~= line_paint(
                self.lines()[self.line_index()],
                0,
                y as int,
                size.width as int,
            ).push(placing(self.cursor)));
            assert forall|s: Screen| #[trigger] s.mirrors(old(self), size) implies s.run(
                drawn(ops@),
            ).mirrors(self, size) by {
                law_line_paint_keeps_window(
                    s,
                    old(self).lines(),
                    self.lines(),
                    self.top as int,
                    y as int,
                    0,
                );
                lemma_then_place(
                    s,
                    line_paint(self.lines()[self.line_index()], 0, y as int, size.width as int),
                    self.cursor.screen_col as int,
                    y as int,
                );
            }
        } else {
            let mut line: Vec<char> = Vec::new();
            line.push(c);
            assert(line@ =~= seq![c]);
            insert_line(&mut self.buffer, buffer_y + 1, line);
            self.step_down(if size.width > 1 {
                1
            } else {
                0
            }, size);
            self.paint_window_and_place(&mut ops, size);
            assert forall|s: Screen| #[trigger] s.mirrors(old(self), size) implies s.run(
                drawn(ops@),
            ).mirrors(self, size) by {
                law_window_paint_then_place(
                    s,
                    self.lines(),
                    self.top as int,
                    self.cursor.screen_col as int,
                    self.cursor.screen_row as int,
                );
            }
        }
        self.last_x = self.cursor.screen_col;
        ops
    }

    /// Rubs out the character left of the cursor.
    ///
    /// Right of column 0 the character is removed, the line is repainted
    /// from where it stood, and the cursor moves one column left. In column
    /// 0 of any line but the first, the line is joined to the end of the
    /// line above; the cursor moves to where the two meet, or to the last
    /// column of the window where they meet further right, one screen row
    /// up, or stays on row 0 while the window scrolls up one line; the whole
    /// window is repainted. In column 0 of the first line nothing happens.
    pub fn delete_char(&mut self, size: ScreenSize) -> (ops: Vec<ScreenOp>)
        requires
            old(self).fits(size),
        ensures
            final(self).fits(size),
            final(self).same_file(old(self)),
            final(self).last_x == final(self).cursor.screen_col,
            old(self).cursor.screen_col > 0 ==> {
                &&& final(self).lines() == erased_at(
                    old(self).lines(),
                    old(self).line_index(),
                    old(self).cursor.screen_col as int,
                )
                &&& final(self).top == old(self).top
                &&& final(self).cursor == (Cursor {
                    screen_col: (old(self).cursor.screen_col - 1) as u16,
                    screen_row: old(self).cursor.screen_row,
                })
                &&& drawn(ops@) == line_paint(
                    final(self).lines()[final(self).line_index()],
                    final(self).cursor.screen_col as int,
                    final(self).cursor.screen_row as int,
                    size.width as int,
                ).push(
                    Draw::MoveTo {
                        col: final(self).cursor.screen_col as int,
                        row: final(self).cursor.screen_row as int,
                    },
                )
            },
            old(self).cursor.screen_col == 0 && old(self).line_index() > 0 ==> {
                &&& final(self).lines() == joined_at(old(self).lines(), old(self).line_index())
                &&& final(self).line_index() == old(self).line_index() - 1
                &&& final(self).top == if old(self).cursor.screen_row == 0 {
                    old(self).top - 1
                } else {
                    old(self).top as int
                }
                &&& final(self).cursor.screen_col == least(
                    old(self).lines()[old(self).line_index() - 1].len() as int,
                    size.width - 1,
                )
                &&& drawn(ops@) == window_paint(
                    final(self).lines(),
                    final(self).top as int,
                    size.width as int,
                    size.height as int,
                ).push(
                    Draw::MoveTo {
                        col: final(self).cursor.screen_col as int,
                        row: final(self).cursor.screen_row as int,
                    },
                )
            },
            old(self).cursor.screen_col == 0 && old(self).line_index() == 0 ==> {
                &&& final(self).lines() == old(self).lines()
                &&& final(self).top == old(self).top
                &&& final(self).cursor == old(self).cursor
                &&& ops@.len() == 0
            },
            screen_follows(old(self), final(self), ops@, size),
    {
        let x = self.cursor.screen_col;
        let y = self.cursor.screen_row;
        let count = self.buffer.len();
        let buffer_y = self.top + y as usize;
        let mut ops: Vec<ScreenOp> = Vec::new();
        if x > 0 {
            remove_char(&mut self.buffer, buffer_y, (x - 1) as usize);
            self.cursor = Cursor { screen_col: x - 1, screen_row: y };
            assert(self.lines().len() == self.buffer@.len());
            repaint_line(&mut ops, &self.buffer[buffer_y], x - 1, y, size.width);
            ops.push(ScreenOp::MoveTo { col: x - 1, row: y });
            assert(drawn(ops@) =~= line_paint(
                self.lines()[self.line_index()],
                (x - 1) as int,
                y as int,
                size.width as int,
            ).push(Draw::MoveTo { col: (x - 1) as int, row: y as int }));
            assert forall|s: Screen| #[trigger] s.mirrors(old(self), size) implies s.run(
                drawn(ops@),
            ).mirrors(self, size) by {
                law_line_paint_keeps_window(
                    s,
                    old(self).lines(),
                    self.lines(),
                    self.top as int,
                    y as int,
                    (x - 1) as int,
                );
                lemma_then_place(
                    s,
                    line_paint(
                        self.lines()[self.line_index()],
                        (x - 1) as int,
                        y as int,
                        size.width as int,
                    ),
                    (x - 1) as int,
                    y as int,
                );
            }
        } else if buffer_y > 0 {
            let join_col = self.buffer[buffer_y - 1].len();
            join_with_previous(&mut self.buffer, buffer_y);
            self.top = clamp_top_for_upward_move(self.top, y);
            let row = if y > 0 {
                y - 1
            } else {
                0
            };
            self.cursor = size.confine(join_col, row as usize);
            repaint_window(&mut ops, &self.buffer, self.top, size);
            ops.push(ScreenOp::MoveTo { col: self.cursor.screen_col, row: self.cursor.screen_row });
            assert(drawn(ops@) =~= window_paint(
                self.lines(),
                self.top as int,
                size.width as int,
                size.height as int,
            ).push(
                Draw::MoveTo {
                    col: self.cursor.screen_col as int,
                    row: self.cursor.screen_row as int,
                },
            ));
            assert forall|s: Screen| #[trigger] s.mirrors(old(self), size) implies s.run(
                drawn(ops@),
            ).mirrors(self, size) by {
                law_window_paint_then_place(
                    s,
                    self.lines(),
                    self.top as int,
                    self.cursor.screen_col as int,
                    self.cursor.screen_row as int,
                );
            }
        } else {
            assert(drawn(ops@) =~= Seq::<Draw>::empty());
        }
        self.last_x = self.cursor.screen_col;
        ops
    }

    /// Breaks the line under the cursor in two before the cursor's column.
    /// The cursor moves to column 0 of the second part, one screen row
    /// down; on the last row of the window the window scrolls down one line
    /// and the cursor keeps its row. The whole window is repainted.
    pub fn insert_line_break(&mut self, size: ScreenSize) -> (ops: Vec<ScreenOp>)
        requires
            old(self).fits(size),
        ensures
            final(self).fits(size),
            final(self).same_file(old(self)),
            final(self).last_x == old(self).last_x,
            final(self).lines() == split_at(
                old(self).lines(),
                old(self).line_index(),
                old(self).cursor.screen_col as int,
            ),
            final(self).top == stepped_down(old(self).top, old(self).cursor, size),
            final(self).cursor == (Cursor {
                screen_col: 0,
                screen_row: row_below(old(self).cursor, size),
            }),
            drawn(ops@) == window_paint(
                final(self).lines(),
                final(self).top as int,
                size.width as int,
                size.height as int,
            ).push(placing(final(self).cursor)),
            screen_follows(old(self), final(self), ops@, size),
    {
        let x = self.cursor.screen_col;
        let y = self.cursor.screen_row;
        let count = self.buffer.len();
        let buffer_y = self.top + y as usize;
        split_line(&mut self.buffer, buffer_y, x as usize);
        self.step_down(0, size);
        let mut ops: Vec<ScreenOp> = Vec::new();
        self.paint_window_and_place(&mut ops, size);
        assert forall|s: Screen| #[trigger] s.mirrors(old(self), size) implies s.run(
            drawn(ops@),
        ).mirrors(self, size) by {
            law_window_paint_then_place(
                s,
                self.lines(),
                self.top as int,
                0,
                self.cursor.screen_row as int,
            );
        }
        ops
    }

    /// Moves the cursor to column `col` of the next line: one screen row
    /// down, or on the same row of a window scrolled down one line where
    /// the cursor is on the last row.
    fn step_down(&mut self, col: u16, size: ScreenSize)
        requires
            size.holds(old(self).cursor),
            col < size.width,
            old(self).line_index() + 1 < old(self).lines().len(),
        ensures
            final(self).buffer == old(self).buffer,
            final(self).same_file(old(self)),
            final(self).last_x == old(self).last_x,
            final(self).top == stepped_down(old(self).top, old(self).cursor, size),
            final(self).cursor == (Cursor {
                screen_col: col,
                screen_row: row_below(old(self).cursor, size),
            }),
            final(self).line_index() == old(self).line_index() + 1,
    {
        let count = self.buffer.len();
        let y = self.cursor.screen_row;
        let new_top = clamp_top_for_downward_move(self.top, y, size.height);
        let row = if new_top == self.top {
            y + 1
        } else {
            y
        };
        self.top = new_top;
        self.cursor = Cursor { screen_col: col, screen_row: row };
    }

    /// Appends to `ops` what repaints the whole window and then puts the
    /// terminal cursor where the editor's cursor is.
    fn paint_window_and_place(&self, ops: &mut Vec<ScreenOp>, size: ScreenSize)
        ensures
            drawn(final(ops)@) == drawn(old(ops)@) + window_paint(
                self.lines(),
                self.top as int,
                size.width as int,
                size.height as int,
            ).push(placing(self.cursor)),
    {
        repaint_window(ops, &self.buffer, self.top, size);
        place(ops, self.cursor);
        assert(drawn(ops@) =~= drawn(old(ops)@) + window_paint(
            self.lines(),
            self.top as int,
            size.width as int,
            size.height as int,
        ).push(placing(self.cursor)));
    }
}

/// Moves the cursor one step in `direction`.
///
/// Left and right stay within the line and set the remembered column.
/// Up and down go to the line above or below, to the remembered column or
/// to the end of that line where it is shorter. A step up from screen row 0,
/// or down from the last row of the window, scrolls the window by one line
/// and repaints it; the cursor keeps its screen row. The cursor stays
/// inside the window: a target past the last column puts it in the last
/// column. Where there is nowhere to go, nothing happens.
pub fn movement(direction: Direction, context: &mut BufferContext, size: ScreenSize) -> (ops: Vec<
    ScreenOp,
>)
    requires
        old(context).fits(size),
    ensures
        final(context).fits(size),
        final(context).same_file(old(context)),
        final(context).lines() == old(context).lines(),
        screen_follows(old(context), final(context), ops@, size),
        match direction {
            Direction::Left => if old(context).cursor.screen_col > 0 {
                &&& final(context).top == old(context).top
                &&& final(context).cursor == (Cursor {
                    screen_col: (old(context).cursor.screen_col - 1) as u16,
                    screen_row: old(context).cursor.screen_row,
                })
                &&& final(context).last_x == old(context).cursor.screen_col - 1
                &&& drawn(ops@) == seq![placing(final(context).cursor)]
            } else {
                final(context).same_place(old(context)) && ops@.len() == 0
            },
            Direction::Right => if old(context).cursor.screen_col < old(context).lines()[old(
                context,
            ).line_index()].len() {
                &&& final(context).top == old(context).top
                &&& final(context).cursor == size.confined(
                    old(context).cursor.screen_col + 1,
                    old(context).cursor.screen_row as int,
                )
                &&& final(context).last_x == old(context).cursor.screen_col + 1
                &&& drawn(ops@) == seq![placing(final(context).cursor)]
            } else {
                final(context).same_place(old(context)) && ops@.len() == 0
            },
            Direction::Up => if old(context).line_index() > 0 {
                &&& final(context).line_index() == old(context).line_index() - 1
                &&& final(context).cursor.screen_col == least(
                    landing_col(old(context).last_x, final(context).lines()[final(context).line_index()]),
                    size.width - 1,
                )
                &&& final(context).last_x == old(context).last_x
                &&& if old(context).cursor.screen_row > 0 {
                    &&& final(context).top == old(context).top
                    &&& drawn(ops@) == seq![placing(final(context).cursor)]
                } else {
                    &&& final(context).top == old(context).top - 1
                    &&& drawn(ops@) == window_paint(
                        final(context).lines(),
                        final(context).top as int,
                        size.width as int,
                        size.height as int,
                    ).push(placing(final(context).cursor))
                }
            } else {
                final(context).same_place(old(context)) && ops@.len() == 0
            },
            Direction::Down => if old(context).line_index() + 1 < old(context).lines().len() {
                &&& final(context).line_index() == old(context).line_index() + 1
                &&& final(context).cursor.screen_col == least(
                    landing_col(old(context).last_x, final(context).lines()[final(context).line_index()]),
                    size.width - 1,
                )
                &&& final(context).last_x == old(context).last_x
                &&& if old(context).cursor.screen_row + 1 < size.height {
                    &&& final(context).top == old(context).top
                    &&& drawn(ops@) == seq![placing(final(context).cursor)]
                } else {
                    &&& final(context).top == old(context).top + 1
                    &&& drawn(ops@) == window_paint(
                        final(context).lines(),
                        final(context).top as int,
                        size.width as int,
                        size.height as int,
                    ).push(placing(final(context).cursor))
                }
            } else {
                final(context).same_place(old(context)) && ops@.len() == 0
            },
        },
{
    let x = context.cursor.screen_col;
    let y = context.cursor.screen_row;
    let count = context.buffer.len();
    let buffer_y = context.top + y as usize;
    let mut ops: Vec<ScreenOp> = Vec::new();
    match direction {
        Direction::Left => {
            if x > 0 {
                context.cursor = Cursor { screen_col: x - 1, screen_row: y };
                context.last_x = x - 1;
                place(&mut ops, context.cursor);
            }
        },
        Direction::Right => {
            if context.buffer[buffer_y].len() > x as usize {
                context.cursor = size.confine(x as usize + 1, y as usize);
                context.last_x = x + 1;
                place(&mut ops, context.cursor);
            }
        },
        Direction::Up => {
            if buffer_y > 0 {
                let col = resolve_vertical_target(context.last_x, context.buffer[buffer_y - 1].len());
                let new_top = clamp_top_for_upward_move(context.top, y);
                if new_top == context.top {
                    context.cursor = size.confine(col as usize, (y - 1) as usize);
                } else {
                    context.top = new_top;
                    context.cursor = size.confine(col as usize, y as usize);
                    repaint_window(&mut ops, &context.buffer, context.top, size);
                }
                place(&mut ops, context.cursor);
            }
        },
        Direction::Down => {
            if buffer_y + 1 < count {
                let col = resolve_vertical_target(context.last_x, context.buffer[buffer_y + 1].len());
                let new_top = clamp_top_for_downward_move(context.top, y, size.height);
                if new_top == context.top {
                    context.cursor = size.confine(col as usize, y as usize + 1);
                } else {
                    context.top = new_top;
                    context.cursor = size.confine(col as usize, y as usize);
                    repaint_window(&mut ops, &context.buffer, context.top, size);
                }
                place(&mut ops, context.cursor);
            }
        },
    }
    proof {
        let scrolled = context.top != old(context).top;
        let moved = ops@.len() > 0;
        if !moved {
            assert(drawn(ops@) =~= Seq::<Draw>::empty());
        }
        assert forall|s: Screen| #[trigger] s.mirrors(old(context), size) implies s.run(
            drawn(ops@),
        ).mirrors(context, size) by {
            if scrolled {
                law_window_paint_then_place(
                    s,
                    context.lines(),
                    context.top as int,
                    context.cursor.screen_col as int,
                    context.cursor.screen_row as int,
                );
            } else if moved {
                assert(drawn(ops@) =~= seq![placing(context.cursor)]);
                law_place_keeps_cells(
                    s,
                    context.cursor.screen_col as int,
                    context.cursor.screen_row as int,
                );
            }
        }
    }
    ops
}

/// The scroll offset after a step down to the next line from `cursor`: one
/// more where the cursor is on the last row of the window.
pub open spec fn stepped_down(top: usize, cursor: Cursor, size: ScreenSize) -> int {
    if cursor.screen_row + 1 < size.height {
        top as int
    } else {
        top + 1
    }
}

/// The screen row after a step down to the next line from `cursor`: the
/// next row, or the same row where the cursor is on the last row of the
/// window, which then scrolls.
pub open spec fn row_below(cursor: Cursor, size: ScreenSize) -> u16 {
    if cursor.screen_row + 1 < size.height {
        (cursor.screen_row + 1) as u16
    } else {
        cursor.screen_row
    }
}

/// Sending the terminal cursor to `cursor`.
pub open spec fn placing(cursor: Cursor) -> Draw {
    Draw::MoveTo { col: cursor.screen_col as int, row: cursor.screen_row as int }
}

/// The column a vertical move lands on in `line`: the remembered column, or
/// the end of the line where the line is shorter.
pub open spec fn landing_col(last_x: u16, line: Seq<char>) -> int {
    least(last_x as int, line.len() as int)
}

/// Appends to `ops` the move of the terminal cursor to `cursor`.
fn place(ops: &mut Vec<ScreenOp>, cursor: Cursor)
    ensures
        drawn(final(ops)@) == drawn(old(ops)@).push(placing(cursor)),
{
    ops.push(ScreenOp::MoveTo { col: cursor.screen_col, row: cursor.screen_row });
    assert(drawn(ops@) =~= drawn(old(ops)@).push(placing(cursor)));
}

} // verus!
