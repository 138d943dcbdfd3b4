//! The renderer: what to send to the terminal to repaint one line or the
//! whole window.
//!
//! The terminal is addressed by absolute coordinates and erases nothing by
//! itself, so every repaint blanks the cells it covers before it writes.
//! Text is written in full, as UTF-8; a line longer than the window is not
//! cut short here.

use vstd::prelude::*;
use vstd::utf8::*;
use crate::encoding::{blank, line_tail, push_line_tail};
use crate::lines::content;
use crate::viewport::ScreenSize;

verus! {

/// One instruction for the terminal.
#[derive(Debug, PartialEq, Eq)]
pub enum ScreenOp {
    /// Move the terminal cursor to column `col` of row `row`.
    MoveTo { col: u16, row: u16 },
    /// Write `bytes` at the terminal cursor.
    Write { bytes: Vec<u8> },
}

/// What a [`ScreenOp`] says, as a mathematical value.
pub enum Draw {
    MoveTo { col: int, row: int },
    Write { bytes: Seq<u8> },
}

impl View for ScreenOp {
    type V = Draw;

    open spec fn view(&self) -> Draw {
        match self {
            ScreenOp::MoveTo { col, row } => Draw::MoveTo { col: *col as int, row: *row as int },
            ScreenOp::Write { bytes } => Draw::Write { bytes: bytes@ },
        }
    }
}

/// The instructions in `ops`, in order.
pub open spec fn drawn(ops: Seq<ScreenOp>) -> Seq<Draw> {
    Seq::new(ops.len(), |i: int| ops[i]@)
}

/// Repainting one line on screen row `row` from column `from` on: go to
/// (`from`, `row`), blank the cells up to the right edge, go back, write
/// the line's characters from column `from` on.
pub open spec fn line_paint(line: Seq<char>, from: int, row: int, width: int) -> Seq<Draw> {
    seq![
        Draw::MoveTo { col: from, row: row },
        Draw::Write { bytes: blank(width - from) },
        Draw::MoveTo { col: from, row: row },
        Draw::Write { bytes: encode_utf8(line_tail(line, from)) },
    ]
}

/// Blanking screen row `row`: go to its first cell and write `width` spaces.
pub open spec fn blank_row(row: int, width: int) -> Seq<Draw> {
    seq![Draw::MoveTo { col: 0, row: row }, Draw::Write { bytes: blank(width) }]
}

/// Blanking the screen rows `from..to`, top to bottom.
pub open spec fn blank_rows(from: int, to: int, width: int) -> Seq<Draw>
    decreases to - from,
{
    if to <= from {
        Seq::empty()
    } else {
        blank_rows(from, to - 1, width) + blank_row(to - 1, width)
    }
}

/// Repainting screen row `row` of a window whose row 0 shows line `top`:
/// the line under the row is repainted from column 0; a row below the last
/// line is blanked.
pub open spec fn row_paint(lines: Seq<Seq<char>>, top: int, row: int, width: int) -> Seq<Draw> {
    if top + row < lines.len() {
        line_paint(lines[top + row], 0, row, width)
    } else {
        blank_row(row, width)
    }
}

/// Repainting the screen rows `from..to`, top to bottom.
pub open spec fn rows_paint(lines: Seq<Seq<char>>, top: int, from: int, to: int, width: int) -> Seq<
    Draw,
>
    decreases to - from,
{
    if to <= from {
        Seq::empty()
    } else {
        rows_paint(lines, top, from, to - 1, width) + row_paint(lines, top, to - 1, width)
    }
}

/// Repainting the whole window: every screen row, top to bottom.
pub open spec fn window_paint(lines: Seq<Seq<char>>, top: int, width: int, height: int) -> Seq<
    Draw,
> {
    rows_paint(lines, top, 0, height, width)
}

/// Below the last line, repainting rows is blanking them.
pub proof fn lemma_rows_below_text(lines: Seq<Seq<char>>, top: int, from: int, to: int, width: int)
    requires
        top + from >= lines.len(),
    ensures
        rows_paint(lines, top, from, to, width) == blank_rows(from, to, width),
    decreases to - from,
{
    if to > from {
        lemma_rows_below_text(lines, top, from, to - 1, width);
    }
}

/// Repainting rows `from..to` is repainting `from..mid`, then `mid..to`.
pub proof fn lemma_rows_paint_split(
    lines: Seq<Seq<char>>,
    top: int,
    from: int,
    mid: int,
    to: int,
    width: int,
)
    requires
        from <= mid <= to,
    ensures
        rows_paint(lines, top, from, to, width) == rows_paint(lines, top, from, mid, width)
            + rows_paint(lines, top, mid, to, width),
    decreases to - mid,
{
    if to == mid {
        assert(rows_paint(lines, top, from, mid, width) + Seq::<Draw>::empty() =~= rows_paint(
            lines,
            top,
            from,
            mid,
            width,
        ));
    } else {
        lemma_rows_paint_split(lines, top, from, mid, to - 1, width);
        assert(rows_paint(lines, top, from, to, width) =~= rows_paint(lines, top, from, mid, width)
            + rows_paint(lines, top, mid, to, width));
    }
}

/// The bytes that blank the columns `from..width` of a row: one space for
/// each; none when `from` is at or past `width`.
pub fn clear_ln(from: usize, width: u16) -> (bytes: Vec<u8>)
    ensures
        bytes@ == blank(width - from),
{
    let mut bytes: Vec<u8> = Vec::new();
    let mut col: usize = from;
    while col < width as usize
        invariant
            from <= col,
            col <= width || col == from,
            bytes@ == blank(col - from),
        decreases width - col,
    {
        bytes.push(0x20u8);
        col = col + 1;
        assert(bytes@ =~= blank(col - from));
    }
    assert(bytes@ =~= blank(width - from));
    bytes
}

/// The UTF-8 bytes of `line` from column `from` on; none when `from` is
/// past the end of the line.
pub fn write_ln(line: &Vec<char>, from: usize) -> (bytes: Vec<u8>)
    ensures
        bytes@ == encode_utf8(line_tail(line@, from as int)),
{
    let mut bytes: Vec<u8> = Vec::new();
    push_line_tail(&mut bytes, line, from);
    assert(bytes@ =~= encode_utf8(line_tail(line@, from as int)));
    bytes
}

/// Appends to `ops` what blanks the screen rows from `from` down to the
/// last row of the terminal.
pub fn clear_screen(ops: &mut Vec<ScreenOp>, from: usize, size: ScreenSize)
    ensures
        drawn(final(ops)@) == drawn(old(ops)@) + blank_rows(
            from as int,
            size.height as int,
            size.width as int,
        ),
{
    let mut row: usize = from;
    assert(drawn(ops@) =~= drawn(old(ops)@) + blank_rows(from as int, from as int, size.width as int));
    while row < size.height as usize
        invariant
            from <= row,
            row <= size.height || row == from,
            drawn(ops@) == drawn(old(ops)@) + blank_rows(from as int, row as int, size.width as int),
        decreases size.height - row,
    {
        let ghost before = ops@;
        ops.push(ScreenOp::MoveTo { col: 0, row: row as u16 });
        ops.push(ScreenOp::Write { bytes: clear_ln(0, size.width) });
        row = row + 1;
        assert(drawn(ops@) =~= drawn(before) + blank_row(row - 1, size.width as int));
        assert(drawn(ops@) =~= drawn(old(ops)@) + blank_rows(
            from as int,
            row as int,
            size.width as int,
        ));
    }
}

/// Appends to `ops` what repaints `line` on screen row `row` from column
/// `from` on.
pub fn repaint_line(ops: &mut Vec<ScreenOp>, line: &Vec<char>, from: u16, row: u16, width: u16)
    ensures
        drawn(final(ops)@) == drawn(old(ops)@) + line_paint(
            line@,
            from as int,
            row as int,
            width as int,
        ),
{
    ops.push(ScreenOp::MoveTo { col: from, row });
    ops.push(ScreenOp::Write { bytes: clear_ln(from as usize, width) });
    ops.push(ScreenOp::MoveTo { col: from, row });
    ops.push(ScreenOp::Write { bytes: write_ln(line, from as usize) });
    assert(drawn(ops@) =~= drawn(old(ops)@) + line_paint(
        line@,
        from as int,
        row as int,
        width as int,
    ));
}

/// Appends to `ops` what repaints the whole window, screen row 0 showing
/// line `top`: each row that has a line under it is blanked and rewritten,
/// each row below the text is blanked.
pub fn repaint_window(ops: &mut Vec<ScreenOp>, buffer: &Vec<Vec<char>>, top: usize, size: ScreenSize)
    ensures
        drawn(final(ops)@) == drawn(old(ops)@) + window_paint(
            content(buffer),
            top as int,
            size.width as int,
            size.height as int,
        ),
{
    let ghost lines = content(buffer);
    let ghost width = size.width as int;
    let shown: usize = if top < buffer.len() {
        buffer.len() - top
    } else {
        0
    };
    let mut row: u16 = 0;
    assert(drawn(ops@) =~= drawn(old(ops)@) + rows_paint(lines, top as int, 0, 0, width));
    while row < size.height && (row as usize) < shown
        invariant
            lines == content(buffer),
            width == size.width as int,
            row <= size.height,
            row <= shown,
            buffer@.len() <= usize::MAX,
            shown == if top < buffer@.len() {
                buffer@.len() - top
            } else {
                0
            },
            drawn(ops@) == drawn(old(ops)@) + rows_paint(lines, top as int, 0, row as int, width),
        decreases size.height - row,
    {
        repaint_line(ops, &buffer[top + row as usize], 0, row, size.width);
        row = row + 1;
        assert(drawn(ops@) =~= drawn(old(ops)@) + rows_paint(
            lines,
            top as int,
            0,
            row as int,
            width,
        ));
    }
    clear_screen(ops, row as usize, size);
    proof {
        let height = size.height as int;
        if row < size.height {
            lemma_rows_below_text(lines, top as int, row as int, height, width);
            lemma_rows_paint_split(lines, top as int, 0, row as int, height, width);
        } else {
            assert(blank_rows(row as int, height, width) =~= Seq::<Draw>::empty());
        }
        assert(drawn(ops@) =~= drawn(old(ops)@) + window_paint(lines, top as int, width, height));
    }
}

} // verus!
