//! A model of the terminal's screen, to say what the renderer's output
//! shows.
//!
//! The screen is a grid of cells with a cursor. In this model every
//! character fills one cell, whatever it is, and the terminal does not wrap
//! lines: a character written in the last column stays there, and the next
//! one overwrites it.

use vstd::prelude::*;
use vstd::utf8::*;
use crate::buffer::BufferContext;
use crate::encoding::{blank, line_tail};
use crate::render::{blank_row, drawn, line_paint, row_paint, rows_paint, window_paint, Draw, ScreenOp};
use crate::viewport::{least, ScreenSize};

verus! {

/// A screen of `width` by `height` cells and the place of its cursor.
pub struct Screen {
    pub width: int,
    pub height: int,
    /// The rows, top to bottom; each holds the characters of its cells.
    pub cells: Seq<Seq<char>>,
    pub col: int,
    pub row: int,
}

impl Screen {
    /// The grid has the stated size and the cursor is on it.
    pub open spec fn wf(self) -> bool {
        &&& self.width >= 1
        &&& self.height >= 1
        &&& self.cells.len() == self.height
        &&& forall|r: int| 0 <= r < self.height ==> (#[trigger] self.cells[r]).len() == self.width
        &&& 0 <= self.col < self.width
        &&& 0 <= self.row < self.height
    }

    /// The screen after its cursor is sent to (`col`, `row`): the cursor
    /// stops at the last column and the last row.
    pub open spec fn moved(self, col: int, row: int) -> Screen {
        Screen {
            col: least(col, self.width - 1),
            row: least(row, self.height - 1),
            ..self
        }
    }

    /// The screen after `c` is written at the cursor.
    pub open spec fn put(self, c: char) -> Screen {
        Screen {
            cells: self.cells.update(self.row, self.cells[self.row].update(self.col, c)),
            col: least(self.col + 1, self.width - 1),
            ..self
        }
    }

    /// The screen after `chars` are written at the cursor, one by one.
    pub open spec fn typed(self, chars: Seq<char>) -> Screen
        decreases chars.len(),
    {
        if chars.len() == 0 {
            self
        } else {
            self.typed(chars.drop_last()).put(chars.last())
        }
    }

    /// The screen after one instruction.
    pub open spec fn step(self, draw: Draw) -> Screen {
        match draw {
            Draw::MoveTo { col, row } => self.moved(col, row),
            Draw::Write { bytes } => self.typed(decode_utf8(bytes)),
        }
    }

    /// The screen after the instructions `draws`, in order.
    pub open spec fn run(self, draws: Seq<Draw>) -> Screen
        decreases draws.len(),
    {
        if draws.len() == 0 {
            self
        } else {
            self.run(draws.drop_last()).step(draws.last())
        }
    }

    /// The two screens have the same size and the same cells outside row
    /// `row`.
    pub open spec fn same_but_row(self, other: Screen, row: int) -> bool {
        &&& self.width == other.width
        &&& self.height == other.height
        &&& forall|r: int| 0 <= r < self.height && r != row ==> self.cells[r] == other.cells[r]
    }

    /// Row `row` shows `line` from column `from` on, and is what it was in
    /// `before` left of that column.
    pub open spec fn row_shows_from(self, before: Screen, row: int, from: int, line: Seq<char>) -> bool {
        forall|k: int|
            0 <= k < self.width ==> #[trigger] self.cells[row][k] == if k < from {
                before.cells[row][k]
            } else {
                image(line, self.width)[k]
            }
    }

    /// The screen has the size `size`.
    pub open spec fn sized(self, size: ScreenSize) -> bool {
        self.wf() && self.width == size.width && self.height == size.height
    }

    /// The screen has the size `size`, shows the editor's window, and has
    /// its cursor where the editor's cursor is.
    pub open spec fn mirrors(self, editor: &BufferContext, size: ScreenSize) -> bool {
        &&& self.sized(size)
        &&& self.shows(editor.lines(), editor.top as int)
        &&& self.col == editor.cursor.screen_col
        &&& self.row == editor.cursor.screen_row
    }

    /// The screen shows the window on `lines` that starts at line `top`:
    /// every row shows the line under it, or is blank below the text.
    pub open spec fn shows(self, lines: Seq<Seq<char>>, top: int) -> bool {
        forall|r: int|
            0 <= r < self.height ==> #[trigger] self.cells[r] == image(
                line_under(lines, top + r),
                self.width,
            )
    }
}

/// Line `index` of `lines`; the empty line past the end of the text.
pub open spec fn line_under(lines: Seq<Seq<char>>, index: int) -> Seq<char> {
    if 0 <= index < lines.len() {
        lines[index]
    } else {
        Seq::empty()
    }
}

/// What a row of `width` cells shows of `line` after the row was blanked
/// and the line written from column 0: the line's characters, then blanks.
/// Of a line that does not fit, the last cell shows the last character.
pub open spec fn image(line: Seq<char>, width: int) -> Seq<char> {
    Seq::new(
        width as nat,
        |k: int|
            if k < width - 1 {
                if k < line.len() {
                    line[k]
                } else {
                    ' '
                }
            } else if line.len() >= width {
                line.last()
            } else {
                ' '
            },
    )
}

/// `n` spaces.
pub open spec fn spaces(n: int) -> Seq<char> {
    Seq::new(if n >= 0 { n as nat } else { 0 }, |i: int| ' ')
}

/// The cell in column `k` of the cursor's row after `chars` are written.
pub open spec fn typed_cell(s: Screen, chars: Seq<char>, k: int) -> char {
    if k < s.col {
        s.cells[s.row][k]
    } else if k < s.width - 1 {
        if k - s.col < chars.len() {
            chars[k - s.col]
        } else {
            s.cells[s.row][k]
        }
    } else if s.col + chars.len() >= s.width {
        chars.last()
    } else {
        s.cells[s.row][k]
    }
}

/// Writing characters changes the cursor's row only, cell by cell from the
/// cursor on, and leaves the cursor behind the last one, or in the last
/// column.
pub proof fn lemma_typed(s: Screen, chars: Seq<char>)
    requires
        s.wf(),
    ensures
        s.typed(chars).wf(),
        s.typed(chars).same_but_row(s, s.row),
        s.typed(chars).row == s.row,
        s.typed(chars).col == least(s.col + chars.len(), s.width - 1),
        forall|k: int|
            0 <= k < s.width ==> #[trigger] s.typed(chars).cells[s.row][k] == typed_cell(
                s,
                chars,
                k,
            ),
    decreases chars.len(),
{
    if chars.len() > 0 {
        let shorter = chars.drop_last();
        lemma_typed(s, shorter);
        let before = s.typed(shorter);
        let after = before.put(chars.last());
        assert(after == s.typed(chars));
        assert forall|r: int| 0 <= r < after.height implies (#[trigger] after.cells[r]).len()
            == after.width by {
            assert(before.cells[r].len() == before.width);
        }
        assert forall|k: int| 0 <= k < s.width implies #[trigger] after.cells[s.row][k]
            == typed_cell(s, chars, k) by {
            assert(before.cells[s.row][k] == typed_cell(s, shorter, k));
        }
    }
}

/// The bytes of `n` blanks are the UTF-8 encoding of `n` spaces.
pub proof fn lemma_blank_is_spaces(n: int)
    ensures
        blank(n) == encode_utf8(spaces(n)),
        decode_utf8(blank(n)) == spaces(n),
    decreases n,
{
    if n <= 0 {
        assert(blank(n) =~= encode_utf8(spaces(n)));
    } else {
        lemma_blank_is_spaces(n - 1);
        assert(spaces(n).drop_first() =~= spaces(n - 1));
        assert((0x20u32 & 0x7F) as u8 == 0x20u8) by (bit_vector);
        assert(spaces(n)[0] as u32 == 0x20u32);
        assert(encode_scalar(0x20u32) =~= seq![0x20u8]);
        assert(blank(n) =~= seq![0x20u8] + blank(n - 1));
    }
    encode_utf8_decode_utf8(spaces(n));
}

/// Running instructions one after another is running them as one list.
pub proof fn lemma_run_concat(s: Screen, first: Seq<Draw>, then: Seq<Draw>)
    ensures
        s.run(first + then) == s.run(first).run(then),
    decreases then.len(),
{
    if then.len() == 0 {
        assert(first + then =~= first);
    } else {
        lemma_run_concat(s, first, then.drop_last());
        assert((first + then).drop_last() =~= first + then.drop_last());
        assert((first + then).last() == then.last());
    }
}

/// Running a list with one more instruction at its end.
pub proof fn lemma_run_push(s: Screen, draws: Seq<Draw>, draw: Draw)
    ensures
        s.run(draws.push(draw)) == s.run(draws).step(draw),
{
    assert(draws.push(draw).drop_last() =~= draws);
}

/// Going to a cell and writing characters there.
proof fn lemma_write_at(s: Screen, col: int, row: int, chars: Seq<char>)
    requires
        s.wf(),
        0 <= col < s.width,
        0 <= row < s.height,
    ensures
        ({
            let t = s.moved(col, row).typed(chars);
            &&& t.wf()
            &&& t.same_but_row(s, row)
            &&& t.row == row
            &&& forall|k: int|
                0 <= k < s.width ==> #[trigger] t.cells[row][k] == typed_cell(
                    s.moved(col, row),
                    chars,
                    k,
                )
        }),
{
    lemma_typed(s.moved(col, row), chars);
}

/// What repainting a line shows: the row shows the line from column `from`
/// on and is untouched left of it; no other row changes.
pub proof fn lemma_line_paint_shows(s: Screen, line: Seq<char>, from: int, row: int)
    requires
        s.wf(),
        0 <= from < s.width,
        0 <= row < s.height,
    ensures
        s.run(line_paint(line, from, row, s.width)).wf(),
        s.run(line_paint(line, from, row, s.width)).same_but_row(s, row),
        s.run(line_paint(line, from, row, s.width)).row_shows_from(s, row, from, line),
{
    let width = s.width;
    let paint = line_paint(line, from, row, width);
    let tail = line_tail(line, from);
    let go = Draw::MoveTo { col: from, row: row };
    let wipe = Draw::Write { bytes: blank(width - from) };
    let write = Draw::Write { bytes: encode_utf8(tail) };
    let s1 = s.step(go).step(wipe);
    let s2 = s1.step(go).step(write);
    assert(s.run(paint) == s2) by {
        let none = Seq::<Draw>::empty();
        assert(paint =~= none.push(go).push(wipe).push(go).push(write));
        lemma_run_push(s, none, go);
        lemma_run_push(s, none.push(go), wipe);
        lemma_run_push(s, none.push(go).push(wipe), go);
        lemma_run_push(s, none.push(go).push(wipe).push(go), write);
    }
    lemma_blank_is_spaces(width - from);
    encode_utf8_decode_utf8(tail);
    lemma_write_at(s, from, row, spaces(width - from));
    lemma_write_at(s1, from, row, tail);
    assert forall|k: int| 0 <= k < s2.width implies #[trigger] s2.cells[row][k] == if k < from {
        s.cells[row][k]
    } else {
        image(line, s2.width)[k]
    } by {
        assert(s1.cells[row][k] == typed_cell(s.moved(from, row), spaces(width - from), k));
        assert(s2.cells[row][k] == typed_cell(s1.moved(from, row), tail, k));
    }
    assert forall|r: int| 0 <= r < s2.height && r != row implies s2.cells[r] == s.cells[r] by {
        assert(s1.cells[r] == s.cells[r]);
    }
}

/// What blanking a row shows: the row is blank; no other row changes.
pub proof fn lemma_blank_row_shows(s: Screen, row: int)
    requires
        s.wf(),
        0 <= row < s.height,
    ensures
        s.run(blank_row(row, s.width)).wf(),
        s.run(blank_row(row, s.width)).same_but_row(s, row),
        s.run(blank_row(row, s.width)).cells[row] == image(Seq::empty(), s.width),
{
    let width = s.width;
    let go = Draw::MoveTo { col: 0, row: row };
    let wipe = Draw::Write { bytes: blank(width) };
    let t = s.step(go).step(wipe);
    assert(s.run(blank_row(row, width)) == t) by {
        let none = Seq::<Draw>::empty();
        assert(blank_row(row, width) =~= none.push(go).push(wipe));
        lemma_run_push(s, none, go);
        lemma_run_push(s, none.push(go), wipe);
    }
    lemma_blank_is_spaces(width);
    lemma_write_at(s, 0, row, spaces(width));
    assert forall|k: int| 0 <= k < width implies #[trigger] t.cells[row][k] == image(
        Seq::empty(),
        width,
    )[k] by {
        assert(t.cells[row][k] == typed_cell(s.moved(0, row), spaces(width), k));
    }
    assert(t.cells[row].len() == width);
    assert(t.cells[row] =~= image(Seq::empty(), width));
}

/// What repainting the first `count` rows shows: each of them shows the
/// line under it, and the rows below are untouched.
pub proof fn lemma_rows_paint_shows(s: Screen, lines: Seq<Seq<char>>, top: int, count: int)
    requires
        s.wf(),
        0 <= top,
        0 <= count <= s.height,
    ensures
        s.run(rows_paint(lines, top, 0, count, s.width)).wf(),
        s.run(rows_paint(lines, top, 0, count, s.width)).width == s.width,
        s.run(rows_paint(lines, top, 0, count, s.width)).height == s.height,
        forall|r: int|
            0 <= r < s.height ==> #[trigger] s.run(
                rows_paint(lines, top, 0, count, s.width),
            ).cells[r] == if r < count {
                image(line_under(lines, top + r), s.width)
            } else {
                s.cells[r]
            },
    decreases count,
{
    if count > 0 {
        let width = s.width;
        let row = count - 1;
        lemma_rows_paint_shows(s, lines, top, row);
        let before = s.run(rows_paint(lines, top, 0, row, width));
        let after = before.run(row_paint(lines, top, row, width));
        lemma_run_concat(s, rows_paint(lines, top, 0, row, width), row_paint(lines, top, row, width));
        assert(after == s.run(rows_paint(lines, top, 0, count, width)));
        if top + row < lines.len() {
            lemma_line_paint_shows(before, lines[top + row], 0, row);
            assert(after.cells[row].len() == width);
            assert forall|k: int| 0 <= k < width implies after.cells[row][k] == image(
                lines[top + row],
                width,
            )[k] by {}
            assert(after.cells[row] =~= image(lines[top + row], width));
        } else {
            lemma_blank_row_shows(before, row);
        }
        assert forall|r: int| 0 <= r < s.height implies #[trigger] after.cells[r] == if r < count {
            image(line_under(lines, top + r), width)
        } else {
            s.cells[r]
        } by {
            if r != row {
                assert(after.cells[r] == before.cells[r]);
            }
        }
    }
}

/// Repainting the window makes the screen show it, whatever it showed
/// before.
pub proof fn law_window_paint_shows(s: Screen, lines: Seq<Seq<char>>, top: int)
    requires
        s.wf(),
        0 <= top,
    ensures
        s.run(window_paint(lines, top, s.width, s.height)).wf(),
        s.run(window_paint(lines, top, s.width, s.height)).width == s.width,
        s.run(window_paint(lines, top, s.width, s.height)).height == s.height,
        s.run(window_paint(lines, top, s.width, s.height)).shows(lines, top),
{
    lemma_rows_paint_shows(s, lines, top, s.height);
}

/// Sending the cursor somewhere after other instructions changes no cell.
pub proof fn lemma_then_place(s: Screen, draws: Seq<Draw>, col: int, row: int)
    requires
        s.run(draws).wf(),
        0 <= col < s.run(draws).width,
        0 <= row < s.run(draws).height,
    ensures
        s.run(draws.push(Draw::MoveTo { col, row })) == (Screen { col, row, ..s.run(draws) }),
{
    lemma_run_push(s, draws, Draw::MoveTo { col, row });
}

/// Repainting the window and then placing the cursor makes the screen show
/// the window, with its cursor at that place.
pub proof fn law_window_paint_then_place(
    s: Screen,
    lines: Seq<Seq<char>>,
    top: int,
    col: int,
    row: int,
)
    requires
        s.wf(),
        0 <= top,
        0 <= col < s.width,
        0 <= row < s.height,
    ensures
        ({
            let t = s.run(
                window_paint(lines, top, s.width, s.height).push(Draw::MoveTo { col, row }),
            );
            &&& t.wf()
            &&& t.width == s.width
            &&& t.height == s.height
            &&& t.shows(lines, top)
            &&& t.col == col
            &&& t.row == row
        }),
{
    law_window_paint_shows(s, lines, top);
    lemma_then_place(s, window_paint(lines, top, s.width, s.height), col, row);
}

/// Placing the cursor, and nothing else, changes no cell.
pub proof fn law_place_keeps_cells(s: Screen, col: int, row: int)
    requires
        s.wf(),
        0 <= col < s.width,
        0 <= row < s.height,
    ensures
        s.run(seq![Draw::MoveTo { col, row }]) == (Screen { col, row, ..s }),
{
    let none = Seq::<Draw>::empty();
    assert(seq![Draw::MoveTo { col, row }] =~= none.push(Draw::MoveTo { col, row }));
    lemma_then_place(s, none, col, row);
}

/// Repainting one row from column `from` on keeps the screen in step with
/// a text that changed under that row only, from that column on.
pub proof fn law_line_paint_keeps_window(
    s: Screen,
    lines: Seq<Seq<char>>,
    changed: Seq<Seq<char>>,
    top: int,
    row: int,
    from: int,
)
    requires
        s.wf(),
        s.shows(lines, top),
        0 <= top,
        0 <= row < s.height,
        0 <= from < s.width,
        top + row < changed.len(),
        forall|i: int|
            top <= i < top + s.height && i != top + row ==> #[trigger] line_under(changed, i)
                == line_under(lines, i),
        forall|k: int|
            0 <= k < from ==> #[trigger] image(changed[top + row], s.width)[k] == image(
                line_under(lines, top + row),
                s.width,
            )[k],
    ensures
        s.run(line_paint(changed[top + row], from, row, s.width)).wf(),
        s.run(line_paint(changed[top + row], from, row, s.width)).width == s.width,
        s.run(line_paint(changed[top + row], from, row, s.width)).height == s.height,
        s.run(line_paint(changed[top + row], from, row, s.width)).shows(changed, top),
{
    let line = changed[top + row];
    let t = s.run(line_paint(line, from, row, s.width));
    lemma_line_paint_shows(s, line, from, row);
    assert forall|r: int| 0 <= r < t.height implies #[trigger] t.cells[r] == image(
        line_under(changed, top + r),
        t.width,
    ) by {
        if r == row {
            assert(s.cells[row] == image(line_under(lines, top + row), s.width));
            assert forall|k: int| 0 <= k < t.width implies t.cells[row][k] == image(
                line,
                t.width,
            )[k] by {
                if k < from {
                    assert(image(line, s.width)[k] == image(
                        line_under(lines, top + row),
                        s.width,
                    )[k]);
                }
            }
            assert(t.cells[row].len() == t.width);
            assert(t.cells[row] =~= image(line, t.width));
        } else {
            assert(t.cells[r] == s.cells[r]);
            assert(line_under(changed, top + r) == line_under(lines, top + r));
        }
    }
}

} // verus!
