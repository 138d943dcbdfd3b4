//! The line store: an ordered sequence of lines, each a sequence of
//! characters. It knows nothing of the screen.
//!
//! A buffer in use always holds at least one line: an empty text is one
//! empty line. No operation here lowers the line count of such a buffer
//! below one.

use vstd::prelude::*;

verus! {

/// The text held by a buffer: its lines, in order, as sequences of characters.
pub open spec fn content(buffer: &Vec<Vec<char>>) -> Seq<Seq<char>> {
    Seq::new(buffer@.len(), |i: int| buffer@[i]@)
}

/// `line` cut before column `col`; columns past the end cut at the end.
pub open spec fn prefix(line: Seq<char>, col: int) -> Seq<char> {
    if col <= line.len() {
        line.take(col)
    } else {
        line
    }
}

/// `line` from column `col` on; empty when `col` is past the end.
pub open spec fn suffix(line: Seq<char>, col: int) -> Seq<char> {
    if col <= line.len() {
        line.skip(col)
    } else {
        Seq::empty()
    }
}

/// The lines after line `line_index` is split in two before column `col`.
pub open spec fn split_at(lines: Seq<Seq<char>>, line_index: int, col: int) -> Seq<Seq<char>> {
    lines.update(line_index, prefix(lines[line_index], col)).insert(
        line_index + 1,
        suffix(lines[line_index], col),
    )
}

/// The lines after line `line_index` is appended to the line above it and removed.
pub open spec fn joined_at(lines: Seq<Seq<char>>, line_index: int) -> Seq<Seq<char>> {
    lines.update(line_index - 1, lines[line_index - 1] + lines[line_index]).remove(line_index)
}

/// Joining the two halves of a split line gives back the lines as they were.
pub proof fn law_split_then_join(lines: Seq<Seq<char>>, line_index: int, col: int)
    requires
        0 <= line_index < lines.len(),
        0 <= col,
    ensures
        joined_at(split_at(lines, line_index, col), line_index + 1) == lines,
{
    let line = lines[line_index];
    assert(prefix(line, col) + suffix(line, col) =~= line);
    assert(joined_at(split_at(lines, line_index, col), line_index + 1) =~= lines);
}

/// Number of lines.
pub fn line_count(buffer: &Vec<Vec<char>>) -> (n: usize)
    ensures
        n == content(buffer).len(),
{
    buffer.len()
}

/// Number of characters in line `line_index`.
pub fn line_length(buffer: &Vec<Vec<char>>, line_index: usize) -> (n: usize)
    requires
        line_index < content(buffer).len(),
    ensures
        n == content(buffer)[line_index as int].len(),
{
    buffer[line_index].len()
}

/// Inserts `ch` before column `col_index` of line `line_index`.
pub fn insert_char(buffer: &mut Vec<Vec<char>>, line_index: usize, col_index: usize, ch: char)
    requires
        line_index < content(old(buffer)).len(),
        col_index <= content(old(buffer))[line_index as int].len(),
    ensures
        content(final(buffer)) == content(old(buffer)).update(
            line_index as int,
            content(old(buffer))[line_index as int].insert(col_index as int, ch),
        ),
        content(final(buffer)).len() == content(old(buffer)).len(),
{
    buffer[line_index].insert(col_index, ch);
    assert(content(buffer) =~= content(old(buffer)).update(
        line_index as int,
        content(old(buffer))[line_index as int].insert(col_index as int, ch),
    ));
}

/// Removes the character at column `col_index` of line `line_index` and returns it.
pub fn remove_char(buffer: &mut Vec<Vec<char>>, line_index: usize, col_index: usize) -> (removed:
    char)
    requires
        line_index < content(old(buffer)).len(),
        col_index < content(old(buffer))[line_index as int].len(),
    ensures
        removed == content(old(buffer))[line_index as int][col_index as int],
        content(final(buffer)) == content(old(buffer)).update(
            line_index as int,
            content(old(buffer))[line_index as int].remove(col_index as int),
        ),
        content(final(buffer)).len() == content(old(buffer)).len(),
{
    let removed = buffer[line_index].remove(col_index);
    assert(content(buffer) =~= content(old(buffer)).update(
        line_index as int,
        content(old(buffer))[line_index as int].remove(col_index as int),
    ));
    removed
}

/// Replaces line `line_index` by two lines: what stood before column
/// `col_index`, then what stood from it on.
pub fn split_line(buffer: &mut Vec<Vec<char>>, line_index: usize, col_index: usize)
    requires
        line_index < content(old(buffer)).len(),
    ensures
        content(final(buffer)) == split_at(
            content(old(buffer)),
            line_index as int,
            col_index as int,
        ),
        content(final(buffer)).len() == content(old(buffer)).len() + 1,
{
    let count = buffer.len();
    let len = buffer[line_index].len();
    let at = if col_index <= len {
        col_index
    } else {
        len
    };
    let rest = buffer[line_index].split_off(at);
    assert(rest@ =~= suffix(content(old(buffer))[line_index as int], col_index as int));
    assert(buffer@[line_index as int]@ =~= prefix(
        content(old(buffer))[line_index as int],
        col_index as int,
    ));
    buffer.insert(line_index + 1, rest);
    assert(content(buffer) =~= split_at(content(old(buffer)), line_index as int, col_index as int));
}

/// Appends line `line_index` to the line above it and removes it.
pub fn join_with_previous(buffer: &mut Vec<Vec<char>>, line_index: usize)
    requires
        1 <= line_index < content(old(buffer)).len(),
    ensures
        content(final(buffer)) == joined_at(content(old(buffer)), line_index as int),
        content(final(buffer)).len() == content(old(buffer)).len() - 1,
        content(final(buffer)).len() >= 1,
{
    let mut moved = buffer.remove(line_index);
    buffer[line_index - 1].append(&mut moved);
    assert(content(buffer) =~= joined_at(content(old(buffer)), line_index as int));
}

/// Puts `line` into the buffer as line `line_index`; the lines from there
/// on move down by one.
pub fn insert_line(buffer: &mut Vec<Vec<char>>, line_index: usize, line: Vec<char>)
    requires
        line_index <= content(old(buffer)).len(),
    ensures
        content(final(buffer)) == content(old(buffer)).insert(line_index as int, line@),
        content(final(buffer)).len() == content(old(buffer)).len() + 1,
{
    buffer.insert(line_index, line);
    assert(content(buffer) =~= content(old(buffer)).insert(line_index as int, line@));
}

} // verus!
