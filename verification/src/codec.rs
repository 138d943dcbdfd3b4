//! The file codec: a file's text to lines on load, lines to a file's bytes
//! on save. The format is plain text, lines separated by `'\n'`; a carriage
//! return is a character like any other.

use vstd::prelude::*;
use vstd::utf8::*;
use crate::encoding::{lemma_encode_concat, lemma_encode_push, push_char, push_line_tail};
use crate::lines::content;

verus! {

/// The lines of a text: reading left to right, every `'\n'` ends the current
/// line and starts a new one, and any other character extends the current
/// line. A text with `k` newlines has `k + 1` lines; the empty text has one
/// empty line.
pub open spec fn split_lines(text: Seq<char>) -> Seq<Seq<char>>
    decreases text.len(),
{
    if text.len() == 0 {
        seq![Seq::<char>::empty()]
    } else {
        let before = split_lines(text.drop_last());
        if text.last() == '\n' {
            before.push(Seq::<char>::empty())
        } else {
            before.update(before.len() - 1, before.last().push(text.last()))
        }
    }
}

/// The lines one after another, each followed by `'\n'`.
pub open spec fn terminated(lines: Seq<Seq<char>>) -> Seq<char>
    decreases lines.len(),
{
    if lines.len() == 0 {
        Seq::empty()
    } else {
        terminated(lines.drop_last()) + lines.last().push('\n')
    }
}

/// The text that is saved for `lines`: every line followed by `'\n'`, but
/// for an empty last line, which adds nothing.
pub open spec fn saved_text(lines: Seq<Seq<char>>) -> Seq<char> {
    if lines.len() == 0 {
        Seq::empty()
    } else if lines.last().len() == 0 {
        terminated(lines.drop_last())
    } else {
        terminated(lines)
    }
}

/// The bytes that are saved for `lines`: [`saved_text`] in UTF-8.
pub open spec fn saved_bytes(lines: Seq<Seq<char>>) -> Seq<u8> {
    encode_utf8(saved_text(lines))
}

/// A text always splits into at least one line.
pub proof fn lemma_split_lines_nonempty(text: Seq<char>)
    ensures
        split_lines(text).len() >= 1,
    decreases text.len(),
{
    if text.len() > 0 {
        lemma_split_lines_nonempty(text.drop_last());
    }
}

/// No line of a split text holds a `'\n'`.
pub proof fn law_lines_hold_no_newline(text: Seq<char>, i: int, j: int)
    requires
        0 <= i < split_lines(text).len(),
        0 <= j < split_lines(text)[i].len(),
    ensures
        split_lines(text)[i][j] != '\n',
    decreases text.len(),
{
    if text.len() > 0 {
        let before = split_lines(text.drop_last());
        lemma_split_lines_nonempty(text.drop_last());
        if text.last() == '\n' {
            if i < before.len() {
                law_lines_hold_no_newline(text.drop_last(), i, j);
            }
        } else {
            if i < before.len() - 1 || j < before.last().len() {
                law_lines_hold_no_newline(text.drop_last(), i, j);
            }
        }
    }
}

/// Putting the lines of a split text back together, with a `'\n'` between
/// each two, gives the text: the last line is empty exactly when the text
/// is empty or ends in `'\n'`.
pub proof fn lemma_split_lines_rejoin(text: Seq<char>)
    ensures
        split_lines(text).len() >= 1,
        terminated(split_lines(text).drop_last()) + split_lines(text).last() == text,
        split_lines(text).last().len() == 0 <==> (text.len() == 0 || text.last() == '\n'),
    decreases text.len(),
{
    let lines = split_lines(text);
    if text.len() == 0 {
        assert(lines.drop_last() =~= Seq::<Seq<char>>::empty());
        assert(terminated(lines.drop_last()) + lines.last() =~= text);
    } else {
        let shorter = text.drop_last();
        let before = split_lines(shorter);
        lemma_split_lines_rejoin(shorter);
        assert(shorter.push(text.last()) =~= text);
        if text.last() == '\n' {
            assert(lines.drop_last() =~= before);
            assert(before.drop_last().push(before.last()) =~= before);
            assert(terminated(before) =~= terminated(before.drop_last()) + before.last().push(
                '\n',
            ));
            assert(terminated(lines.drop_last()) + lines.last() =~= text);
        } else {
            assert(lines.drop_last() =~= before.drop_last());
            assert(terminated(lines.drop_last()) + lines.last() =~= text);
        }
    }
}

/// Loading a text and saving it again gives the text back when it is empty
/// or ends in `'\n'`, and the text with one `'\n'` added otherwise.
pub proof fn law_load_then_save(text: Seq<char>)
    ensures
        saved_text(split_lines(text)) == if text.len() == 0 || text.last() == '\n' {
            text
        } else {
            text.push('\n')
        },
{
    let lines = split_lines(text);
    lemma_split_lines_rejoin(text);
    if lines.last().len() == 0 {
        assert(terminated(lines.drop_last()) + lines.last() =~= terminated(lines.drop_last()));
    } else {
        assert(terminated(lines) =~= (terminated(lines.drop_last()) + lines.last()).push('\n'));
    }
}

/// Round trip: a file whose text is empty or ends in `'\n'` is saved, after
/// loading, byte for byte as it was.
pub proof fn law_round_trip(text: Seq<char>)
    requires
        text.len() == 0 || text.last() == '\n',
    ensures
        saved_bytes(split_lines(text)) == encode_utf8(text),
{
    law_load_then_save(text);
}

/// An empty file, loaded and saved, is an empty file.
pub proof fn law_empty_file_stays_empty()
    ensures
        split_lines(Seq::empty()) == seq![Seq::<char>::empty()],
        saved_bytes(split_lines(Seq::empty())) == Seq::<u8>::empty(),
{
    law_round_trip(Seq::empty());
}

/// Splits `text` into lines at every `'\n'`.
pub fn load(text: &str) -> (buffer: Vec<Vec<char>>)
    ensures
        content(&buffer) == split_lines(text@),
{
    let mut buffer: Vec<Vec<char>> = Vec::new();
    buffer.push(Vec::new());
    let mut last: usize = 0;
    assert(content(&buffer) =~= split_lines(Seq::<char>::empty()));
    for c in it: text.chars()
        invariant
            it.seq() == text@,
            buffer@.len() == last + 1,
            content(&buffer) == split_lines(text@.take(it.index() as int)),
    {
        proof {
            let done = text@.take(it.index() as int);
            let next = text@.take(it.index() + 1);
            assert(next.drop_last() =~= done);
            assert(next.last() == c);
            lemma_split_lines_nonempty(done);
        }
        if c == '\n' {
            buffer.push(Vec::new());
            last = buffer.len() - 1;
        } else {
            buffer[last].push(c);
        }
        assert(content(&buffer) =~= split_lines(text@.take(it.index() + 1)));
    }
    assert(text@.take(text@.len() as int) =~= text@);
    buffer
}

/// The bytes of the file that holds `buffer`: each line in UTF-8 followed
/// by a newline byte, but for an empty last line, which adds nothing.
pub fn save(buffer: &Vec<Vec<char>>) -> (bytes: Vec<u8>)
    ensures
        bytes@ == saved_bytes(content(buffer)),
{
    let ghost lines = content(buffer);
    let mut bytes: Vec<u8> = Vec::new();
    let count = buffer.len();
    let mut i: usize = 0;
    assert(lines.take(0) =~= Seq::<Seq<char>>::empty());
    if count == 0 {
        return bytes;
    }
    while i + 1 < count
        invariant
            lines == content(buffer),
            count == buffer@.len(),
            count >= 1,
            i < count,
            bytes@ == encode_utf8(terminated(lines.take(i as int))),
        decreases count - i,
    {
        push_line_tail(&mut bytes, &buffer[i], 0);
        push_char(&mut bytes, '\n');
        proof {
            let done = terminated(lines.take(i as int));
            let line = lines[i as int];
            assert(lines.take(i + 1).drop_last() =~= lines.take(i as int));
            assert(line.skip(0) =~= line);
            lemma_encode_concat(done, line);
            lemma_encode_push(done + line, '\n');
            assert((done + line).push('\n') =~= done + line.push('\n'));
            assert(bytes@ =~= encode_utf8(terminated(lines.take(i + 1))));
        }
        i = i + 1;
    }
    let last = &buffer[i];
    push_line_tail(&mut bytes, last, 0);
    if last.len() > 0 {
        push_char(&mut bytes, '\n');
    }
    proof {
        let done = terminated(lines.take(i as int));
        let line = lines[i as int];
        assert(lines.take(i as int) =~= lines.drop_last());
        assert(line.skip(0) =~= line);
        lemma_encode_concat(done, line);
        if line.len() > 0 {
            lemma_encode_push(done + line, '\n');
            assert((done + line).push('\n') =~= done + line.push('\n'));
        } else {
            assert(done + line =~= done);
        }
        assert(bytes@ =~= saved_bytes(lines));
    }
    bytes
}

} // verus!
