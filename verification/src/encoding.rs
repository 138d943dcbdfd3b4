//! UTF-8 output: bytes for characters and blank cells.

use vstd::prelude::*;
use vstd::utf8::*;

verus! {

/// The part of `line` from column `from` on; empty when `from` is past the end.
pub open spec fn line_tail(line: Seq<char>, from: int) -> Seq<char> {
    if 0 <= from <= line.len() {
        line.skip(from)
    } else {
        Seq::empty()
    }
}

/// `n` space bytes.
pub open spec fn blank(n: int) -> Seq<u8> {
    Seq::new(if n >= 0 { n as nat } else { 0 }, |i: int| 0x20u8)
}

/// Encoding distributes over concatenation.
pub proof fn lemma_encode_concat(a: Seq<char>, b: Seq<char>)
    ensures
        encode_utf8(a + b) == encode_utf8(a) + encode_utf8(b),
    decreases a.len(),
{
    if a.len() == 0 {
        assert(a + b =~= b);
        assert(encode_utf8(a) =~= Seq::<u8>::empty());
        assert(encode_utf8(a) + encode_utf8(b) =~= encode_utf8(b));
    } else {
        assert((a + b).drop_first() =~= a.drop_first() + b);
        lemma_encode_concat(a.drop_first(), b);
        assert(encode_utf8(a + b) =~= encode_utf8(a) + encode_utf8(b));
    }
}

/// Encoding a sequence extended by one character appends that character's bytes.
pub proof fn lemma_encode_push(s: Seq<char>, c: char)
    ensures
        encode_utf8(s.push(c)) == encode_utf8(s) + encode_scalar(c as u32),
{
    let one = seq![c];
    assert(s.push(c) =~= s + one);
    lemma_encode_concat(s, one);
    assert(one.drop_first() =~= Seq::<char>::empty());
    assert(encode_utf8(one.drop_first()) =~= Seq::<u8>::empty());
    assert(encode_utf8(one) =~= encode_scalar(c as u32));
}

/// Appends the UTF-8 encoding of `c` to `out`.
pub fn push_char(out: &mut Vec<u8>, c: char)
    ensures
        final(out)@ == old(out)@ + encode_scalar(c as u32),
{
    let v: u32 = c as u32;
    proof {
        char_is_scalar(c);
    }
    if v <= 0x7F {
        assert((v & 0x7F) <= 0x7F) by (bit_vector);
        let b0: u8 = (v & 0x7F) as u8;
        out.push(b0);
        assert(out@ =~= old(out)@ + encode_scalar(v));
    } else if v <= 0x7FF {
        assert(((v >> 6) & 0x1F) <= 0x1F) by (bit_vector);
        assert((v & 0x3F) <= 0x3F) by (bit_vector);
        let b0: u8 = 0xC0 | ((v >> 6) & 0x1F) as u8;
        let b1: u8 = 0x80 | (v & 0x3F) as u8;
        out.push(b0);
        out.push(b1);
        assert(out@ =~= old(out)@ + encode_scalar(v));
    } else if v <= 0xFFFF {
        assert(((v >> 12) & 0x0F) <= 0x0F) by (bit_vector);
        assert(((v >> 6) & 0x3F) <= 0x3F) by (bit_vector);
        assert((v & 0x3F) <= 0x3F) by (bit_vector);
        let b0: u8 = 0xE0 | ((v >> 12) & 0x0F) as u8;
        let b1: u8 = 0x80 | ((v >> 6) & 0x3F) as u8;
        let b2: u8 = 0x80 | (v & 0x3F) as u8;
        out.push(b0);
        out.push(b1);
        out.push(b2);
        assert(out@ =~= old(out)@ + encode_scalar(v));
    } else {
        assert(((v >> 18) & 0x7) <= 0x7) by (bit_vector);
        assert(((v >> 12) & 0x3F) <= 0x3F) by (bit_vector);
        assert(((v >> 6) & 0x3F) <= 0x3F) by (bit_vector);
        assert((v & 0x3F) <= 0x3F) by (bit_vector);
        let b0: u8 = 0xF0 | ((v >> 18) & 0x7) as u8;
        let b1: u8 = 0x80 | ((v >> 12) & 0x3F) as u8;
        let b2: u8 = 0x80 | ((v >> 6) & 0x3F) as u8;
        let b3: u8 = 0x80 | (v & 0x3F) as u8;
        out.push(b0);
        out.push(b1);
        out.push(b2);
        out.push(b3);
        assert(out@ =~= old(out)@ + encode_scalar(v));
    }
}

/// Appends to `out` the UTF-8 encoding of `line` from column `from` on;
/// nothing when `from` is past the end of the line.
pub fn push_line_tail(out: &mut Vec<u8>, line: &Vec<char>, from: usize)
    ensures
        final(out)@ == old(out)@ + encode_utf8(line_tail(line@, from as int)),
{
    if from > line.len() {
        assert(out@ =~= old(out)@ + encode_utf8(Seq::<char>::empty()));
        return ;
    }
    let mut col: usize = from;
    assert(line@.subrange(from as int, col as int) =~= Seq::<char>::empty());
    assert(out@ =~= old(out)@ + encode_utf8(Seq::<char>::empty()));
    while col < line.len()
        invariant
            from <= col <= line@.len(),
            out@ == old(out)@ + encode_utf8(line@.subrange(from as int, col as int)),
        decreases line@.len() - col,
    {
        push_char(out, line[col]);
        proof {
            let done = line@.subrange(from as int, col as int);
            lemma_encode_push(done, line@[col as int]);
            assert(done.push(line@[col as int]) =~= line@.subrange(from as int, col + 1));
            assert(out@ =~= old(out)@ + encode_utf8(line@.subrange(from as int, col + 1)));
        }
        col = col + 1;
    }
    assert(line@.subrange(from as int, col as int) =~= line_tail(line@, from as int));
}

} // verus!
