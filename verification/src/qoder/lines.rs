//! Lines of bytes, and the bytes of lines of text.

use vstd::prelude::*;
use vstd::utf8::{encode_scalar, encode_utf8};

verus! {

/// The position of the first line feed, or the length where there is none.
pub open spec fn line_end(bytes: Seq<u8>) -> int
    decreases bytes.len(),
{
    if bytes.len() == 0 || bytes[0] == 10 {
        0
    } else {
        1 + line_end(bytes.drop_first())
    }
}

/// The lines, without their line feeds.
pub open spec fn byte_lines(bytes: Seq<u8>) -> Seq<Seq<u8>>
    decreases bytes.len(),
    via byte_lines_decreases
{
    if bytes.len() == 0 {
        Seq::empty()
    } else if line_end(bytes) < bytes.len() {
        seq![bytes.take(line_end(bytes))] + byte_lines(bytes.skip(line_end(bytes) + 1))
    } else {
        seq![bytes]
    }
}

#[via_fn]
proof fn byte_lines_decreases(bytes: Seq<u8>) {
    lemma_line_end(bytes);
    if bytes.len() > 0 && line_end(bytes) < bytes.len() {
        assert(bytes.skip(line_end(bytes) + 1).len() < bytes.len());
    }
}

pub proof fn lemma_line_end(bytes: Seq<u8>)
    ensures
        0 <= line_end(bytes) <= bytes.len(),
        forall|i: int| 0 <= i < line_end(bytes) ==> #[trigger] bytes[i] != 10,
        line_end(bytes) < bytes.len() ==> bytes[line_end(bytes)] == 10,
    decreases bytes.len(),
{
    if bytes.len() > 0 && bytes[0] != 10 {
        let rest = bytes.drop_first();
        lemma_line_end(rest);
        assert forall|i: int| 0 <= i < line_end(bytes) implies #[trigger] bytes[i] != 10 by {
            if i > 0 {
                assert(rest[i - 1] == bytes[i]);
            }
        }
    }
}

/// The position of a line feed before which there is none.
pub proof fn lemma_line_end_is(bytes: Seq<u8>, end: int)
    requires
        0 <= end <= bytes.len(),
        forall|i: int| 0 <= i < end ==> #[trigger] bytes[i] != 10,
        end < bytes.len() ==> bytes[end] == 10,
    ensures
        line_end(bytes) == end,
{
    lemma_line_end(bytes);
}

/// The line feed, as a byte, stands in the encoding of no other character.
proof fn lemma_encoded_scalar(c: char)
    ensures
        c >= ' ' ==> forall|i: int|
            0 <= i < encode_scalar(c as u32).len() ==> #[trigger] encode_scalar(c as u32)[i] != 10,
        c == '\n' ==> encode_scalar(c as u32) == seq![10u8],
{
    let v = c as u32;
    assert(v >= 32 && v <= 0x7f ==> (v & 0x7f) as u8 != 10) by (bit_vector);
    assert(v == 10 ==> (v & 0x7f) as u8 == 10) by (bit_vector);
    assert(0xC0 | ((v >> 6) & 0x1F) as u8 != 10) by (bit_vector);
    assert(0xE0 | ((v >> 12) & 0x0F) as u8 != 10) by (bit_vector);
    assert(0xF0 | ((v >> 18) & 0x7) as u8 != 10) by (bit_vector);
    assert(0x80 | (v & 0x3F) as u8 != 10) by (bit_vector);
    assert(0x80 | ((v >> 6) & 0x3F) as u8 != 10) by (bit_vector);
    assert(0x80 | ((v >> 12) & 0x3F) as u8 != 10) by (bit_vector);
}

/// The encoding of a text without control characters has no line feed.
proof fn lemma_encoded_line(line: Seq<char>)
    requires
        forall|i: int| 0 <= i < line.len() ==> #[trigger] line[i] >= ' ',
    ensures
        forall|i: int| 0 <= i < encode_utf8(line).len() ==> #[trigger] encode_utf8(line)[i] != 10,
    decreases line.len(),
{
    if line.len() > 0 {
        let rest = line.drop_first();
        assert forall|i: int| 0 <= i < rest.len() implies #[trigger] rest[i] >= ' ' by {
            assert(rest[i] == line[i + 1]);
        }
        lemma_encoded_line(rest);
        lemma_encoded_scalar(line[0]);
        let head = encode_scalar(line[0] as u32);
        assert forall|i: int| 0 <= i < encode_utf8(line).len() implies #[trigger] encode_utf8(
            line,
        )[i] != 10 by {
            if i < head.len() {
                assert(encode_utf8(line)[i] == head[i]);
            } else {
                assert(encode_utf8(line)[i] == encode_utf8(rest)[i - head.len()]);
            }
        }
    }
}

/// Two texts one after the other are encoded one after the other.
pub proof fn lemma_encoded_concat(a: Seq<char>, b: Seq<char>)
    ensures
        encode_utf8(a + b) == encode_utf8(a) + encode_utf8(b),
    decreases a.len(),
{
    if a.len() == 0 {
        assert(a + b =~= b);
        assert(encode_utf8(a) + encode_utf8(b) =~= encode_utf8(b));
    } else {
        lemma_encoded_concat(a.drop_first(), b);
        assert((a + b).drop_first() =~= a.drop_first() + b);
        assert(encode_utf8(a + b) =~= encode_utf8(a) + encode_utf8(b));
    }
}

/// Whole lines, and what follows them, are lines one after the other.
pub proof fn lemma_lines_concat(a: Seq<u8>, b: Seq<u8>)
    requires
        a.len() > 0 ==> a.last() == 10,
    ensures
        byte_lines(a + b) == byte_lines(a) + byte_lines(b),
    decreases a.len(),
{
    if a.len() == 0 {
        assert(a + b =~= b);
        assert(byte_lines(a) + byte_lines(b) =~= byte_lines(b));
    } else {
        let end = line_end(a);
        lemma_line_end(a);
        assert(end < a.len());
        assert forall|i: int| 0 <= i < end implies #[trigger] (a + b)[i] != 10 by {
            assert((a + b)[i] == a[i]);
        }
        lemma_line_end_is(a + b, end);
        let rest = a.skip(end + 1);
        assert(rest.len() > 0 ==> rest.last() == a.last());
        lemma_lines_concat(rest, b);
        assert((a + b).take(end) =~= a.take(end));
        assert((a + b).skip(end + 1) =~= rest + b);
        assert(byte_lines(a + b) =~= byte_lines(a) + byte_lines(b));
    }
}

/// A text that ends its last line, and one more line after it: the lines of the
/// encoding are those of the text before and that line.
pub proof fn lemma_line_appended(text: Seq<char>, line: Seq<char>)
    requires
        text.len() > 0 ==> text.last() == '\n',
        forall|i: int| 0 <= i < line.len() ==> #[trigger] line[i] >= ' ',
    ensures
        byte_lines(encode_utf8(text + line.push('\n'))) == byte_lines(encode_utf8(text)).push(
            encode_utf8(line),
        ),
{
    let feed = seq!['\n'];
    lemma_encoded_scalar('\n');
    assert(feed.drop_first() =~= Seq::empty());
    assert(encode_utf8(feed) =~= seq![10u8]) by {
        reveal_with_fuel(encode_utf8, 2);
    }
    if text.len() > 0 {
        assert(text =~= text.drop_last() + feed);
        lemma_encoded_concat(text.drop_last(), feed);
    }
    assert(line.push('\n') =~= line + feed);
    lemma_encoded_concat(line, feed);
    lemma_encoded_concat(text, line.push('\n'));
    let a = encode_utf8(text);
    let b = encode_utf8(line.push('\n'));
    lemma_lines_concat(a, b);
    lemma_encoded_line(line);
    let end = encode_utf8(line).len() as int;
    assert forall|i: int| 0 <= i < end implies #[trigger] b[i] != 10 by {
        assert(b[i] == encode_utf8(line)[i]);
    }
    lemma_line_end_is(b, end);
    assert(b.take(end) =~= encode_utf8(line));
    assert(b.skip(end + 1) =~= Seq::empty());
    assert(byte_lines(Seq::<u8>::empty()) =~= Seq::empty());
    assert(byte_lines(b) =~= seq![encode_utf8(line)]);
}

} // verus!
