//! The lines of a message and their widths.
//!
//! A line ends at a line feed; a carriage return directly before that line feed
//! belongs to the terminator. The last line needs no terminator, and a text that
//! ends with one has no empty line after it. The width of a line is the number of
//! bytes of its UTF-8 encoding.

use crate::encoding::{
    lemma_ascii_char_has_byte, lemma_encode_len, lemma_first_byte, lemma_last_byte,
    lemma_single_ascii_byte, lemma_split_at_boundary,
};
use vstd::prelude::*;
use vstd::utf8::*;

verus! {

/// The byte that encodes a line feed.
pub const LINE_FEED: u8 = 10;

/// The byte that encodes a carriage return.
pub const CARRIAGE_RETURN: u8 = 13;

/// Number of characters before the first line feed of `text`; its length where it
/// holds no line feed.
pub open spec fn line_end(text: Seq<char>) -> nat
    decreases text.len(),
{
    if text.len() == 0 || text[0] == '\n' {
        0
    } else {
        (1 + line_end(text.drop_first())) as nat
    }
}

/// `line` without the carriage return at its end, if it has one.
pub open spec fn without_carriage_return(line: Seq<char>) -> Seq<char> {
    if line.len() > 0 && line.last() == '\r' {
        line.drop_last()
    } else {
        line
    }
}

/// The first line of `text`, without its terminator.
pub open spec fn first_line(text: Seq<char>) -> Seq<char> {
    if line_end(text) < text.len() {
        without_carriage_return(text.take(line_end(text) as int))
    } else {
        text
    }
}

/// What follows the first line of `text` and its terminator.
pub open spec fn after_first_line(text: Seq<char>) -> Seq<char> {
    if line_end(text) < text.len() {
        text.skip(line_end(text) as int + 1)
    } else {
        Seq::empty()
    }
}

/// The lines of `text`, in order and without their terminators.
pub open spec fn lines_of(text: Seq<char>) -> Seq<Seq<char>>
    decreases text.len(),
{
    if text.len() == 0 {
        Seq::empty()
    } else {
        seq![first_line(text)] + lines_of(after_first_line(text))
    }
}

/// Width of a line: the length of its UTF-8 encoding.
pub open spec fn width_of(line: Seq<char>) -> nat {
    encode_utf8(line).len()
}

/// The greatest width among `lines`; 0 where there are none.
pub open spec fn widest(lines: Seq<Seq<char>>) -> nat
    decreases lines.len(),
{
    if lines.len() == 0 {
        0
    } else if width_of(lines.first()) >= widest(lines.drop_first()) {
        width_of(lines.first())
    } else {
        widest(lines.drop_first())
    }
}

/// Width of the content column of a message: that of its longest line.
pub open spec fn content_width(message: Seq<char>) -> nat {
    widest(lines_of(message))
}

/// `line_end` is the position of the first line feed.
pub proof fn lemma_line_end(text: Seq<char>)
    ensures
        line_end(text) <= text.len(),
        forall|k: int| 0 <= k < line_end(text) ==> text[k] != '\n',
        line_end(text) < text.len() ==> text[line_end(text) as int] == '\n',
    decreases text.len(),
{
    if text.len() > 0 && text[0] != '\n' {
        let rest = text.drop_first();
        lemma_line_end(rest);
        assert forall|k: int| 0 <= k < line_end(text) implies text[k] != '\n' by {
            if k > 0 {
                assert(text[k] == rest[k - 1]);
            }
        }
    }
}

/// A position with no line feed before it, which is the end of the text or holds a
/// line feed, is `line_end`.
pub proof fn lemma_line_end_unique(text: Seq<char>, end: int)
    requires
        0 <= end <= text.len(),
        forall|k: int| 0 <= k < end ==> text[k] != '\n',
        end < text.len() ==> text[end] == '\n',
    ensures
        line_end(text) == end,
    decreases end,
{
    if end > 0 {
        let rest = text.drop_first();
        assert forall|k: int| 0 <= k < end - 1 implies rest[k] != '\n' by {
            assert(rest[k] == text[k + 1]);
        }
        lemma_line_end_unique(rest, end - 1);
    }
}

/// Cuts `text` after its first line: returns that line, without its terminator, and
/// what follows the terminator.
///
/// The line feed is searched for in the bytes of the text, which is then cut at
/// character boundaries only.
pub fn split_first_line<'a>(text: &'a str) -> (parts: (&'a str, &'a str))
    ensures
        parts.0@ == first_line(text@),
        parts.1@ == after_first_line(text@),
{
    let bytes = text.as_bytes();
    let n: usize = bytes.len();
    let mut end: usize = 0;
    while end < n && bytes[end] != LINE_FEED
        invariant
            end <= n,
            n == bytes@.len(),
            forall|j: int| 0 <= j < end ==> bytes@[j] != LINE_FEED,
        decreases n - end,
    {
        end += 1;
    }
    proof {
        // A line feed is no continuation byte, so a character starts at `end`.
        encode_utf8_valid_utf8(text@);
        if end < n {
            is_char_boundary_iff_not_is_continuation_byte(bytes@, end as int);
        } else {
            is_char_boundary_start_end_of_seq(bytes@);
        }
    }
    let (head, tail) = text.split_at(end);
    proof {
        // `head` holds no line feed, and `tail` is empty or starts with one: the
        // first line ends where `head` ends.
        lemma_split_at_boundary(text@, head@, tail@, end as int);
        assert forall|k: int| 0 <= k < head@.len() implies head@[k] != '\n' by {
            if head@[k] == '\n' {
                let j = lemma_ascii_char_has_byte(head@, k);
                assert(bytes@[j] == encode_utf8(head@)[j]);
            }
        }
        if end < n {
            assert(encode_utf8(tail@)[0] == bytes@[end as int]);
            lemma_first_byte(tail@);
            assert(text@[head@.len() as int] == tail@[0]);
        } else {
            assert(encode_utf8(tail@).len() == 0);
            lemma_encode_len(tail@);
        }
        lemma_line_end_unique(text@, head@.len() as int);
    }
    if end == n {
        proof {
            assert(text@ =~= head@);
        }
        return (head, tail);
    }
    proof {
        // The line feed is one byte long, so the next character starts after it.
        encode_utf8_valid_utf8(tail@);
        reveal_with_fuel(is_char_boundary, 2);
    }
    let (feed, rest) = tail.split_at(1);
    proof {
        lemma_split_at_boundary(tail@, feed@, rest@, 1);
        lemma_single_ascii_byte(feed@);
        assert(rest@ =~= text@.skip(head@.len() as int + 1));
        assert(head@ =~= text@.take(head@.len() as int));
    }
    if end > 0 && bytes[end - 1] == CARRIAGE_RETURN {
        proof {
            // Nor is a carriage return a continuation byte.
            encode_utf8_valid_utf8(head@);
            is_char_boundary_iff_not_is_continuation_byte(encode_utf8(head@), end - 1);
        }
        let (line, carriage_return) = head.split_at(end - 1);
        proof {
            lemma_split_at_boundary(head@, line@, carriage_return@, end - 1);
            lemma_single_ascii_byte(carriage_return@);
            assert(line@ =~= head@.drop_last());
        }
        (line, rest)
    } else {
        proof {
            if head@.len() > 0 && head@.last() == '\r' {
                lemma_last_byte(head@);
            }
        }
        (head, rest)
    }
}

/// The width of `line`.
pub fn line_width(line: &str) -> (width: usize)
    ensures
        width == width_of(line@),
{
    line.as_bytes().len()
}

/// The width of the longest line of `message`; 0 where it has no line.
pub fn max_line_length(message: &String) -> (max_length: usize)
    ensures
        max_length == content_width(message@),
{
    let mut rest: &str = message.as_str();
    let mut max_length: usize = 0;
    while !rest.is_empty()
        invariant
            content_width(message@) == if max_length >= content_width(rest@) {
                max_length as nat
            } else {
                content_width(rest@)
            },
        decreases rest@.len(),
    {
        let (line, remainder) = split_first_line(rest);
        let width: usize = line_width(line);
        proof {
            lemma_line_end(rest@);
            assert(lines_of(rest@).drop_first() =~= lines_of(remainder@));
        }
        if width > max_length {
            max_length = width;
        }
        rest = remainder;
    }
    max_length
}

} // verus!
