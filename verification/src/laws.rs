//! What holds of the lines of every message and of the box drawn around it.

use crate::layout::{Alignment, Formatting};
use crate::lines::{
    after_first_line, content_width, lemma_line_end, lemma_line_end_unique, lines_of, widest,
    width_of,
};
use crate::rows::{
    blank_row, blank_rows, bottom_row, box_rows, content_row, content_rows, rendered, spaces,
    terminated, top_row,
};
use vstd::prelude::*;
use vstd::utf8::*;

verus! {

/// True when `row` holds no line feed and does not end with a carriage return, so
/// that it is a line of any text in which a line feed follows it.
pub open spec fn is_plain_row(row: Seq<char>) -> bool {
    &&& forall|k: int| 0 <= k < row.len() ==> row[k] != '\n'
    &&& row.len() > 0 ==> row.last() != '\r'
}

/// The greatest width among the lines is a width of one of them, and none is
/// wider; where there is no line it is 0.
pub proof fn lemma_widest_is_maximum(lines: Seq<Seq<char>>)
    ensures
        forall|i: int| 0 <= i < lines.len() ==> width_of(#[trigger] lines[i]) <= widest(lines),
        lines.len() > 0 ==> exists|i: int|
            0 <= i < lines.len() && width_of(#[trigger] lines[i]) == widest(lines),
        lines.len() == 0 ==> widest(lines) == 0,
    decreases lines.len(),
{
    if lines.len() > 0 {
        let rest = lines.drop_first();
        lemma_widest_is_maximum(rest);
        assert forall|i: int| 0 <= i < lines.len() implies width_of(#[trigger] lines[i]) <= widest(
            lines,
        ) by {
            if i > 0 {
                assert(lines[i] == rest[i - 1]);
            }
        }
        if width_of(lines.first()) >= widest(rest) {
            assert(width_of(lines[0]) == widest(lines));
        } else {
            let widest_of_rest = choose|i: int|
                0 <= i < rest.len() && width_of(#[trigger] rest[i]) == widest(rest);
            assert(lines[widest_of_rest + 1] == rest[widest_of_rest]);
        }
    }
}

/// The width of the content column is the greatest width among the lines of the
/// message, 0 for a message without lines. It depends on the message alone: the
/// borders of the box are that wide, plus the paddings on the left and on the
/// right, whatever the alignment and the paddings are.
pub proof fn lemma_content_width_is_maximum(message: Seq<char>, format: Formatting)
    ensures
        forall|i: int|
            0 <= i < lines_of(message).len() ==> width_of(#[trigger] lines_of(message)[i])
                <= content_width(message),
        lines_of(message).len() > 0 ==> exists|i: int|
            0 <= i < lines_of(message).len() && width_of(#[trigger] lines_of(message)[i])
                == content_width(message),
        lines_of(message).len() == 0 ==> content_width(message) == 0,
        box_rows(message, format).first().len() == content_width(message) + format.left()
            + format.right() + 2,
        box_rows(message, format).last().len() == content_width(message) + format.left()
            + format.right() + 2,
{
    lemma_widest_is_maximum(lines_of(message));
    lemma_box_rows(message, format);
}

/// No line holds a line feed, and the lines of an ASCII text are ASCII.
pub proof fn lemma_lines_of_chars(text: Seq<char>)
    ensures
        forall|i: int, k: int|
            0 <= i < lines_of(text).len() && 0 <= k < lines_of(text)[i].len()
                ==> #[trigger] lines_of(text)[i][k] != '\n',
        is_ascii_chars(text) ==> forall|i: int|
            0 <= i < lines_of(text).len() ==> is_ascii_chars(#[trigger] lines_of(text)[i]),
    decreases text.len(),
{
    if text.len() > 0 {
        let rest = after_first_line(text);
        let lines = lines_of(text);
        lemma_line_end(text);
        lemma_lines_of_chars(rest);
        assert forall|i: int, k: int| 0 <= i < lines.len() && 0 <= k < lines[i].len() implies
            #[trigger] lines[i][k] != '\n' by {
            if i > 0 {
                assert(lines[i] == lines_of(rest)[i - 1]);
            }
        }
        if is_ascii_chars(text) {
            assert(is_ascii_chars(rest));
            assert forall|i: int| 0 <= i < lines.len() implies is_ascii_chars(
                #[trigger] lines[i],
            ) by {
                if i > 0 {
                    assert(lines[i] == lines_of(rest)[i - 1]);
                }
            }
        }
    }
}

/// Rows that are drawn each with its line feed are the lines of the text drawn,
/// where no row holds a line feed or ends with a carriage return.
pub proof fn lemma_lines_of_terminated(rows: Seq<Seq<char>>)
    requires
        forall|i: int| 0 <= i < rows.len() ==> is_plain_row(#[trigger] rows[i]),
    ensures
        lines_of(terminated(rows)) == rows,
    decreases rows.len(),
{
    if rows.len() > 0 {
        let row = rows.first();
        let rest = rows.drop_first();
        let text = terminated(rows);
        assert(is_plain_row(rows[0]));
        assert forall|i: int| 0 <= i < rest.len() implies is_plain_row(#[trigger] rest[i]) by {
            assert(rest[i] == rows[i + 1]);
        }
        lemma_lines_of_terminated(rest);
        assert(text[row.len() as int] == '\n');
        assert forall|k: int| 0 <= k < row.len() implies text[k] != '\n' by {
            assert(text[k] == row[k]);
        }
        lemma_line_end_unique(text, row.len() as int);
        assert(text.take(row.len() as int) =~= row);
        assert(text.skip(row.len() as int + 1) =~= terminated(rest));
        assert(lines_of(text) =~= rows);
    } else {
        assert(lines_of(terminated(rows)) =~= rows);
    }
}

/// The rows of a box: the top border, then the rows of top padding, then one row
/// for each line of the message in order, then the rows of bottom padding, then
/// the bottom border.
pub proof fn lemma_box_rows(message: Seq<char>, format: Formatting)
    ensures
        ({
            let rows = box_rows(message, format);
            let lines = lines_of(message);
            let content = content_width(message);
            let interior = format.interior(content);
            let first = format.top() as int + 1;
            let below = first + lines.len() as int;
            let last = below + format.bottom() as int;
            &&& rows.len() == last + 1
            &&& rows[0] == top_row(interior)
            &&& forall|i: int| 1 <= i < first ==> #[trigger] rows[i] == blank_row(interior)
            &&& forall|i: int|
                0 <= i < lines.len() ==> #[trigger] rows[first + i] == content_row(
                    lines[i],
                    format,
                    content,
                )
            &&& forall|i: int|
                below <= i < last ==> #[trigger] rows[i] == blank_row(interior)
            &&& rows[last] == bottom_row(interior)
        }),
{
}

/// The lines of the text of a box are its rows: the text ends with a line feed,
/// and no row is cut in two or joined with the next.
pub proof fn lemma_rendered_lines(message: Seq<char>, format: Formatting)
    ensures
        lines_of(rendered(message, format)) == box_rows(message, format),
{
    let rows = box_rows(message, format);
    let lines = lines_of(message);
    lemma_box_rows(message, format);
    lemma_lines_of_chars(message);
    assert forall|i: int| 0 <= i < rows.len() implies is_plain_row(#[trigger] rows[i]) by {
        let first = format.top() as int + 1;
        if first <= i < first + lines.len() {
            let line = lines[i - first];
            assert(rows[first + (i - first)] == content_row(line, format, content_width(message)));
            assert forall|k: int| 0 <= k < rows[i].len() implies rows[i][k] != '\n' by {
                let before = 1 + format.left_fill(width_of(line), content_width(message));
                if before <= k < before + line.len() {
                    assert(rows[i][k] == line[k - before]);
                }
            }
        }
    }
    lemma_lines_of_terminated(rows);
}

/// The number of characters of each row. A border or a row of padding has the
/// interior width and the two borders. The row of a line has as many less as the
/// line has more bytes than characters.
pub proof fn lemma_row_lengths(message: Seq<char>, format: Formatting)
    ensures
        ({
            let rows = box_rows(message, format);
            let lines = lines_of(message);
            let interior = format.interior(content_width(message));
            let first = format.top() as int + 1;
            &&& forall|i: int|
                0 <= i < rows.len() && !(first <= i < first + lines.len()) ==> (
                #[trigger] rows[i]).len() == interior + 2
            &&& forall|i: int|
                0 <= i < lines.len() ==> (#[trigger] rows[first + i]).len() + width_of(lines[i])
                    == interior + 2 + lines[i].len()
        }),
{
    let rows = box_rows(message, format);
    let lines = lines_of(message);
    let first = format.top() as int + 1;
    lemma_box_rows(message, format);
    lemma_widest_is_maximum(lines);
    assert forall|i: int| 0 <= i < lines.len() implies (#[trigger] rows[first + i]).len()
        + width_of(lines[i]) == format.interior(content_width(message)) + 2 + lines[i].len() by {
        assert(rows[first + i] == content_row(lines[i], format, content_width(message)));
    }
}

/// Every line of the text of a box around an ASCII message has the same number of
/// characters: the interior width and the two borders.
pub proof fn lemma_uniform_width(message: Seq<char>, format: Formatting)
    requires
        is_ascii_chars(message),
    ensures
        forall|i: int|
            0 <= i < lines_of(rendered(message, format)).len() ==> (#[trigger] lines_of(
                rendered(message, format),
            )[i]).len() == format.interior(content_width(message)) + 2,
{
    let rows = box_rows(message, format);
    let lines = lines_of(message);
    let first = format.top() as int + 1;
    lemma_rendered_lines(message, format);
    lemma_row_lengths(message, format);
    lemma_lines_of_chars(message);
    assert forall|i: int| 0 <= i < rows.len() implies (#[trigger] rows[i]).len()
        == format.interior(content_width(message)) + 2 by {
        if first <= i < first + lines.len() {
            assert(rows[i] == rows[first + (i - first)]);
            is_ascii_chars_encode_utf8(lines[i - first]);
        }
    }
}

/// Where no side has a padding of its own, a global padding of `p` gives `p / 2`
/// blank rows above and below the content and `p` columns on its left and on its
/// right.
pub proof fn lemma_default_padding_split(message: Seq<char>, format: Formatting)
    requires
        format.padding_left is None,
        format.padding_right is None,
        format.padding_top is None,
        format.padding_bottom is None,
    ensures
        format.top() == format.padding / 2,
        format.bottom() == format.padding / 2,
        format.left() == format.padding,
        format.right() == format.padding,
        box_rows(message, format).len() == lines_of(message).len() + 2 * (format.padding / 2)
            + 2,
        box_rows(message, format).first().len() == content_width(message) + 2 * format.padding
            + 2,
{
    lemma_box_rows(message, format);
}

/// A side with a padding of its own has that padding, whatever the global padding
/// is.
pub proof fn lemma_side_padding_wins(format: Formatting, global: usize)
    ensures
        ({
            let other = Formatting { padding: global, ..format };
            &&& format.padding_left is Some ==> other.left() == format.left()
            &&& format.padding_right is Some ==> other.right() == format.right()
            &&& format.padding_top is Some ==> other.top() == format.top()
            &&& format.padding_bottom is Some ==> other.bottom() == format.bottom()
        }),
{
}

/// Two texts have the same length where their rows, one by one, have.
proof fn lemma_terminated_len(first: Seq<Seq<char>>, second: Seq<Seq<char>>)
    requires
        first.len() == second.len(),
        forall|i: int| 0 <= i < first.len() ==> (#[trigger] first[i]).len() == second[i].len(),
    ensures
        terminated(first).len() == terminated(second).len(),
    decreases first.len(),
{
    if first.len() > 0 {
        assert(first[0].len() == second[0].len());
        assert forall|i: int| 0 <= i < first.drop_first().len() implies (
        #[trigger] first.drop_first()[i]).len() == second.drop_first()[i].len() by {
            assert(first.drop_first()[i] == first[i + 1]);
            assert(second.drop_first()[i] == second[i + 1]);
        }
        lemma_terminated_len(first.drop_first(), second.drop_first());
    }
}

/// The box of a message drawn with left alignment and the one drawn with right
/// alignment, all else equal, have the same number of rows, row by row the same
/// number of characters, and the same borders and rows of padding. They differ in
/// the rows of the content alone: what a line lacks in width stands after it with
/// left alignment and before it with right alignment.
pub proof fn lemma_alignment_symmetry(message: Seq<char>, format: Formatting)
    ensures
        ({
            let left = Formatting { alignment: Alignment::Left, ..format };
            let right = Formatting { alignment: Alignment::Right, ..format };
            let left_rows = box_rows(message, left);
            let right_rows = box_rows(message, right);
            let lines = lines_of(message);
            let content = content_width(message);
            let first = format.top() as int + 1;
            &&& left_rows.len() == right_rows.len()
            &&& forall|i: int|
                0 <= i < left_rows.len() ==> (#[trigger] left_rows[i]).len() == right_rows[i].len()
            &&& forall|i: int|
                0 <= i < left_rows.len() && !(first <= i < first + lines.len())
                    ==> #[trigger] left_rows[i] == right_rows[i]
            &&& forall|i: int|
                0 <= i < lines.len() ==> {
                    let gap = (content - width_of(lines[i])) as nat;
                    &&& #[trigger] left_rows[first + i] == seq!['│'] + spaces(format.left())
                        + lines[i] + spaces(gap + format.right()) + seq!['│']
                    &&& right_rows[first + i] == seq!['│'] + spaces(format.left() + gap) + lines[i]
                        + spaces(format.right()) + seq!['│']
                }
            &&& rendered(message, left).len() == rendered(message, right).len()
        }),
{
    let left = Formatting { alignment: Alignment::Left, ..format };
    let right = Formatting { alignment: Alignment::Right, ..format };
    let left_rows = box_rows(message, left);
    let right_rows = box_rows(message, right);
    let lines = lines_of(message);
    let content = content_width(message);
    let first = format.top() as int + 1;
    lemma_box_rows(message, left);
    lemma_box_rows(message, right);
    lemma_widest_is_maximum(lines);
    assert forall|i: int| 0 <= i < lines.len() implies {
        let gap = (content - width_of(lines[i])) as nat;
        &&& #[trigger] left_rows[first + i] == seq!['│'] + spaces(format.left()) + lines[i]
            + spaces(gap + format.right()) + seq!['│']
        &&& right_rows[first + i] == seq!['│'] + spaces(format.left() + gap) + lines[i] + spaces(
            format.right(),
        ) + seq!['│']
        &&& left_rows[first + i].len() == right_rows[first + i].len()
    } by {
        assert(left_rows[first + i] == content_row(lines[i], left, content));
        assert(right_rows[first + i] == content_row(lines[i], right, content));
    }
    assert forall|i: int| 0 <= i < left_rows.len() implies (#[trigger] left_rows[i]).len()
        == right_rows[i].len() by {
        if first <= i < first + lines.len() {
            assert(left_rows[first + (i - first)].len() == right_rows[first + (i - first)].len());
        }
    }
    lemma_terminated_len(left_rows, right_rows);
}

/// The width at which lines are meant to wrap has no part in the drawing.
pub proof fn lemma_max_width_is_ignored(message: Seq<char>, format: Formatting, width: usize)
    ensures
        rendered(message, Formatting { max_width: width, ..format }) == rendered(message, format),
{
    let other = Formatting { max_width: width, ..format };
    assert(content_rows(lines_of(message), other, content_width(message)) =~= content_rows(
        lines_of(message),
        format,
        content_width(message),
    ));
}

/// The box around the empty message has no row of content and a content column of
/// width 0: it is the two borders and the rows of padding between them, as wide
/// as the paddings on the left and on the right together.
pub proof fn lemma_empty_message(format: Formatting)
    ensures
        lines_of(Seq::<char>::empty()).len() == 0,
        content_width(Seq::<char>::empty()) == 0,
        box_rows(Seq::<char>::empty(), format) == seq![top_row(format.left() + format.right())]
            + blank_rows(format.top(), format.left() + format.right()) + blank_rows(
            format.bottom(),
            format.left() + format.right(),
        ) + seq![bottom_row(format.left() + format.right())],
{
    let none = Seq::<char>::empty();
    assert(content_rows(lines_of(none), format, 0) =~= Seq::<Seq<char>>::empty());
    assert(box_rows(none, format) =~= seq![top_row(format.left() + format.right())] + blank_rows(
        format.top(),
        format.left() + format.right(),
    ) + blank_rows(format.bottom(), format.left() + format.right()) + seq![
        bottom_row(format.left() + format.right()),
    ]);
}

} // verus!
