//! The rows of a box and the functions that draw them.
//!
//! Every row is drawn with its line feed. A row of interior width `w` has `w`
//! characters between its two border characters. Interior widths are counted in
//! `u128`: the sum of a content width and two paddings always fits.

use crate::layout::{Alignment, Formatting};
use crate::lines::{
    content_width, lemma_line_end, line_width, lines_of, split_first_line, width_of,
};
use vstd::prelude::*;
use vstd::string::*;

verus! {

const VERTICAL: &'static str = "│";

const HORIZONTAL: &'static str = "─";

const TOP_LEFT: &'static str = "┌";

const TOP_RIGHT: &'static str = "┐";

const BOTTOM_LEFT: &'static str = "└";

const BOTTOM_RIGHT: &'static str = "┘";

/// The character `glyph`, `count` times.
pub open spec fn repeated(glyph: char, count: nat) -> Seq<char> {
    Seq::new(count, |i: int| glyph)
}

/// `count` spaces.
pub open spec fn spaces(count: nat) -> Seq<char> {
    repeated(' ', count)
}

/// The top border of a box of the given interior width.
pub open spec fn top_row(interior: nat) -> Seq<char> {
    seq!['┌'] + repeated('─', interior) + seq!['┐']
}

/// The bottom border of a box of the given interior width.
pub open spec fn bottom_row(interior: nat) -> Seq<char> {
    seq!['└'] + repeated('─', interior) + seq!['┘']
}

/// A row of vertical padding: spaces between the two borders.
pub open spec fn blank_row(interior: nat) -> Seq<char> {
    seq!['│'] + spaces(interior) + seq!['│']
}

/// `count` rows of vertical padding.
pub open spec fn blank_rows(count: nat, interior: nat) -> Seq<Seq<char>> {
    Seq::new(count, |i: int| blank_row(interior))
}

/// The row of one line of the message, in a content column of `content` columns:
/// the line stands between the paddings, and what it lacks in width is filled up
/// on the side away from its alignment.
pub open spec fn content_row(line: Seq<char>, format: Formatting, content: nat) -> Seq<char> {
    seq!['│'] + spaces(format.left_fill(width_of(line), content)) + line + spaces(
        format.right_fill(width_of(line), content),
    ) + seq!['│']
}

/// The rows of the given lines, in their order.
pub open spec fn content_rows(lines: Seq<Seq<char>>, format: Formatting, content: nat) -> Seq<
    Seq<char>,
> {
    Seq::new(lines.len(), |i: int| content_row(lines[i], format, content))
}

/// The text of `rows`: each row followed by a line feed.
pub open spec fn terminated(rows: Seq<Seq<char>>) -> Seq<char>
    decreases rows.len(),
{
    if rows.len() == 0 {
        Seq::empty()
    } else {
        rows.first().push('\n') + terminated(rows.drop_first())
    }
}

/// All rows of the box around `message`: top border, top padding, one row for each
/// line, bottom padding, bottom border.
pub open spec fn box_rows(message: Seq<char>, format: Formatting) -> Seq<Seq<char>> {
    let content = content_width(message);
    let interior = format.interior(content);
    seq![top_row(interior)] + blank_rows(format.top(), interior) + content_rows(
        lines_of(message),
        format,
        content,
    ) + blank_rows(format.bottom(), interior) + seq![bottom_row(interior)]
}

/// The box around `message`, as text.
pub open spec fn rendered(message: Seq<char>, format: Formatting) -> Seq<char> {
    terminated(box_rows(message, format))
}

/// The text of two runs of rows is the text of the first followed by that of the
/// second.
pub proof fn lemma_terminated_concat(first: Seq<Seq<char>>, second: Seq<Seq<char>>)
    ensures
        terminated(first + second) == terminated(first) + terminated(second),
    decreases first.len(),
{
    if first.len() == 0 {
        assert(first + second =~= second);
        assert(terminated(first) + terminated(second) =~= terminated(second));
    } else {
        assert((first + second).drop_first() =~= first.drop_first() + second);
        lemma_terminated_concat(first.drop_first(), second);
        assert(terminated(first + second) =~= terminated(first) + terminated(second));
    }
}

/// The text of a single row is the row and its line feed.
pub proof fn lemma_terminated_single(row: Seq<char>)
    ensures
        terminated(seq![row]) == row.push('\n'),
{
    assert(seq![row].drop_first() =~= Seq::<Seq<char>>::empty());
    assert(terminated(seq![row].drop_first()) =~= Seq::<char>::empty());
    assert(terminated(seq![row]) =~= row.push('\n'));
}

/// Draws `glyph`, a text of one character, `count` times.
fn gen_repeated(glyph: &str, count: u128) -> (run: String)
    requires
        glyph@.len() == 1,
    ensures
        run@ == repeated(glyph@[0], count as nat),
{
    let mut run = String::new();
    let mut drawn: u128 = 0;
    while drawn < count
        invariant
            drawn <= count,
            glyph@.len() == 1,
            run@ == repeated(glyph@[0], drawn as nat),
        decreases count - drawn,
    {
        run.append(glyph);
        drawn += 1;
        assert(run@ =~= repeated(glyph@[0], drawn as nat));
    }
    run
}

/// Draws `num` spaces.
pub fn gen_whitespace(num: u128) -> (whitespace: String)
    ensures
        whitespace@ == spaces(num as nat),
{
    proof {
        reveal_strlit(" ");
    }
    gen_repeated(" ", num)
}

/// Draws the top border of a box of interior width `length`.
pub fn gen_top(length: u128) -> (top: String)
    ensures
        top@ == top_row(length as nat).push('\n'),
{
    proof {
        reveal_strlit("┌");
        reveal_strlit("─");
        reveal_strlit("┐");
        reveal_strlit("\n");
    }
    let mut top = String::from_str(TOP_LEFT);
    top.append(gen_repeated(HORIZONTAL, length).as_str());
    top.append(TOP_RIGHT);
    top.append("\n");
    assert(top@ =~= top_row(length as nat).push('\n'));
    top
}

/// Draws the bottom border of a box of interior width `length`.
pub fn gen_bottom(length: u128) -> (bottom: String)
    ensures
        bottom@ == bottom_row(length as nat).push('\n'),
{
    proof {
        reveal_strlit("└");
        reveal_strlit("─");
        reveal_strlit("┘");
        reveal_strlit("\n");
    }
    let mut bottom = String::from_str(BOTTOM_LEFT);
    bottom.append(gen_repeated(HORIZONTAL, length).as_str());
    bottom.append(BOTTOM_RIGHT);
    bottom.append("\n");
    assert(bottom@ =~= bottom_row(length as nat).push('\n'));
    bottom
}

/// Draws `pad` rows of vertical padding for a box of interior width `length`.
pub fn gen_vertical_padding(pad: usize, length: u128) -> (padding: String)
    ensures
        padding@ == terminated(blank_rows(pad as nat, length as nat)),
{
    proof {
        reveal_strlit("│");
        reveal_strlit("\n");
    }
    let mut row = String::from_str(VERTICAL);
    row.append(gen_whitespace(length).as_str());
    row.append(VERTICAL);
    row.append("\n");
    assert(row@ =~= blank_row(length as nat).push('\n'));
    let mut padding = String::new();
    let mut drawn: usize = 0;
    while drawn < pad
        invariant
            drawn <= pad,
            row@ == blank_row(length as nat).push('\n'),
            padding@ == terminated(blank_rows(drawn as nat, length as nat)),
        decreases pad - drawn,
    {
        padding.append(row.as_str());
        proof {
            let before = blank_rows(drawn as nat, length as nat);
            let after = blank_rows((drawn + 1) as nat, length as nat);
            assert(after =~= before + seq![blank_row(length as nat)]);
            lemma_terminated_concat(before, seq![blank_row(length as nat)]);
            lemma_terminated_single(blank_row(length as nat));
        }
        drawn += 1;
    }
    padding
}

/// Draws the spaces between the left border and a line of width `line_length`, in a
/// content column of `max_length` columns.
pub fn gen_left_padding(format: &Formatting, line_length: usize, max_length: &usize) -> (padding:
    String)
    requires
        format.alignment is Right ==> line_length <= *max_length,
    ensures
        padding@ == spaces(format.left_fill(line_length as nat, *max_length as nat)),
{
    let left: usize = format.padding_left.unwrap_or(format.padding);
    let padding: u128 = match format.alignment {
        Alignment::Left => left as u128,
        Alignment::Right => left as u128 + (*max_length - line_length) as u128,
    };
    gen_whitespace(padding)
}

/// Draws the spaces between a line of width `line_length` and the right border, in
/// a content column of `max_length` columns.
pub fn gen_right_padding(format: &Formatting, line_length: usize, max_length: &usize) -> (padding:
    String)
    requires
        format.alignment is Left ==> line_length <= *max_length,
    ensures
        padding@ == spaces(format.right_fill(line_length as nat, *max_length as nat)),
{
    let right: usize = format.padding_right.unwrap_or(format.padding);
    let padding: u128 = match format.alignment {
        Alignment::Right => right as u128,
        Alignment::Left => right as u128 + (*max_length - line_length) as u128,
    };
    gen_whitespace(padding)
}

/// Draws one row for each line of `message`, in a content column of `max_length`
/// columns.
pub fn wrap_lines(message: String, format: &Formatting, max_length: usize) -> (wrapped: String)
    requires
        content_width(message@) <= max_length,
    ensures
        wrapped@ == terminated(content_rows(lines_of(message@), *format, max_length as nat)),
{
    let mut wrapped = String::new();
    let mut rest: &str = message.as_str();
    let ghost mut done: Seq<Seq<char>> = Seq::empty();
    assert(done + lines_of(rest@) =~= lines_of(message@));
    while !rest.is_empty()
        invariant
            lines_of(message@) == done + lines_of(rest@),
            wrapped@ == terminated(content_rows(done, *format, max_length as nat)),
            content_width(rest@) <= max_length,
        decreases rest@.len(),
    {
        let (line, remainder) = split_first_line(rest);
        proof {
            lemma_line_end(rest@);
            assert(lines_of(rest@).drop_first() =~= lines_of(remainder@));
        }
        let left_padding = gen_left_padding(format, line_width(line), &max_length);
        let right_padding = gen_right_padding(format, line_width(line), &max_length);
        wrapped.append(VERTICAL);
        wrapped.append(left_padding.as_str());
        wrapped.append(line);
        wrapped.append(right_padding.as_str());
        wrapped.append(VERTICAL);
        wrapped.append("\n");
        proof {
            reveal_strlit("│");
            reveal_strlit("\n");
            let content = max_length as nat;
            let row = content_row(line@, *format, content);
            let before = content_rows(done, *format, content);
            assert(content_rows(done.push(line@), *format, content) =~= before + seq![row]);
            lemma_terminated_concat(before, seq![row]);
            lemma_terminated_single(row);
            assert(wrapped@ =~= terminated(before) + row.push('\n'));
            assert(done.push(line@) + lines_of(remainder@) =~= done + lines_of(rest@));
            done = done.push(line@);
        }
        rest = remainder;
    }
    proof {
        assert(done + lines_of(rest@) =~= done);
    }
    wrapped
}

} // verus!
