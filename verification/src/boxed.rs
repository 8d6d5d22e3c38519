//! The box: a message with its layout options, built step by step and then drawn.

use crate::layout::{default_formatting, Alignment, Formatting};
use crate::lines::{lines_of, max_line_length};
use crate::rows::{
    blank_rows, bottom_row, content_rows, gen_bottom, gen_top, gen_vertical_padding,
    lemma_terminated_concat, lemma_terminated_single, rendered, top_row, wrap_lines,
};
use vstd::prelude::*;
use vstd::string::*;

verus! {

/// A message and the layout options of the box to draw around it.
pub struct Box {
    message: String,
    format: Formatting,
}

/// What a box holds: the characters of its message and its layout options.
pub struct BoxView {
    pub message: Seq<char>,
    pub format: Formatting,
}

impl View for Box {
    type V = BoxView;

    closed spec fn view(&self) -> BoxView {
        BoxView { message: self.message@, format: self.format }
    }
}

impl BoxView {
    /// The box as text.
    pub open spec fn rendered(self) -> Seq<char> {
        rendered(self.message, self.format)
    }
}

impl Box {
    /// A box around `message` with the default options.
    pub fn new(message: String) -> (boxed: Box)
        ensures
            boxed@ == (BoxView { message: message@, format: default_formatting() }),
    {
        Box { message: message, format: Formatting::new() }
    }

    /// Sets the padding of every side that has no padding of its own.
    pub fn padding(self, pad: usize) -> (boxed: Self)
        ensures
            boxed@ == (BoxView { format: (Formatting { padding: pad, ..self@.format }), ..self@ }),
    {
        let mut boxed = self;
        boxed.format.padding = pad;
        boxed
    }

    /// Sets the alignment of the lines.
    pub fn alignment(self, align: Alignment) -> (boxed: Self)
        ensures
            boxed@ == (BoxView {
                format: (Formatting { alignment: align, ..self@.format }),
                ..self@
            }),
    {
        let mut boxed = self;
        boxed.format.alignment = align;
        boxed
    }

    /// Sets the width at which lines are meant to wrap. The value is kept, and
    /// drawing does not consult it.
    pub fn max_width(self, width: usize) -> (boxed: Self)
        ensures
            boxed@ == (BoxView {
                format: (Formatting { max_width: width, ..self@.format }),
                ..self@
            }),
    {
        let mut boxed = self;
        boxed.format.max_width = width;
        boxed
    }

    /// Sets the number of blank rows below the content, whatever the global
    /// padding is.
    pub fn padding_bottom(self, pad: usize) -> (boxed: Self)
        ensures
            boxed@ == (BoxView {
                format: (Formatting { padding_bottom: Some(pad), ..self@.format }),
                ..self@
            }),
    {
        let mut boxed = self;
        boxed.format.padding_bottom = Some(pad);
        boxed
    }

    /// Sets the number of blank rows above the content, whatever the global
    /// padding is.
    pub fn padding_top(self, pad: usize) -> (boxed: Self)
        ensures
            boxed@ == (BoxView {
                format: (Formatting { padding_top: Some(pad), ..self@.format }),
                ..self@
            }),
    {
        let mut boxed = self;
        boxed.format.padding_top = Some(pad);
        boxed
    }

    /// Sets the number of columns left of the content, whatever the global padding
    /// is.
    pub fn padding_left(self, pad: usize) -> (boxed: Self)
        ensures
            boxed@ == (BoxView {
                format: (Formatting { padding_left: Some(pad), ..self@.format }),
                ..self@
            }),
    {
        let mut boxed = self;
        boxed.format.padding_left = Some(pad);
        boxed
    }

    /// Sets the number of columns right of the content, whatever the global padding
    /// is.
    pub fn padding_right(self, pad: usize) -> (boxed: Self)
        ensures
            boxed@ == (BoxView {
                format: (Formatting { padding_right: Some(pad), ..self@.format }),
                ..self@
            }),
    {
        let mut boxed = self;
        boxed.format.padding_right = Some(pad);
        boxed
    }

    /// Draws the box: top border, top padding, one row for each line of the
    /// message, bottom padding, bottom border.
    pub fn to_string(self) -> (text: String)
        ensures
            text@ == self@.rendered(),
    {
        let max_length: usize = max_line_length(&self.message);
        let format = self.format;
        let top_padding: usize = format.padding_top.unwrap_or(format.padding / 2);
        let bottom_padding: usize = format.padding_bottom.unwrap_or(format.padding / 2);
        let right_padding: usize = format.padding_right.unwrap_or(format.padding);
        let left_padding: usize = format.padding_left.unwrap_or(format.padding);
        let interior: u128 = max_length as u128 + left_padding as u128 + right_padding as u128;
        let ghost top = seq![top_row(interior as nat)];
        let ghost above = blank_rows(format.top(), interior as nat);
        let ghost content = content_rows(lines_of(self@.message), format, max_length as nat);
        let ghost below = blank_rows(format.bottom(), interior as nat);
        let ghost bottom = seq![bottom_row(interior as nat)];

        let mut boxed_message = gen_top(interior);
        boxed_message.append(gen_vertical_padding(top_padding, interior).as_str());
        boxed_message.append(wrap_lines(self.message, &format, max_length).as_str());
        boxed_message.append(gen_vertical_padding(bottom_padding, interior).as_str());
        boxed_message.append(gen_bottom(interior).as_str());
        proof {
            lemma_terminated_single(top_row(interior as nat));
            lemma_terminated_single(bottom_row(interior as nat));
            lemma_terminated_concat(top, above);
            lemma_terminated_concat(top + above, content);
            lemma_terminated_concat(top + above + content, below);
            lemma_terminated_concat(top + above + content + below, bottom);
        }
        boxed_message
    }
}

} // verus!
