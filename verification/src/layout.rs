//! Layout options of a box: padding on each side and alignment of the content.

use vstd::prelude::*;

verus! {

/// The side of the content column that a line is set against.
pub enum Alignment {
    /// Lines start at the left padding; shorter lines are filled up on the right.
    Left,
    /// Lines end at the right padding; shorter lines are filled up on the left.
    Right,
}

/// The layout options of a box.
pub struct Formatting {
    /// Padding of every side that has no value of its own.
    pub padding: usize,
    /// Alignment of the lines inside the content column.
    pub alignment: Alignment,
    /// Width at which lines are meant to wrap. Rendering does not consult it.
    pub max_width: usize,
    /// Columns between the left border and the content, if set.
    pub padding_left: Option<usize>,
    /// Columns between the content and the right border, if set.
    pub padding_right: Option<usize>,
    /// Blank rows between the top border and the content, if set.
    pub padding_top: Option<usize>,
    /// Blank rows between the content and the bottom border, if set.
    pub padding_bottom: Option<usize>,
}

/// The options of a box on which none has been set.
pub open spec fn default_formatting() -> Formatting {
    Formatting {
        padding: 2,
        alignment: Alignment::Left,
        max_width: 80,
        padding_left: None,
        padding_right: None,
        padding_top: None,
        padding_bottom: None,
    }
}

impl Formatting {
    /// Columns between the left border and the content column.
    pub open spec fn left(self) -> nat {
        match self.padding_left {
            Some(columns) => columns as nat,
            None => self.padding as nat,
        }
    }

    /// Columns between the content column and the right border.
    pub open spec fn right(self) -> nat {
        match self.padding_right {
            Some(columns) => columns as nat,
            None => self.padding as nat,
        }
    }

    /// Blank rows between the top border and the content.
    pub open spec fn top(self) -> nat {
        match self.padding_top {
            Some(rows) => rows as nat,
            None => (self.padding / 2) as nat,
        }
    }

    /// Blank rows between the content and the bottom border.
    pub open spec fn bottom(self) -> nat {
        match self.padding_bottom {
            Some(rows) => rows as nat,
            None => (self.padding / 2) as nat,
        }
    }

    /// Columns between the two vertical borders, for a content column of `content`
    /// columns.
    pub open spec fn interior(self, content: nat) -> nat {
        content + self.left() + self.right()
    }

    /// Spaces before a line of width `line` in a content column of `content`
    /// columns.
    pub open spec fn left_fill(self, line: nat, content: nat) -> nat
        recommends
            line <= content,
    {
        match self.alignment {
            Alignment::Left => self.left(),
            Alignment::Right => (self.left() + content - line) as nat,
        }
    }

    /// Spaces after a line of width `line` in a content column of `content`
    /// columns.
    pub open spec fn right_fill(self, line: nat, content: nat) -> nat
        recommends
            line <= content,
    {
        match self.alignment {
            Alignment::Left => (self.right() + content - line) as nat,
            Alignment::Right => self.right(),
        }
    }

    /// The default options: padding 2, left alignment, maximum width 80, no side
    /// with a padding of its own.
    pub fn new() -> (format: Formatting)
        ensures
            format == default_formatting(),
    {
        Formatting {
            padding: 2,
            alignment: Alignment::Left,
            max_width: 80,
            padding_left: None,
            padding_right: None,
            padding_top: None,
            padding_bottom: None,
        }
    }
}

} // verus!
