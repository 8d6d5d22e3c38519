//! Draws a text message inside a border of line-drawing characters.
//!
//! A [`Box`] is made from a message, takes its layout options one call after the
//! other, and is drawn once:
//!
//! ```text
//! Box::new(String::from("whatever\nwhatever")).to_string()
//!
//! ┌────────────┐
//! │            │
//! │  whatever  │
//! │  whatever  │
//! │            │
//! └────────────┘
//! ```
//!
//! The content column is as wide as the longest line of the message. Each line is
//! set against the left or the right of that column and filled up with spaces on
//! the other side, so that the borders line up. Widths are counted in bytes of
//! UTF-8, which is the number of characters for ASCII text.
//!
//! - [`lines`]: the lines of a message and their widths.
//! - [`layout`]: the layout options and the paddings that follow from them.
//! - [`rows`]: the rows of a box and the functions that draw them.
//! - [`boxed`]: the box itself.
//! - [`laws`]: what holds of every box.
//! - [`encoding`]: facts about UTF-8 on which the search for line ends rests.

pub mod boxed;
pub mod encoding;
pub mod laws;
pub mod layout;
pub mod lines;
pub mod rows;

pub use boxed::{Box, BoxView};
pub use layout::{Alignment, Formatting};
pub use lines::max_line_length;
pub use rows::{
    gen_bottom, gen_left_padding, gen_right_padding, gen_top, gen_vertical_padding,
    gen_whitespace, wrap_lines,
};
