use textbox::lines::{line_width, split_first_line};
use textbox::{
    gen_bottom, gen_left_padding, gen_right_padding, gen_top, gen_vertical_padding,
    gen_whitespace, max_line_length, wrap_lines, Alignment, Formatting,
};

fn options(alignment: Alignment, left: Option<usize>, right: Option<usize>) -> Formatting {
    let mut format = Formatting::new();
    format.alignment = alignment;
    format.padding_left = left;
    format.padding_right = right;
    format
}

fn longest_line_of_std(message: &str) -> usize {
    message.lines().map(|line| line.len()).max().unwrap_or(0)
}

#[test]
fn default_options() {
    let format = Formatting::new();
    assert_eq!(2, format.padding);
    assert!(matches!(format.alignment, Alignment::Left));
    assert_eq!(80, format.max_width);
    assert_eq!(None, format.padding_left);
    assert_eq!(None, format.padding_right);
    assert_eq!(None, format.padding_top);
    assert_eq!(None, format.padding_bottom);
}

#[test]
fn whitespace_has_the_length_asked_for() {
    assert_eq!("", gen_whitespace(0));
    assert_eq!(" ", gen_whitespace(1));
    assert_eq!("       ", gen_whitespace(7));
}

#[test]
fn top_border() {
    assert_eq!("┌┐\n", gen_top(0));
    assert_eq!("┌─┐\n", gen_top(1));
    assert_eq!("┌─────┐\n", gen_top(5));
}

#[test]
fn bottom_border() {
    assert_eq!("└┘\n", gen_bottom(0));
    assert_eq!("└─┘\n", gen_bottom(1));
    assert_eq!("└─────┘\n", gen_bottom(5));
}

#[test]
fn vertical_padding_of_no_rows_or_no_width() {
    assert_eq!("", gen_vertical_padding(0, 12));
    assert_eq!("││\n││\n││\n", gen_vertical_padding(3, 0));
    assert_eq!("│   │\n", gen_vertical_padding(1, 3));
}

#[test]
fn left_padding_by_alignment() {
    let left = options(Alignment::Left, None, None);
    assert_eq!("  ", gen_left_padding(&left, 3, &10));
    let right = options(Alignment::Right, None, None);
    assert_eq!("         ", gen_left_padding(&right, 3, &10));
    assert_eq!("  ", gen_left_padding(&right, 10, &10));
    let right_with_side = options(Alignment::Right, Some(1), Some(5));
    assert_eq!("    ", gen_left_padding(&right_with_side, 7, &10));
    let left_with_side = options(Alignment::Left, Some(0), Some(5));
    assert_eq!("", gen_left_padding(&left_with_side, 7, &10));
}

#[test]
fn right_padding_by_alignment() {
    let left = options(Alignment::Left, None, None);
    assert_eq!("         ", gen_right_padding(&left, 3, &10));
    assert_eq!("  ", gen_right_padding(&left, 10, &10));
    let right = options(Alignment::Right, None, None);
    assert_eq!("  ", gen_right_padding(&right, 3, &10));
    let left_with_side = options(Alignment::Left, Some(1), Some(5));
    assert_eq!("        ", gen_right_padding(&left_with_side, 7, &10));
    let right_with_side = options(Alignment::Right, Some(1), Some(0));
    assert_eq!("", gen_right_padding(&right_with_side, 7, &10));
}

#[test]
fn wrapped_lines_left() {
    let format = options(Alignment::Left, None, None);
    let wrapped = wrap_lines(String::from("ab\nabcd\n\nx"), &format, 4);
    assert_eq!("│  ab    │\n│  abcd  │\n│        │\n│  x     │\n", wrapped);
}

#[test]
fn wrapped_lines_right_in_a_wider_column() {
    let format = options(Alignment::Right, Some(1), Some(0));
    let wrapped = wrap_lines(String::from("ab\nabcd"), &format, 6);
    assert_eq!("│     ab│\n│   abcd│\n", wrapped);
}

#[test]
fn wrapped_lines_of_an_empty_message() {
    let format = Formatting::new();
    assert_eq!("", wrap_lines(String::new(), &format, 0));
    assert_eq!("", wrap_lines(String::new(), &format, 9));
}

#[test]
fn longest_line_of_simple_messages() {
    assert_eq!(0, max_line_length(&String::new()));
    assert_eq!(0, max_line_length(&String::from("\n")));
    assert_eq!(0, max_line_length(&String::from("\n\n\n")));
    assert_eq!(8, max_line_length(&String::from("whatever\nwhatever")));
    assert_eq!(5, max_line_length(&String::from("a\nbcdef\ngh")));
    assert_eq!(5, max_line_length(&String::from("abcde\nf")));
    assert_eq!(3, max_line_length(&String::from("a\nb\nccc\n")));
}

#[test]
fn longest_line_counts_bytes() {
    assert_eq!(2, max_line_length(&String::from("é")));
    assert_eq!(3, max_line_length(&String::from("│")));
    assert_eq!(4, max_line_length(&String::from("ab\n\u{1F600}\nc")));
    assert_eq!(6, max_line_length(&String::from("日本\nabc")));
}

#[test]
fn longest_line_leaves_out_the_terminator() {
    assert_eq!(2, max_line_length(&String::from("ab\r\n")));
    assert_eq!(2, max_line_length(&String::from("ab\r\nc")));
    assert_eq!(3, max_line_length(&String::from("ab\r")));
    assert_eq!(3, max_line_length(&String::from("a\rb\n")));
    assert_eq!(3, max_line_length(&String::from("ab\r\r\n")));
    assert_eq!(1, max_line_length(&String::from("\r\n\r")));
}

#[test]
fn longest_line_agrees_with_the_lines_of_std() {
    let messages = [
        "",
        "\n",
        "\r",
        "\r\n",
        "\n\r",
        "a",
        "a\n",
        "a\r\n",
        "a\n\nb",
        "one\r\ntwo\rthree\nfour\r",
        "é\r\nüber\nnaïve café\n",
        "│ box │\n┌─┐",
        "tab\there\n  spaces  \n",
        "\u{1F600}\u{1F600}\r\n\u{7f}\u{80}\n",
    ];
    for message in messages {
        assert_eq!(longest_line_of_std(message), max_line_length(&String::from(message)));
    }
}

#[test]
fn first_line_and_what_follows() {
    assert_eq!(("", ""), split_first_line(""));
    assert_eq!(("abc", ""), split_first_line("abc"));
    assert_eq!(("abc", ""), split_first_line("abc\n"));
    assert_eq!(("abc", ""), split_first_line("abc\r\n"));
    assert_eq!(("abc\r", ""), split_first_line("abc\r"));
    assert_eq!(("", "abc"), split_first_line("\nabc"));
    assert_eq!(("", "\n"), split_first_line("\n\n"));
    assert_eq!(("a", "b\nc"), split_first_line("a\nb\nc"));
    assert_eq!(("a", "b\r\nc"), split_first_line("a\r\nb\r\nc"));
    assert_eq!(("a\r", "b"), split_first_line("a\r\r\nb"));
    assert_eq!(("a\rb", "c"), split_first_line("a\rb\nc"));
    assert_eq!(("é│", "ü"), split_first_line("é│\nü"));
    assert_eq!(("é│", "\u{1F600}"), split_first_line("é│\r\n\u{1F600}"));
}

#[test]
fn splitting_again_and_again_gives_the_lines_of_std() {
    let messages = ["", "a\nb", "a\r\nb\n", "\n\nx\r\n\r\ny", "é\nü\r", "no terminator"];
    for message in messages {
        let mut lines: Vec<&str> = Vec::new();
        let mut rest = message;
        while !rest.is_empty() {
            let (line, remainder) = split_first_line(rest);
            lines.push(line);
            rest = remainder;
        }
        let expected: Vec<&str> = message.lines().collect();
        assert_eq!(expected, lines);
    }
}

#[test]
fn width_of_a_line_is_its_length_in_bytes() {
    assert_eq!(0, line_width(""));
    assert_eq!(5, line_width("hello"));
    assert_eq!(2, line_width("é"));
    assert_eq!(3, line_width("─"));
    assert_eq!(4, line_width("\u{1F600}"));
    assert_eq!(7, line_width("aé│b"));
}
