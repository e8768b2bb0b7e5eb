use test_editor::columns::TAB_STOP;
use test_editor::row::Row;
use test_editor::rows::EditorRows;
use test_editor::text::{
    at_boundary, chars_of, decimal_text, find_text, push_repeated, slice_text, split_text, text_len,
};

fn row(content: &str) -> Row {
    let mut row = Row::new(String::from(content), String::new());
    EditorRows::render_row(&mut row);
    row
}

#[test]
fn a_row_is_made_of_the_given_parts() {
    let row = Row::new(String::from("a"), String::from("b"));
    assert_eq!(row.row_content, "a");
    assert_eq!(row.render, "b");
    let empty = Row::default();
    assert_eq!(empty.row_content, "");
    assert_eq!(empty.render, "");
}

#[test]
fn tabs_reach_the_next_stop() {
    assert_eq!(TAB_STOP, 8);
    assert_eq!(row("\t").render, "        ");
    assert_eq!(row("a\tb").render, "a       b");
    assert_eq!(row("1234567\tb").render, "1234567 b");
    assert_eq!(row("12345678\tb").render, "12345678        b");
    assert_eq!(row("a\t\tb").render, "a               b");
}

#[test]
fn a_row_without_tabs_is_shown_as_it_is() {
    assert_eq!(row("plain text").render, "plain text");
    assert_eq!(row("").render, "");
    assert_eq!(row("\u{e9}t\u{e9}").render, "\u{e9}t\u{e9}");
}

#[test]
fn inserting_and_deleting_in_a_row() {
    let mut row = row("ac");
    row.insert_char(1, '\t');
    assert_eq!(row.row_content, "a\tc");
    assert_eq!(row.render, "a       c");
    row.delete_char(1);
    assert_eq!(row.row_content, "ac");
    assert_eq!(row.render, "ac");
    row.insert_char(2, '\u{e9}');
    assert_eq!(row.row_content, "ac\u{e9}");
    row.insert_char(4, 'x');
    assert_eq!(row.row_content, "ac\u{e9}x");
    row.delete_char(2);
    assert_eq!(row.row_content, "acx");
}

#[test]
fn columns_lead_back_to_characters() {
    let row = row("a\tb");
    assert_eq!(row.get_row_content_x(0), 0);
    for column in 1..8 {
        assert_eq!(row.get_row_content_x(column), 1);
    }
    assert_eq!(row.get_row_content_x(8), 2);
    assert_eq!(row.get_row_content_x(9), 0);
}

#[test]
fn texts_are_measured_in_bytes() {
    assert_eq!(text_len("abc"), 3);
    assert_eq!(text_len("\u{e9}"), 2);
    assert_eq!(chars_of("\u{e9}t"), vec!['\u{e9}', 't']);
    assert!(at_boundary("\u{e9}", 0));
    assert!(!at_boundary("\u{e9}", 1));
    assert!(at_boundary("\u{e9}", 2));
    assert!(!at_boundary("\u{e9}", 3));
    assert_eq!(split_text("a\u{e9}b", 3), ("a\u{e9}", "b"));
    assert_eq!(slice_text("a\u{e9}bc", 1, 4), "\u{e9}b");
}

#[test]
fn numbers_are_written_in_decimal() {
    assert_eq!(decimal_text(0), "0");
    assert_eq!(decimal_text(10), "10");
    assert_eq!(decimal_text(65535), "65535");
    assert_eq!(decimal_text(usize::MAX), usize::MAX.to_string());
}

#[test]
fn characters_are_repeated() {
    let mut text = String::from("a");
    push_repeated(&mut text, '-', 3);
    push_repeated(&mut text, '+', 0);
    assert_eq!(text, "a---");
}

#[test]
fn the_leftmost_occurrence_is_found() {
    assert_eq!(find_text("abcabc", "bc"), Some(1));
    assert_eq!(find_text("aab", "ab"), Some(1));
    assert_eq!(find_text("\u{e9}x", "x"), Some(2));
    assert_eq!(find_text("abc", "abcd"), None);
    assert_eq!(find_text("abc", "x"), None);
    assert_eq!(find_text("abc", ""), Some(0));
    assert_eq!(find_text("", ""), Some(0));
}
