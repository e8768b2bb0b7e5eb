use std::time::{Duration, Instant};
use test_editor::contents::{EditorContents, WriteError};
use test_editor::output::Output;
use test_editor::rows::{EditorRows, Source};
use test_editor::screen::DrawError;
use test_editor::status::{StatusMessage, MESSAGE_LIFETIME};

fn output(columns: u16, lines: u16, text: &str) -> Output {
    let source = Source::Existing { path: String::from("dir.txt"), text: String::from(text) };
    Output::new((columns, lines), EditorRows::new(source))
}

#[test]
fn text_is_collected() {
    let mut contents = EditorContents::new();
    contents.push('a');
    contents.push_str("bc");
    assert_eq!(contents.write("\u{e9}".as_bytes()), Ok(2));
    contents.queue("\x1b[K");
    assert_eq!(contents.content, "abc\u{e9}\x1b[K");
    contents.clear();
    assert_eq!(contents.content, "");
}

#[test]
fn bytes_that_are_not_text_are_refused() {
    let mut contents = EditorContents::new();
    contents.push('a');
    assert_eq!(contents.write(&[0x62, 0xff]), Err(WriteError::WriteZero));
    assert_eq!(contents.content, "a");
}

#[test]
fn a_message_is_shown_for_its_lifetime() {
    let mut status = StatusMessage::new(String::from("hello"));
    assert_eq!(status.message(), Some(&String::from("hello")));
    assert_eq!(status.message_at(MESSAGE_LIFETIME), Some(&String::from("hello")));
    assert_eq!(status.message_at(MESSAGE_LIFETIME + 1), None);
    assert_eq!(status.message_at(0), None);
    assert_eq!(status.message(), None);
    assert_eq!(status.age(), 0);
    status.set_message(String::from("again"));
    assert_eq!(status.message(), Some(&String::from("again")));
    assert!(status.age() < MESSAGE_LIFETIME);
}

#[test]
fn a_message_grows_old() {
    let mut status = StatusMessage::new(String::from("hello"));
    let earlier = Instant::now().checked_sub(Duration::from_secs(6));
    if earlier.is_some() {
        status.set_time = earlier;
        assert!(status.age() > MESSAGE_LIFETIME);
        assert_eq!(status.message(), None);
        assert_eq!(status.set_time, None);
    }
}

#[test]
fn the_lines_of_the_window_are_drawn() {
    let mut output = output(6, 5, "ab\n\tc");
    output.draw_rows();
    assert_eq!(
        output.editor_contents.content,
        "ab\x1b[K\r\n      \x1b[K\r\n~\x1b[K\r\n"
    );
}

#[test]
fn a_scrolled_window_shows_a_part_of_each_row() {
    let mut output = output(3, 4, "0\nabcdef\nxy\n");
    output.cursor_controller.row_offset = 1;
    output.cursor_controller.columns_offset = 2;
    output.draw_rows();
    assert_eq!(output.editor_contents.content, "cde\x1b[K\r\n\x1b[K\r\n");
}

#[test]
fn an_empty_document_is_greeted() {
    let mut output = output(40, 5, "");
    output.draw_rows();
    assert_eq!(
        output.editor_contents.content,
        "~\x1b[K\r\n~    Test Editor --- Version 0.1.0\x1b[K\r\n~\x1b[K\r\n"
    );
}

#[test]
fn a_greeting_that_is_too_long_is_cut() {
    let mut output = output(11, 3, "");
    output.draw_rows();
    assert_eq!(output.editor_contents.content, "Test Editor\x1b[K\r\n");
}

#[test]
fn the_status_bar_fills_the_line() {
    let mut output = output(40, 5, "a\nb");
    output.draw_status_bar(Some("f.txt"));
    assert_eq!(
        output.editor_contents.content,
        "\x1b[7mf.txt  --- 2 lines                   1/2\x1b[0m\r\n"
    );
}

#[test]
fn the_status_bar_tells_of_changes() {
    let mut output = output(40, 5, "");
    output.dirty = 1;
    output.draw_status_bar(None);
    assert_eq!(
        output.editor_contents.content,
        "\x1b[7m[No Name] (modified) --- 0 lines     1/0\x1b[0m\r\n"
    );
}

#[test]
fn a_status_bar_without_room_leaves_the_row_out() {
    let mut narrow = output(21, 5, "");
    narrow.draw_status_bar(None);
    assert_eq!(
        narrow.editor_contents.content,
        "\x1b[7m[No Name]  --- 0 line\x1b[0m\r\n"
    );
    let mut tight = output(24, 5, "");
    tight.draw_status_bar(None);
    assert_eq!(
        tight.editor_contents.content,
        "\x1b[7m[No Name]  --- 0 lines  \x1b[0m\r\n"
    );
}

#[test]
fn the_message_line_is_cut_to_the_window() {
    let mut output = output(4, 5, "");
    output.draw_message_bar(0);
    assert_eq!(output.editor_contents.content, "\x1b[KHelp");
    output.editor_contents.clear();
    output.draw_message_bar(MESSAGE_LIFETIME + 1);
    assert_eq!(output.editor_contents.content, "\x1b[K");
    assert_eq!(output.status_message.message, None);
}

#[test]
fn the_whole_screen_is_composed() {
    let mut output = output(20, 4, "ab\ncd\nef");
    output.cursor_controller.cursor_y = 2;
    output.cursor_controller.cursor_x = 1;
    assert_eq!(output.refresh_screen(), Ok(()));
    assert_eq!(output.cursor_controller.row_offset, 1);
    assert_eq!(
        output.editor_contents.content,
        "\x1b[?25l\x1b[2J\x1b[1;1Hcd\x1b[K\r\nef\x1b[K\r\n\
         \x1b[7mdir.txt  --- 3 lines\x1b[0m\r\n\x1b[KHelp: Ctrl-Q to Quit\x1b[2;2H\x1b[?25h"
    );
}

#[test]
fn the_screen_can_be_composed_for_a_given_name_and_age() {
    let mut output = output(20, 3, "ab");
    output.refresh_screen_with(None, MESSAGE_LIFETIME + 1);
    assert_eq!(
        output.editor_contents.content,
        "\x1b[?25l\x1b[2J\x1b[1;1Hab\x1b[K\r\n\
         \x1b[7m[No Name]  --- 1 lin\x1b[0m\r\n\x1b[K\x1b[1;1H\x1b[?25h"
    );
}

fn bar_for(path: &str) -> String {
    let rows = EditorRows::from_new_file(String::from(path));
    let mut output = Output::new((40, 3), rows);
    assert_eq!(output.refresh_screen(), Ok(()));
    let content = output.editor_contents.content;
    let start = content.find("\x1b[7m").unwrap() + 4;
    let end = content.find("  --- ").unwrap();
    String::from(&content[start..end])
}

#[test]
fn the_name_is_shown_without_its_directory() {
    assert_eq!(bar_for("note.txt"), "note.txt");
    assert_eq!(bar_for("some/where/note.txt"), "note.txt");
    assert_eq!(bar_for("/etc/my notes"), "my notes");
    assert_eq!(bar_for("../a//b/./.c"), ".c");
}

#[test]
fn what_is_not_a_name_is_passed_over() {
    assert_eq!(bar_for("some/where/"), "where");
    assert_eq!(bar_for("some/where/./."), "where");
    assert_eq!(bar_for("note.txt/.//"), "note.txt");
    assert_eq!(bar_for(".."), "[No Name]");
    assert_eq!(bar_for("some/.."), "[No Name]");
    assert_eq!(bar_for("some/../"), "[No Name]");
    assert_eq!(bar_for("./"), "[No Name]");
    assert_eq!(bar_for("/"), "[No Name]");
    assert_eq!(bar_for(""), "[No Name]");
}

#[test]
fn a_screen_that_cannot_be_drawn_is_left_alone() {
    let mut output = output(20, 4, "\u{e9}");
    output.cursor_controller.cursor_x = 1;
    assert_eq!(output.refresh_screen(), Err(DrawError::Unshowable));
    assert_eq!(output.editor_contents.content, "");
    output.cursor_controller.cursor_x = 2;
    assert_eq!(output.refresh_screen(), Ok(()));
}

#[test]
fn the_cursor_is_placed_behind_tabs() {
    let mut wide = output(80, 4, "\tx");
    wide.cursor_controller.cursor_x = 1;
    assert_eq!(wide.refresh_screen(), Ok(()));
    assert_eq!(wide.cursor_controller.render_x, 8);
    assert_eq!(wide.cursor_controller.columns_offset, 0);
    assert!(wide.editor_contents.content.ends_with("\x1b[1;9H\x1b[?25h"));
    wide.editor_contents.clear();
    wide.cursor_controller.cursor_x = 2;
    assert_eq!(wide.refresh_screen(), Ok(()));
    assert!(wide.editor_contents.content.ends_with("\x1b[1;10H\x1b[?25h"));
}

#[test]
fn tabs_move_the_window_with_the_cursor() {
    let mut output = output(20, 4, "\t\t\t\t");
    output.cursor_controller.cursor_x = 4;
    assert_eq!(output.refresh_screen(), Ok(()));
    assert_eq!(output.cursor_controller.render_x, 32);
    assert_eq!(output.cursor_controller.columns_offset, 13);
    assert!(output.editor_contents.content.ends_with("\x1b[1;20H\x1b[?25h"));
}

#[test]
fn what_can_be_drawn_is_told() {
    let output = output(1, 4, "\u{e9}");
    assert!(!output.may_draw_rows(output.cursor_controller));
    assert!(output.may_draw_message_bar(0));
    assert!(output.may_draw_status_bar(None));
    assert!(!output.may_draw_status_bar(Some("\u{e9}")));
    assert!(output.may_place_cursor(output.cursor_controller));
    assert!(!output.may_refresh(None, 0));
    let mut scrolled = output.cursor_controller;
    scrolled.columns_offset = 2;
    assert!(output.may_draw_rows(scrolled));
    assert!(!output.may_place_cursor(scrolled));
}

#[test]
fn whether_the_screen_can_be_drawn_is_told() {
    let mut output = output(20, 4, "a\u{e9}");
    assert!(output.may_refresh(Some("name"), 0));
    output.cursor_controller.cursor_x = 2;
    assert!(!output.may_refresh(Some("name"), 0));
    assert_eq!(output.refresh_screen(), Err(DrawError::Unshowable));
    assert_eq!(output.cursor_controller.render_x, 0);
}

#[test]
fn setting_a_message_restarts_its_clock() {
    let mut status = StatusMessage::new(String::from("first"));
    if let Some(earlier) = Instant::now().checked_sub(Duration::from_secs(4)) {
        status.set_message_at(String::from("second"), earlier);
        assert_eq!(status.message.as_deref(), Some("second"));
        assert_eq!(status.set_time, Some(earlier));
        assert!(status.age() >= 4_000_000_000);
        status.set_message(String::from("third"));
        assert!(status.set_time > Some(earlier));
        assert!(status.age() < 4_000_000_000);
    }
}

#[test]
fn looking_at_a_message_leaves_its_clock_alone() {
    let mut output = output(20, 4, "a");
    let set_time = output.status_message.set_time;
    assert!(output.status_message.message().is_some());
    assert!(output.status_message.message_at(MESSAGE_LIFETIME).is_some());
    assert_eq!(output.refresh_screen(), Ok(()));
    assert_eq!(output.status_message.set_time, set_time);
    output.insert_char('b');
    assert_eq!(output.status_message.set_time, set_time);
    assert_eq!(output.status_message.message_at(MESSAGE_LIFETIME + 1), None);
    assert_eq!(output.status_message.set_time, None);
}
