use test_editor::cursor::CursorController;
use test_editor::keys::KeyCode;
use test_editor::rows::EditorRows;

fn rows(text: &str) -> EditorRows {
    EditorRows::from_file(String::from("f"), text)
}

fn at(x: usize, y: usize) -> CursorController {
    let mut cursor = CursorController::new((80, 22));
    cursor.cursor_x = x;
    cursor.cursor_y = y;
    cursor
}

fn step(x: usize, y: usize, direction: KeyCode, text: &str) -> (usize, usize) {
    let mut cursor = at(x, y);
    cursor.move_cursor(direction, &rows(text));
    (cursor.cursor_x, cursor.cursor_y)
}

#[test]
fn a_new_cursor_stands_at_the_start() {
    let cursor = CursorController::new((3, 4));
    assert_eq!((cursor.cursor_x, cursor.cursor_y), (0, 0));
    assert_eq!((cursor.screen_columns, cursor.screen_rows), (3, 4));
    assert_eq!((cursor.row_offset, cursor.columns_offset, cursor.render_x), (0, 0, 0));
}

#[test]
fn the_cursor_moves_step_by_step() {
    let text = "abc\nd\nef";
    assert_eq!(step(2, 0, KeyCode::Down, text), (1, 1));
    assert_eq!(step(2, 2, KeyCode::Down, text), (0, 3));
    assert_eq!(step(0, 3, KeyCode::Down, text), (0, 3));
    assert_eq!(step(1, 1, KeyCode::Up, text), (1, 0));
    assert_eq!(step(1, 0, KeyCode::Up, text), (1, 0));
    assert_eq!(step(0, 1, KeyCode::Left, text), (3, 0));
    assert_eq!(step(2, 0, KeyCode::Left, text), (1, 0));
    assert_eq!(step(0, 0, KeyCode::Left, text), (0, 0));
    assert_eq!(step(0, 3, KeyCode::Left, text), (2, 2));
    assert_eq!(step(3, 0, KeyCode::Right, text), (0, 1));
    assert_eq!(step(1, 0, KeyCode::Right, text), (2, 0));
    assert_eq!(step(2, 2, KeyCode::Right, text), (0, 3));
    assert_eq!(step(0, 3, KeyCode::Right, text), (0, 3));
    assert_eq!(step(1, 0, KeyCode::End, text), (3, 0));
    assert_eq!(step(0, 3, KeyCode::End, text), (0, 3));
    assert_eq!(step(2, 0, KeyCode::Home, text), (0, 0));
    assert_eq!(step(9, 0, KeyCode::Right, text), (3, 0));
}

#[test]
fn left_and_right_undo_each_other() {
    let text = "ab\n\nc";
    for (x, y) in [(0, 0), (1, 0), (2, 0), (0, 1), (0, 2), (1, 2)] {
        let mut cursor = at(x, y);
        cursor.move_cursor(KeyCode::Right, &rows(text));
        cursor.move_cursor(KeyCode::Left, &rows(text));
        assert_eq!(cursor, at(x, y));
    }
    for (x, y) in [(1, 0), (0, 1), (0, 3)] {
        let mut cursor = at(x, y);
        cursor.move_cursor(KeyCode::Left, &rows(text));
        cursor.move_cursor(KeyCode::Right, &rows(text));
        assert_eq!(cursor, at(x, y));
    }
}

#[test]
fn the_shown_column_counts_tabs() {
    let document = rows("a\tb");
    assert_eq!(at(0, 0).get_render_x(document.get_editor_row(0)), 0);
    assert_eq!(at(1, 0).get_render_x(document.get_editor_row(0)), 1);
    assert_eq!(at(2, 0).get_render_x(document.get_editor_row(0)), 8);
    assert_eq!(at(3, 0).get_render_x(document.get_editor_row(0)), 9);
}

#[test]
fn the_shown_column_leads_back_to_the_cursor() {
    let document = rows("a\t\tbc");
    let row = document.get_editor_row(0);
    for x in 0..5 {
        assert_eq!(row.get_row_content_x(at(x, 0).get_render_x(row)), x);
    }
}

#[test]
fn the_window_follows_the_cursor() {
    let document = rows("0\n1\n2\n3\n4\n5\n0123456789");
    let mut cursor = CursorController::new((4, 3));
    cursor.cursor_y = 4;
    cursor.scroll(&document);
    assert_eq!((cursor.row_offset, cursor.columns_offset), (2, 0));
    cursor.cursor_y = 3;
    cursor.scroll(&document);
    assert_eq!(cursor.row_offset, 2);
    cursor.cursor_y = 1;
    cursor.scroll(&document);
    assert_eq!(cursor.row_offset, 1);
    cursor.cursor_y = 6;
    cursor.cursor_x = 7;
    cursor.scroll(&document);
    assert_eq!((cursor.row_offset, cursor.columns_offset, cursor.render_x), (4, 4, 7));
    let seen = cursor;
    cursor.scroll(&document);
    assert_eq!(cursor, seen);
    cursor.cursor_y = 7;
    cursor.cursor_x = 0;
    cursor.scroll(&document);
    assert_eq!((cursor.row_offset, cursor.columns_offset, cursor.render_x), (5, 0, 0));
}

#[test]
fn the_window_cannot_follow_into_a_character() {
    let document = rows("\u{e9}");
    assert!(at(0, 0).may_scroll(&document));
    assert!(!at(1, 0).may_scroll(&document));
    assert!(at(2, 0).may_scroll(&document));
}
