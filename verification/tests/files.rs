use test_editor::rows::{EditorRows, SaveError, Source};

fn contents(rows: &EditorRows) -> Vec<String> {
    (0..rows.number_of_rows()).map(|i| rows.get_row(i).to_string()).collect()
}

fn read(text: &str) -> Vec<String> {
    contents(&EditorRows::from_file(String::from("f"), text))
}

fn written(text: &str) -> String {
    EditorRows::from_file(String::from("f"), text).save().unwrap().contents
}

#[test]
fn a_file_is_read_line_by_line() {
    assert_eq!(read("a\nb"), vec!["a", "b"]);
    assert_eq!(read("a\nb\n"), vec!["a", "b"]);
    assert_eq!(read("a\r\nb\r\n"), vec!["a", "b"]);
    assert_eq!(read("a\n\nb"), vec!["a", "", "b"]);
    assert_eq!(read("\n"), vec![""]);
    assert_eq!(read("a\rb"), vec!["a\rb"]);
    assert_eq!(read("a\r\r\nb"), vec!["a\r", "b"]);
    assert_eq!(read("a\r"), vec!["a\r"]);
    assert!(read("").is_empty());
}

#[test]
fn lines_are_those_of_the_standard_library() {
    for text in ["", "\n", "\r\n", "a", "a\n", "a\r\n\r\nb", "\n\n", "x\ry\n", "\u{e9}\n\tz"] {
        let expected: Vec<String> = text.lines().map(String::from).collect();
        assert_eq!(read(text), expected);
    }
}

#[test]
fn rows_that_are_read_are_ready_to_be_shown() {
    let rows = EditorRows::from_file(String::from("f"), "\tx\ny");
    assert_eq!(rows.get_render(0), "        x");
    assert_eq!(rows.get_editor_row(1).render, "y");
}

#[test]
fn the_source_decides_what_the_document_starts_with() {
    let unnamed = EditorRows::new(Source::Unnamed);
    assert_eq!(unnamed.number_of_rows(), 0);
    assert_eq!(unnamed.filename, None);
    let created = EditorRows::new(Source::Created { path: String::from("n") });
    assert_eq!(created.number_of_rows(), 0);
    assert_eq!(created.filename, Some(String::from("n")));
    let existing = EditorRows::new(Source::Existing {
        path: String::from("e"),
        text: String::from("one\ntwo\n"),
    });
    assert_eq!(contents(&existing), vec!["one", "two"]);
    assert_eq!(existing.filename, Some(String::from("e")));
    let new = EditorRows::from_new_file(String::from("p"));
    assert_eq!(new.filename, Some(String::from("p")));
}

#[test]
fn saving_joins_the_rows() {
    let rows = EditorRows::from_file(String::from("name"), "a\nb\n");
    let request = rows.save().unwrap();
    assert_eq!(request.path, "name");
    assert_eq!(request.contents, "a\nb");
}

#[test]
fn a_document_without_a_file_is_not_saved() {
    let rows = EditorRows::new(Source::Unnamed);
    assert!(matches!(rows.save(), Err(SaveError::NoFilename)));
    assert_eq!(SaveError::NoFilename.description(), "no filename specified");
}

#[test]
fn what_is_saved_is_counted_in_bytes() {
    let rows = EditorRows::from_file(String::from("f"), "a\u{e9}\nb");
    assert_eq!(rows.save().unwrap().bytes(), 5);
}

#[test]
fn saving_gives_back_what_was_read() {
    assert_eq!(written("a\n\nb c"), "a\n\nb c");
    assert_eq!(written(""), "");
    assert_eq!(written("a\n"), "a");
    assert_eq!(written("a\r\nb"), "a\nb");
}

#[test]
fn reading_gives_back_what_was_saved() {
    let mut rows = EditorRows::new(Source::Unnamed);
    rows.insert_row(0, String::from("last"));
    rows.insert_row(0, String::new());
    rows.insert_row(0, String::from("first"));
    rows.filename = Some(String::from("f"));
    let saved = rows.save().unwrap().contents;
    assert_eq!(saved, "first\n\nlast");
    assert_eq!(read(&saved), contents(&rows));
}

#[test]
fn rows_are_joined_to_the_one_above() {
    let mut rows = EditorRows::from_file(String::from("f"), "a\n\tb\nc");
    rows.join_adjacent_rows(1);
    assert_eq!(contents(&rows), vec!["a\tb", "c"]);
    assert_eq!(rows.get_render(0), "a       b");
    rows.join_adjacent_rows(1);
    assert_eq!(contents(&rows), vec!["a\tbc"]);
}

#[test]
fn a_row_can_be_changed_in_place() {
    let mut rows = EditorRows::from_file(String::from("f"), "ab");
    rows.get_editor_row_mut(0).insert_char(1, '-');
    assert_eq!(contents(&rows), vec!["a-b"]);
}

fn out_of_step() -> EditorRows {
    let mut rows = EditorRows::from_file(String::from("f"), "a\n\tb\nc\nd");
    for i in 0..4 {
        rows.get_editor_row_mut(i).render = format!("stale {}", i);
    }
    rows
}

fn renders(rows: &EditorRows) -> Vec<String> {
    (0..rows.number_of_rows()).map(|i| rows.get_render(i).clone()).collect()
}

#[test]
fn inserting_a_row_leaves_what_others_show_alone() {
    let mut rows = out_of_step();
    rows.insert_row(2, String::from("\tx"));
    assert_eq!(contents(&rows), vec!["a", "\tb", "\tx", "c", "d"]);
    assert_eq!(
        renders(&rows),
        vec!["stale 0", "stale 1", "        x", "stale 2", "stale 3"]
    );
}

#[test]
fn joining_rows_leaves_what_others_show_alone() {
    let mut rows = out_of_step();
    rows.join_adjacent_rows(2);
    assert_eq!(contents(&rows), vec!["a", "\tbc", "d"]);
    assert_eq!(renders(&rows), vec!["stale 0", "        bc", "stale 3"]);
}
