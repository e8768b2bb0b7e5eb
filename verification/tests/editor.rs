use std::time::{Duration, Instant};
use test_editor::editor::{Action, Command, Editor};
use test_editor::keys::{KeyCode, KeyEvent, KeyModifiers};
use test_editor::output::{PromptKind, PromptOutcome};
use test_editor::rows::Source;

const NONE: KeyModifiers = KeyModifiers { shift: false, control: false, alt: false };
const SHIFT: KeyModifiers = KeyModifiers { shift: true, control: false, alt: false };
const CONTROL: KeyModifiers = KeyModifiers { shift: false, control: true, alt: false };
const ALT: KeyModifiers = KeyModifiers { shift: false, control: false, alt: true };

fn key(code: KeyCode) -> KeyEvent {
    KeyEvent { code, modifiers: NONE }
}

fn control(ch: char) -> KeyEvent {
    KeyEvent { code: KeyCode::Char(ch), modifiers: CONTROL }
}

fn editor(text: &str) -> Editor {
    let source = Source::Existing { path: String::from("f"), text: String::from(text) };
    Editor::new((80, 12), source)
}

fn unnamed() -> Editor {
    Editor::new((80, 12), Source::Unnamed)
}

fn press(editor: &mut Editor, key: KeyEvent) -> Action {
    assert!(editor.accepts(key));
    editor.process_keypress(key)
}

fn go(editor: &mut Editor, code: KeyCode) {
    assert!(matches!(press(editor, key(code)), Action::Continue));
}

fn type_text(editor: &mut Editor, text: &str) {
    for ch in text.chars() {
        go(editor, KeyCode::Char(ch));
    }
}

fn rows(editor: &Editor) -> Vec<String> {
    let rows = &editor.output.editor_rows;
    (0..rows.number_of_rows()).map(|i| rows.get_row(i).to_string()).collect()
}

fn place(editor: &Editor) -> (usize, usize) {
    let cursor = &editor.output.cursor_controller;
    (cursor.cursor_x, cursor.cursor_y)
}

fn message(editor: &Editor) -> String {
    editor.output.status_message.message.clone().unwrap()
}

#[test]
fn the_editor_starts_at_the_top() {
    let editor = editor("a\nb");
    assert_eq!(rows(&editor), vec!["a", "b"]);
    assert_eq!(place(&editor), (0, 0));
    assert_eq!(editor.output.win_size, (80, 10));
    assert_eq!(editor.output.dirty, 0);
    assert_eq!(editor.quit_times, 1);
    assert_eq!(message(&editor), "Help: Ctrl-Q to Quit | Ctrl-S to save | Ctrl-F to search");
}

#[test]
fn keys_have_meanings() {
    assert_eq!(Command::of(control('q')), Command::Quit);
    assert_eq!(Command::of(control('s')), Command::Save);
    assert_eq!(Command::of(control('f')), Command::Find);
    assert_eq!(Command::of(control('x')), Command::Ignore);
    assert_eq!(Command::of(key(KeyCode::Char('q'))), Command::Insert('q'));
    assert_eq!(
        Command::of(KeyEvent { code: KeyCode::Char('Q'), modifiers: SHIFT }),
        Command::Insert('Q')
    );
    assert_eq!(Command::of(KeyEvent { code: KeyCode::Char('q'), modifiers: ALT }), Command::Ignore);
    assert_eq!(Command::of(key(KeyCode::Tab)), Command::Insert('\t'));
    assert_eq!(
        Command::of(KeyEvent { code: KeyCode::Tab, modifiers: SHIFT }),
        Command::Insert('\t')
    );
    assert_eq!(Command::of(KeyEvent { code: KeyCode::Tab, modifiers: CONTROL }), Command::Ignore);
    assert_eq!(Command::of(key(KeyCode::Home)), Command::Move(KeyCode::Home));
    assert_eq!(Command::of(KeyEvent { code: KeyCode::Home, modifiers: SHIFT }), Command::Ignore);
    assert_eq!(Command::of(key(KeyCode::PageUp)), Command::PageUp);
    assert_eq!(Command::of(key(KeyCode::PageDown)), Command::PageDown);
    assert_eq!(Command::of(key(KeyCode::Backspace)), Command::Backspace);
    assert_eq!(Command::of(key(KeyCode::Delete)), Command::Delete);
    assert_eq!(Command::of(key(KeyCode::Enter)), Command::Newline);
    assert_eq!(Command::of(KeyEvent { code: KeyCode::Enter, modifiers: SHIFT }), Command::Ignore);
    assert_eq!(Command::of(key(KeyCode::F(5))), Command::Ignore);
    assert_eq!(Command::of(key(KeyCode::Esc)), Command::Ignore);
}

#[test]
fn typing_changes_the_document() {
    let mut editor = unnamed();
    type_text(&mut editor, "hi");
    assert_eq!(rows(&editor), vec!["hi"]);
    assert_eq!(place(&editor), (2, 0));
    assert_eq!(editor.output.dirty, 3);
    go(&mut editor, KeyCode::Home);
    go(&mut editor, KeyCode::Tab);
    assert_eq!(rows(&editor), vec!["\thi"]);
    assert_eq!(editor.output.editor_rows.get_render(0), "        hi");
}

#[test]
fn enter_breaks_rows() {
    let mut editor = editor("abcd");
    go(&mut editor, KeyCode::Enter);
    assert_eq!(rows(&editor), vec!["", "abcd"]);
    assert_eq!(place(&editor), (0, 1));
    go(&mut editor, KeyCode::Right);
    go(&mut editor, KeyCode::Right);
    go(&mut editor, KeyCode::Enter);
    assert_eq!(rows(&editor), vec!["", "ab", "cd"]);
    assert_eq!(place(&editor), (0, 2));
    assert_eq!(editor.output.dirty, 2);
    go(&mut editor, KeyCode::Down);
    go(&mut editor, KeyCode::Enter);
    assert_eq!(rows(&editor), vec!["", "ab", "cd", ""]);
    assert_eq!(place(&editor), (0, 4));
}

#[test]
fn backspace_removes_characters_and_breaks() {
    let mut editor = editor("ab\ncd");
    go(&mut editor, KeyCode::Down);
    go(&mut editor, KeyCode::Right);
    go(&mut editor, KeyCode::Backspace);
    assert_eq!(rows(&editor), vec!["ab", "d"]);
    assert_eq!(place(&editor), (0, 1));
    go(&mut editor, KeyCode::Backspace);
    assert_eq!(rows(&editor), vec!["abd"]);
    assert_eq!(place(&editor), (2, 0));
    assert_eq!(editor.output.dirty, 2);
    go(&mut editor, KeyCode::Down);
    go(&mut editor, KeyCode::Backspace);
    assert_eq!(rows(&editor), vec!["abd"]);
    assert_eq!(editor.output.dirty, 2);
}

#[test]
fn delete_removes_what_follows() {
    let mut editor = editor("ab\ncd");
    go(&mut editor, KeyCode::Delete);
    assert_eq!(rows(&editor), vec!["b", "cd"]);
    assert_eq!(place(&editor), (0, 0));
    go(&mut editor, KeyCode::End);
    go(&mut editor, KeyCode::Delete);
    assert_eq!(rows(&editor), vec!["bcd"]);
    assert_eq!(place(&editor), (1, 0));
    go(&mut editor, KeyCode::End);
    go(&mut editor, KeyCode::Delete);
    assert_eq!(rows(&editor), vec!["bcd"]);
    assert_eq!(place(&editor), (0, 1));
}

#[test]
fn backspace_undoes_typing_and_enter() {
    let mut editor = editor("ab\ncd");
    go(&mut editor, KeyCode::Right);
    type_text(&mut editor, "x");
    go(&mut editor, KeyCode::Backspace);
    assert_eq!(rows(&editor), vec!["ab", "cd"]);
    assert_eq!(place(&editor), (1, 0));
    go(&mut editor, KeyCode::Enter);
    go(&mut editor, KeyCode::Backspace);
    assert_eq!(rows(&editor), vec!["ab", "cd"]);
    assert_eq!(place(&editor), (1, 0));
    assert_eq!(editor.output.dirty, 4);
}

#[test]
fn some_keys_cannot_be_acted_upon() {
    let mut editor = editor("a");
    assert!(!editor.accepts(key(KeyCode::Backspace)));
    assert!(unnamed().accepts(key(KeyCode::Backspace)));
    editor.output.cursor_controller.cursor_y = 5;
    assert!(!editor.accepts(key(KeyCode::Left)));
    assert!(!editor.accepts(key(KeyCode::Enter)));
    assert!(!editor.accepts(key(KeyCode::Char('x'))));
    assert!(editor.accepts(key(KeyCode::Up)));
    assert!(editor.accepts(key(KeyCode::PageDown)));
}

#[test]
fn a_wide_character_leaves_the_cursor_inside_it() {
    let mut editor = unnamed();
    type_text(&mut editor, "\u{e9}");
    assert_eq!(place(&editor), (1, 0));
    assert!(!editor.accepts(key(KeyCode::Char('x'))));
    assert!(editor.accepts(key(KeyCode::Backspace)));
    go(&mut editor, KeyCode::Backspace);
    assert_eq!(rows(&editor), vec![""]);
}

#[test]
fn pages_are_turned() {
    let text: Vec<String> = (0..50).map(|i| i.to_string()).collect();
    let mut editor = editor(&text.join("\n"));
    go(&mut editor, KeyCode::PageDown);
    assert_eq!(place(&editor), (0, 19));
    editor.output.cursor_controller.row_offset = 10;
    go(&mut editor, KeyCode::PageDown);
    assert_eq!(place(&editor), (0, 29));
    go(&mut editor, KeyCode::PageUp);
    assert_eq!(place(&editor), (0, 0));
    editor.output.cursor_controller.row_offset = 35;
    go(&mut editor, KeyCode::PageUp);
    assert_eq!(place(&editor), (0, 25));
    go(&mut editor, KeyCode::PageDown);
    assert_eq!(place(&editor), (0, 50));
}

#[test]
fn turning_pages_cuts_the_cursor_back_to_each_row() {
    let mut editor = editor("abc\nd\nefg");
    go(&mut editor, KeyCode::End);
    go(&mut editor, KeyCode::PageDown);
    assert_eq!(place(&editor), (0, 3));
}

#[test]
fn a_saved_document_can_be_left() {
    let mut editor = editor("a");
    assert!(matches!(press(&mut editor, control('q')), Action::Quit));
}

#[test]
fn unsaved_changes_are_warned_about() {
    let mut editor = editor("a");
    type_text(&mut editor, "x");
    assert!(matches!(press(&mut editor, control('q')), Action::Continue));
    assert_eq!(
        message(&editor),
        "File has unsaved changes. Press Ctrl-Q again to quit without saving."
    );
    assert_eq!(editor.quit_times, 0);
    match press(&mut editor, control('q')) {
        Action::RemoveAndQuit(path) => assert_eq!(path, "f"),
        _ => panic!("the second request is granted"),
    }
}

#[test]
fn another_key_takes_quitting_back() {
    let mut editor = editor("a");
    type_text(&mut editor, "x");
    press(&mut editor, control('q'));
    go(&mut editor, KeyCode::F(1));
    assert_eq!(editor.quit_times, 1);
    assert_eq!(message(&editor), "");
    assert!(matches!(press(&mut editor, control('q')), Action::Continue));
    editor.cancel_quit();
    assert_eq!(editor.quit_times, 1);
}

#[test]
fn a_document_without_a_file_is_not_given_up() {
    let mut editor = unnamed();
    type_text(&mut editor, "x");
    press(&mut editor, control('q'));
    assert!(!editor.accepts(control('q')));
}

#[test]
fn a_named_document_is_saved_at_once() {
    let mut editor = editor("a\nb");
    type_text(&mut editor, "x");
    match press(&mut editor, control('s')) {
        Action::Save(request) => {
            assert_eq!(request.path, "f");
            assert_eq!(request.contents, "xa\nb");
            editor.saved(request.bytes());
        }
        _ => panic!("the document is saved"),
    }
    assert_eq!(message(&editor), "4 bytes written to disk");
    assert_eq!(editor.output.dirty, 0);
    assert!(matches!(press(&mut editor, control('q')), Action::Quit));
}

#[test]
fn a_document_without_a_file_asks_for_one() {
    let mut editor = unnamed();
    type_text(&mut editor, "x");
    assert!(matches!(press(&mut editor, control('s')), Action::Continue));
    assert_eq!(message(&editor), "Save as: ");
    go(&mut editor, KeyCode::Enter);
    assert_eq!(message(&editor), "Save as: ");
    type_text(&mut editor, "pq");
    go(&mut editor, KeyCode::Backspace);
    assert_eq!(message(&editor), "Save as: p");
    match press(&mut editor, key(KeyCode::Enter)) {
        Action::Save(request) => {
            assert_eq!(request.path, "p");
            assert_eq!(request.contents, "x");
        }
        _ => panic!("the document is saved"),
    }
    assert_eq!(editor.output.editor_rows.filename, Some(String::from("p")));
    assert_eq!(rows(&editor), vec!["x"]);
    assert_eq!(message(&editor), "");
}

#[test]
fn escape_leaves_a_document_without_a_file() {
    let mut editor = unnamed();
    press(&mut editor, control('s'));
    type_text(&mut editor, "p");
    assert!(matches!(press(&mut editor, key(KeyCode::Esc)), Action::Continue));
    assert_eq!(message(&editor), "Save canceled");
    assert_eq!(editor.output.editor_rows.filename, None);
    assert!(editor.output.prompt.is_none());
}

#[test]
fn searching_moves_the_cursor_to_the_first_match() {
    let mut editor = editor("one\n\ttwo\nthree two");
    press(&mut editor, control('f'));
    assert_eq!(message(&editor), "Search:  (ESC to cancel)");
    type_text(&mut editor, "t");
    assert_eq!(place(&editor), (1, 1));
    assert_eq!(editor.output.cursor_controller.row_offset, 3);
    type_text(&mut editor, "h");
    assert_eq!(place(&editor), (0, 2));
    assert_eq!(message(&editor), "Search: th (ESC to cancel)");
    type_text(&mut editor, "x");
    assert_eq!(place(&editor), (0, 2));
    go(&mut editor, KeyCode::Enter);
    assert_eq!(message(&editor), "");
    assert_eq!(place(&editor), (0, 2));
    assert!(editor.output.prompt.is_none());
    assert_eq!(editor.output.dirty, 0);
}

#[test]
fn searching_for_nothing_goes_to_the_start() {
    let mut editor = editor("ab\ncd");
    go(&mut editor, KeyCode::Down);
    press(&mut editor, control('f'));
    assert_eq!(place(&editor), (0, 1));
    go(&mut editor, KeyCode::Right);
    assert_eq!(place(&editor), (0, 0));
    go(&mut editor, KeyCode::Esc);
    assert_eq!(message(&editor), "");
}

#[test]
fn prompts_can_be_driven_by_hand() {
    let mut editor = editor("ab");
    editor.output.find();
    assert!(editor.output.prompt.is_some());
    assert!(matches!(editor.output.prompt_key(key(KeyCode::Char('b'))), PromptOutcome::Pending));
    assert_eq!(place(&editor), (1, 0));
    match editor.output.prompt_key(key(KeyCode::Enter)) {
        PromptOutcome::Entered(text) => assert_eq!(text, "b"),
        _ => panic!("the prompt is ended"),
    }
    editor.output.open_prompt(PromptKind::SaveAs);
    assert!(matches!(editor.output.prompt_key(key(KeyCode::Esc)), PromptOutcome::Cancelled));
}

#[test]
fn the_keys_of_a_prompt_are_not_commands() {
    let mut editor = editor("ab");
    press(&mut editor, control('f'));
    assert!(matches!(press(&mut editor, control('q')), Action::Continue));
    assert!(editor.output.prompt.is_some());
    assert_eq!(rows(&editor), vec!["ab"]);
}

#[test]
fn enter_undoes_joining() {
    let mut editor = editor("ab\ncd\n\ne");
    go(&mut editor, KeyCode::Down);
    go(&mut editor, KeyCode::Backspace);
    assert_eq!(rows(&editor), vec!["abcd", "", "e"]);
    go(&mut editor, KeyCode::Enter);
    assert_eq!(rows(&editor), vec!["ab", "cd", "", "e"]);
    assert_eq!(place(&editor), (0, 1));
    go(&mut editor, KeyCode::Down);
    go(&mut editor, KeyCode::Down);
    go(&mut editor, KeyCode::Backspace);
    assert_eq!(rows(&editor), vec!["ab", "cd", "e"]);
    assert_eq!(place(&editor), (0, 2));
    go(&mut editor, KeyCode::Enter);
    assert_eq!(rows(&editor), vec!["ab", "cd", "", "e"]);
    assert_eq!(place(&editor), (0, 3));
}

#[test]
fn edits_change_the_text_at_the_cursor_alone() {
    let mut editor = editor("ab\ncd");
    let text = |editor: &Editor| editor.output.editor_rows.save().unwrap().contents;
    go(&mut editor, KeyCode::Down);
    go(&mut editor, KeyCode::Right);
    type_text(&mut editor, "x");
    assert_eq!(text(&editor), "ab\ncxd");
    go(&mut editor, KeyCode::Enter);
    assert_eq!(text(&editor), "ab\ncx\nd");
    go(&mut editor, KeyCode::Backspace);
    go(&mut editor, KeyCode::Backspace);
    assert_eq!(text(&editor), "ab\ncd");
    go(&mut editor, KeyCode::Left);
    go(&mut editor, KeyCode::Backspace);
    assert_eq!(text(&editor), "abcd");
}

#[test]
fn changes_are_counted_and_moves_are_not() {
    let mut editor = editor("ab\ncd");
    for code in [KeyCode::Down, KeyCode::End, KeyCode::PageUp, KeyCode::Home, KeyCode::F(2)] {
        go(&mut editor, code);
        assert_eq!(editor.output.dirty, 0);
        assert_eq!(rows(&editor), vec!["ab", "cd"]);
    }
    for (count, code) in [KeyCode::Char('x'), KeyCode::Enter, KeyCode::Delete].iter().enumerate() {
        go(&mut editor, *code);
        assert_eq!(editor.output.dirty, count as u64 + 1);
    }
}

#[test]
fn a_session_keeps_the_cursor_in_the_document() {
    let mut editor = editor("one\ntwo three\n\nfour");
    let codes = [
        KeyCode::End,
        KeyCode::Char('a'),
        KeyCode::Enter,
        KeyCode::Char('b'),
        KeyCode::PageDown,
        KeyCode::Char('c'),
        KeyCode::Up,
        KeyCode::Right,
        KeyCode::Delete,
        KeyCode::Left,
        KeyCode::Backspace,
        KeyCode::PageUp,
        KeyCode::Down,
        KeyCode::Home,
        KeyCode::Backspace,
    ];
    for code in codes {
        assert_eq!(editor.output.refresh_screen(), Ok(()));
        editor.output.editor_contents.clear();
        go(&mut editor, code);
        let (x, y) = place(&editor);
        let rows = rows(&editor);
        assert!(y <= rows.len());
        assert!(x <= if y < rows.len() { rows[y].len() } else { 0 });
    }
}

#[test]
fn only_a_new_message_restarts_the_clock() {
    let mut editor = editor("ab\ncd");
    let start = editor.output.status_message.set_time;
    go(&mut editor, KeyCode::Down);
    go(&mut editor, KeyCode::PageUp);
    go(&mut editor, KeyCode::Char('x'));
    go(&mut editor, KeyCode::Enter);
    go(&mut editor, KeyCode::Backspace);
    assert!(matches!(press(&mut editor, control('s')), Action::Save(_)));
    assert_eq!(editor.output.status_message.set_time, start);
    assert!(matches!(press(&mut editor, control('q')), Action::Continue));
    assert!(restarted(&mut editor, |editor| go(editor, KeyCode::Left)));
    assert!(restarted(&mut editor, |editor| {
        press(editor, control('f'));
    }));
    assert!(restarted(&mut editor, |editor| go(editor, KeyCode::Char('c'))));
    assert!(restarted(&mut editor, |editor| go(editor, KeyCode::Esc)));
    assert!(restarted(&mut editor, |editor| editor.saved(3)));
    assert!(!restarted(&mut editor, |editor| go(editor, KeyCode::Left)));
}

/// Whether `act` sets the message anew, judged by a message that is older.
fn restarted(editor: &mut Editor, act: fn(&mut Editor)) -> bool {
    let now = Instant::now();
    let earlier = now.checked_sub(Duration::from_secs(1)).unwrap_or(now);
    editor.output.status_message.set_message_at(String::from("older"), earlier);
    act(editor);
    editor.output.status_message.set_time > Some(earlier)
}
