use vellum::commands::{execute_command, find_next, parse, wrap_word, Command};
use vellum::document::IoFailure;
use vellum::editor::{Action, Editor, Key, KeyCode, Mode, SaveKind, StatusMessage};
use vellum::free_cursor::FreeCursor;
use vellum::position::{Position, Size};

fn screen() -> Size {
    Size { width: 80, height: 24 }
}

fn editor_with(text: &str) -> Editor {
    Editor::default(Some(("notes.md".to_string(), Ok(text.as_bytes().to_vec()))), screen(), 0)
}

fn key(code: KeyCode) -> Key {
    Key { code, control: false }
}

fn ch(c: char) -> Key {
    key(KeyCode::Char(c))
}

fn ctrl(c: char) -> Key {
    Key { code: KeyCode::Char(c), control: true }
}

fn at(x: usize, y: usize) -> Position {
    Position { x, y }
}

fn type_text(editor: &mut Editor, text: &str, now: u64) {
    for c in text.chars() {
        assert_eq!(editor.process_keypress(ch(c), now), Action::Nothing);
    }
}

#[test]
fn status_message_keeps_text_and_time() {
    let m = StatusMessage::from("hello".to_string(), 17);
    assert_eq!(m.text, "hello");
    assert_eq!(m.time, 17);
    assert!(m.is_shown(17));
    assert!(m.is_shown(5016));
    assert!(!m.is_shown(5017));
    assert!(m.is_shown(3));
}

#[test]
fn editor_starts_in_normal_mode() {
    let e = Editor::default(None, screen(), 5);
    assert!(!e.should_quit);
    assert_eq!(e.mode, Mode::Normal);
    assert_eq!(e.cursor_position, at(0, 0));
    assert_eq!(e.row_offset, 0);
    assert!(e.show_line_numbers);
    assert_eq!(e.status_message.text, "Normal Mode - Press 'i' to insert");
    assert_eq!(e.status_message.time, 5);
    assert!(e.document.is_empty());
    assert_eq!(e.document.filename(), None);
    assert_eq!(e.size, screen());
}

#[test]
fn editor_starts_with_the_file_that_was_read() {
    let e = editor_with("a\nb");
    assert_eq!(e.document.contents(), "a\nb");
    assert_eq!(e.document.filename(), Some("notes.md".to_string()));
    assert_eq!(e.status_message.text, "Normal Mode - Press 'i' to insert");
}

#[test]
fn editor_starts_empty_when_the_file_cannot_be_read() {
    let e = Editor::default(
        Some(("gone.md".to_string(), Err(IoFailure::NotFound))),
        screen(),
        0,
    );
    assert!(e.document.is_empty());
    assert_eq!(e.document.filename(), None);
    assert_eq!(e.status_message.text, "ERR: Could not open file: gone.md");
}

#[test]
fn editor_starts_empty_when_the_file_holds_no_text() {
    let e = Editor::default(Some(("data.bin".to_string(), Ok(vec![0xff, 0xfe]))), screen(), 0);
    assert!(e.document.is_empty());
    assert_eq!(e.document.filename(), None);
    assert_eq!(e.status_message.text, "ERR: Could not open file: data.bin");
}

#[test]
fn typing_in_insert_mode() {
    let mut e = Editor::default(None, screen(), 0);
    assert_eq!(e.process_keypress(ch('i'), 1), Action::Nothing);
    assert_eq!(e.mode, Mode::Insert);
    assert_eq!(e.status_message.text, "Insert Mode");
    assert_eq!(e.status_message.time, 1);
    type_text(&mut e, "hi", 2);
    assert_eq!(e.document.contents(), "hi");
    assert_eq!(e.cursor_position, at(2, 0));
    e.process_keypress(key(KeyCode::Enter), 3);
    assert_eq!(e.document.contents(), "hi\n");
    assert_eq!(e.cursor_position, at(0, 1));
    type_text(&mut e, "a b", 4);
    assert_eq!(e.document.contents(), "hi\na b");
    assert_eq!(e.cursor_position, at(3, 1));
    e.process_keypress(key(KeyCode::Esc), 5);
    assert_eq!(e.mode, Mode::Normal);
    assert_eq!(e.status_message.text, "Normal Mode");
}

#[test]
fn backspace_deletes_and_merges_rows() {
    let mut e = editor_with("ab\ncd");
    e.process_keypress(ch('i'), 0);
    e.cursor_position = at(1, 1);
    e.process_keypress(key(KeyCode::Backspace), 0);
    assert_eq!(e.document.contents(), "ab\nd");
    assert_eq!(e.cursor_position, at(0, 1));
    e.process_keypress(key(KeyCode::Backspace), 0);
    assert_eq!(e.document.contents(), "abd");
    assert_eq!(e.cursor_position, at(2, 0));
    e.cursor_position = at(0, 0);
    e.process_keypress(key(KeyCode::Backspace), 0);
    assert_eq!(e.document.contents(), "abd");
    assert_eq!(e.cursor_position, at(0, 0));
}

#[test]
fn undo_goes_back_word_by_word() {
    let mut e = Editor::default(None, screen(), 0);
    e.process_keypress(ch('i'), 0);
    type_text(&mut e, "one two", 0);
    e.process_keypress(key(KeyCode::Enter), 0);
    type_text(&mut e, "x", 0);
    e.process_keypress(key(KeyCode::Esc), 0);
    assert_eq!(e.document.contents(), "one two\nx");
    e.process_keypress(ch('u'), 9);
    assert_eq!(e.document.contents(), "one two");
    assert_eq!(e.status_message.text, "Undo");
    assert_eq!(e.status_message.time, 9);
    assert_eq!(e.cursor_position, at(0, 1));
    e.process_keypress(ch('u'), 9);
    assert_eq!(e.document.contents(), "one");
    e.process_keypress(ch('u'), 9);
    assert_eq!(e.document.contents(), "");
    assert_eq!(e.cursor_position, at(0, 1));
    e.process_keypress(key(KeyCode::Esc), 10);
    e.process_keypress(ch('u'), 11);
    assert_eq!(e.document.contents(), "");
    assert_eq!(e.status_message.time, 9);
    e.process_keypress(ch('r'), 12);
    assert_eq!(e.document.contents(), "one");
    assert_eq!(e.status_message.text, "Redo");
    e.process_keypress(ch('r'), 12);
    e.process_keypress(ch('r'), 12);
    assert_eq!(e.document.contents(), "one two\nx");
    e.process_keypress(ch('r'), 13);
    assert_eq!(e.status_message.time, 12);
}

#[test]
fn quit_needs_the_control_key() {
    let mut e = editor_with("a");
    e.process_keypress(ch('q'), 0);
    assert!(!e.should_quit);
    e.process_keypress(ctrl('q'), 0);
    assert!(e.should_quit);
}

#[test]
fn arrows_move_and_wrap_between_rows() {
    let mut e = editor_with("abc\nd\n");
    let mut press = |e: &mut Editor, code: KeyCode| {
        e.process_keypress(key(code), 0);
        e.cursor_position
    };
    assert_eq!(press(&mut e, KeyCode::Left), at(0, 0));
    assert_eq!(press(&mut e, KeyCode::Up), at(0, 0));
    assert_eq!(press(&mut e, KeyCode::Right), at(1, 0));
    assert_eq!(press(&mut e, KeyCode::Right), at(2, 0));
    assert_eq!(press(&mut e, KeyCode::Right), at(3, 0));
    assert_eq!(press(&mut e, KeyCode::Right), at(0, 1));
    assert_eq!(press(&mut e, KeyCode::Left), at(3, 0));
    assert_eq!(press(&mut e, KeyCode::Down), at(1, 1));
    assert_eq!(press(&mut e, KeyCode::Down), at(0, 2));
    assert_eq!(press(&mut e, KeyCode::Down), at(0, 3));
    assert_eq!(press(&mut e, KeyCode::Down), at(0, 3));
    assert_eq!(press(&mut e, KeyCode::Right), at(0, 3));
    assert_eq!(press(&mut e, KeyCode::Left), at(0, 2));
    assert_eq!(press(&mut e, KeyCode::Left), at(1, 1));
    assert_eq!(press(&mut e, KeyCode::Up), at(1, 0));
}

#[test]
fn move_cursor_takes_letters_as_arrows() {
    let mut e = editor_with("abc\nd");
    e.move_cursor(KeyCode::Char('d'));
    assert_eq!(e.cursor_position, at(1, 0));
    e.move_cursor(KeyCode::Char('s'));
    assert_eq!(e.cursor_position, at(1, 1));
    e.move_cursor(KeyCode::Char('a'));
    assert_eq!(e.cursor_position, at(0, 1));
    e.move_cursor(KeyCode::Char('w'));
    assert_eq!(e.cursor_position, at(0, 0));
    e.move_cursor(KeyCode::Char('x'));
    assert_eq!(e.cursor_position, at(0, 0));
    e.move_cursor(KeyCode::Enter);
    assert_eq!(e.cursor_position, at(0, 0));
}

#[test]
fn a_cursor_outside_the_document_is_clamped_not_refused() {
    let mut e = editor_with("abc\nd");
    e.cursor_position = at(500, 500);
    e.process_keypress(key(KeyCode::Other), 0);
    assert_eq!(e.cursor_position, at(0, 2));
    e.cursor_position = at(usize::MAX, 0);
    e.process_keypress(ch('i'), 0);
    assert_eq!(e.cursor_position, at(3, 0));
    e.cursor_position = at(usize::MAX, usize::MAX);
    e.process_keypress(ch('x'), 0);
    assert_eq!(e.document.contents(), "abc\nd");
    assert_eq!(e.cursor_position, at(0, 2));
    e.cursor_position = at(usize::MAX, 1);
    e.process_keypress(ch('x'), 0);
    assert_eq!(e.document.contents(), "abc\ndx");
    assert_eq!(e.cursor_position, at(2, 1));
    e.cursor_position = at(0, usize::MAX);
    e.process_keypress(key(KeyCode::Enter), 0);
    assert_eq!(e.document.contents(), "abc\ndx");
    e.process_keypress(key(KeyCode::Backspace), 0);
    e.move_cursor(KeyCode::Up);
    e.move_cursor(KeyCode::Right);
    assert!(e.cursor_position.y <= e.document.len());
}

#[test]
fn command_line_is_typed_and_carried_out() {
    let mut e = editor_with("a");
    e.process_keypress(ch(':'), 1);
    assert_eq!(e.mode, Mode::Command(String::new()));
    assert_eq!(e.status_message.text, "Command: ");
    type_text(&mut e, "lnx", 2);
    assert_eq!(e.mode, Mode::Command("lnx".to_string()));
    e.process_keypress(key(KeyCode::Backspace), 3);
    assert_eq!(e.mode, Mode::Command("ln".to_string()));
    assert_eq!(e.process_keypress(key(KeyCode::Enter), 4), Action::Nothing);
    assert_eq!(e.mode, Mode::Normal);
    assert!(!e.show_line_numbers);
    assert_eq!(e.status_message.text, "");
    assert_eq!(e.status_message.time, 4);
}

#[test]
fn command_line_can_be_given_up() {
    let mut e = editor_with("a");
    e.process_keypress(ch(':'), 1);
    e.process_keypress(key(KeyCode::Backspace), 1);
    assert_eq!(e.mode, Mode::Command(String::new()));
    type_text(&mut e, "q", 1);
    e.process_keypress(key(KeyCode::Up), 1);
    assert_eq!(e.mode, Mode::Command("q".to_string()));
    e.process_keypress(key(KeyCode::Esc), 2);
    assert_eq!(e.mode, Mode::Normal);
    assert!(!e.should_quit);
    assert_eq!(e.status_message.text, "");
}

#[test]
fn write_command_asks_for_a_quiet_save() {
    let mut e = editor_with("a");
    e.process_keypress(ch('i'), 0);
    type_text(&mut e, "b", 0);
    e.process_keypress(key(KeyCode::Esc), 0);
    e.process_keypress(ch(':'), 0);
    type_text(&mut e, "w", 0);
    let action = e.process_keypress(key(KeyCode::Enter), 1);
    assert_eq!(action, Action::Save { kind: SaveKind::Write, quiet: true });
    assert!(e.document.is_dirty());
    assert_eq!(e.finish_save(SaveKind::Write, true, Ok(()), 2), Ok(()));
    assert!(!e.document.is_dirty());
    assert_eq!(e.status_message.text, "");
    assert_eq!(e.status_message.time, 1);
}

#[test]
fn save_key_asks_for_a_save_when_the_file_is_named() {
    let mut e = editor_with("a");
    let action = e.process_keypress(ctrl('s'), 0);
    assert_eq!(action, Action::Save { kind: SaveKind::Shortcut, quiet: false });
    assert_eq!(e.mode, Mode::Normal);
    assert_eq!(e.process_keypress(ch('s'), 0), Action::Nothing);
}

#[test]
fn save_key_asks_for_a_name_first() {
    let mut e = Editor::default(None, screen(), 0);
    assert_eq!(e.process_keypress(ctrl('s'), 1), Action::Nothing);
    assert_eq!(e.mode, Mode::SaveAs(String::new()));
    assert_eq!(e.status_message.text, "Save as: ");
    type_text(&mut e, "a.mdx", 2);
    assert_eq!(e.status_message.text, "Save as: a.mdx");
    e.process_keypress(key(KeyCode::Backspace), 3);
    assert_eq!(e.mode, Mode::SaveAs("a.md".to_string()));
    assert_eq!(e.status_message.text, "Save as: a.md");
    e.process_keypress(ch('\u{7}'), 3);
    assert_eq!(e.mode, Mode::SaveAs("a.md".to_string()));
    e.process_keypress(key(KeyCode::Left), 4);
    assert_eq!(e.status_message.text, "Save as: a.md");
    assert_eq!(e.status_message.time, 4);
    let action = e.process_keypress(key(KeyCode::Enter), 5);
    assert_eq!(action, Action::Save { kind: SaveKind::Shortcut, quiet: false });
    assert_eq!(e.mode, Mode::Normal);
    assert_eq!(e.document.filename(), Some("a.md".to_string()));
    assert_eq!(e.status_message.text, "");
}

#[test]
fn save_as_can_be_given_up() {
    let mut e = Editor::default(None, screen(), 0);
    e.process_keypress(ctrl('s'), 1);
    assert_eq!(e.process_keypress(key(KeyCode::Enter), 2), Action::Nothing);
    assert_eq!(e.mode, Mode::Normal);
    assert_eq!(e.status_message.text, "Save aborted.");
    assert_eq!(e.document.filename(), None);
    e.process_keypress(ctrl('s'), 3);
    type_text(&mut e, "x", 3);
    e.process_keypress(key(KeyCode::Backspace), 3);
    e.process_keypress(key(KeyCode::Backspace), 3);
    assert_eq!(e.mode, Mode::SaveAs(String::new()));
    type_text(&mut e, "y", 3);
    assert_eq!(e.process_keypress(key(KeyCode::Esc), 4), Action::Nothing);
    assert_eq!(e.mode, Mode::Normal);
    assert_eq!(e.status_message.text, "Save aborted.");
    assert_eq!(e.document.filename(), None);
}

#[test]
fn finish_save_tells_how_the_save_ended() {
    let mut e = editor_with("a");
    e.document.insert(&at(0, 0), 'b');
    assert_eq!(
        e.finish_save(SaveKind::Shortcut, false, Err(IoFailure::PermissionDenied), 1),
        Err(IoFailure::PermissionDenied)
    );
    assert_eq!(e.status_message.text, "Error writing file!");
    assert!(e.document.is_dirty());
    assert_eq!(e.document.contents(), "ba");
    assert_eq!(e.finish_save(SaveKind::Shortcut, false, Ok(()), 2), Ok(()));
    assert_eq!(e.status_message.text, "File saved successfully.");
    assert!(!e.document.is_dirty());
    assert_eq!(e.finish_save(SaveKind::Write, false, Ok(()), 3), Ok(()));
    assert_eq!(e.status_message.text, "File saved.");
    assert_eq!(
        e.finish_save(SaveKind::Write, false, Err(IoFailure::NotFound), 4),
        Err(IoFailure::NotFound)
    );
    assert_eq!(e.status_message.text, "Error: file not found");
    assert_eq!(
        e.finish_save(SaveKind::Write, false, Err(IoFailure::Other), 4),
        Err(IoFailure::Other)
    );
    assert_eq!(e.status_message.text, "Error: input or output failed");
    assert_eq!(e.finish_save(SaveKind::WriteAs, false, Ok(()), 5), Ok(()));
    assert_eq!(e.status_message.text, "File saved as new name.");
    assert_eq!(
        e.finish_save(SaveKind::WriteAs, false, Err(IoFailure::Other), 6),
        Err(IoFailure::Other)
    );
    assert_eq!(e.status_message.text, "File saved as new name.");
    assert_eq!(e.status_message.time, 5);
}

#[test]
fn finish_save_without_file_name_is_no_failure() {
    let mut e = Editor::default(None, screen(), 0);
    e.document.insert(&at(0, 0), 'b');
    assert_eq!(e.finish_save(SaveKind::Write, false, Err(IoFailure::Other), 1), Ok(()));
    assert_eq!(e.status_message.text, "File saved.");
    assert!(e.document.is_dirty());
}

#[test]
fn commands_are_parsed() {
    assert_eq!(
        parse("s/old/new"),
        Command::Substitute { target: "old".to_string(), replacement: "new".to_string() }
    );
    assert_eq!(
        parse("s/a b//rest"),
        Command::Substitute { target: "a b".to_string(), replacement: String::new() }
    );
    assert_eq!(
        parse("s//"),
        Command::Substitute { target: String::new(), replacement: String::new() }
    );
    assert_eq!(parse("s/old"), Command::SubstituteUsage);
    assert_eq!(parse("s/"), Command::SubstituteUsage);
    assert_eq!(parse("s"), Command::Unknown);
    assert_eq!(parse(" s/a/b"), Command::Unknown);
    assert_eq!(parse(""), Command::Blank);
    assert_eq!(parse("   "), Command::Blank);
    assert_eq!(parse("q"), Command::Quit);
    assert_eq!(parse("  q  now"), Command::Quit);
    assert_eq!(parse("w"), Command::Write);
    assert_eq!(parse("!w"), Command::WriteAsWithoutName);
    assert_eq!(parse("!w new.md again"), Command::WriteAs("new.md".to_string()));
    assert_eq!(parse("head 3"), Command::Header(3));
    assert_eq!(parse("head +3"), Command::Header(3));
    assert_eq!(parse("head"), Command::Ignored);
    assert_eq!(parse("head x"), Command::Ignored);
    assert_eq!(parse("head -1"), Command::Ignored);
    assert_eq!(parse("bold"), Command::Bold);
    assert_eq!(parse("italic"), Command::Italic);
    assert_eq!(parse("t 2"), Command::Indent(2));
    assert_eq!(parse("t"), Command::Ignored);
    assert_eq!(parse("t 99999999999999999999999999"), Command::Ignored);
    assert_eq!(parse("find needle in"), Command::Find("needle".to_string()));
    assert_eq!(parse("find"), Command::Ignored);
    assert_eq!(parse("ln"), Command::LineNumbers);
    assert_eq!(parse("Q"), Command::Unknown);
    assert_eq!(parse("quit"), Command::Unknown);
}

#[test]
fn substitute_command_replaces_and_reports() {
    let mut e = editor_with("hello world\nworld");
    e.cursor_position = at(11, 0);
    assert_eq!(execute_command(&mut e, "s/world/w", 7), Action::Nothing);
    assert_eq!(e.document.contents(), "hello w\nw");
    assert_eq!(e.status_message.text, "Replaced 'world' in 2 lines");
    assert_eq!(e.status_message.time, 7);
    assert_eq!(e.cursor_position, at(7, 0));
    execute_command(&mut e, "s/zzz/y", 8);
    assert_eq!(e.status_message.text, "Replaced 'zzz' in 0 lines");
    execute_command(&mut e, "s/w", 9);
    assert_eq!(e.status_message.text, "Usage: s/old/new");
    assert_eq!(e.document.contents(), "hello w\nw");
}

#[test]
fn every_command_can_be_undone() {
    let mut e = editor_with("# a");
    execute_command(&mut e, "head 3", 0);
    assert_eq!(e.document.contents(), "### a");
    assert!(e.document.undo());
    assert_eq!(e.document.contents(), "# a");
    assert!(!e.document.undo());
    execute_command(&mut e, "nothing of the kind", 0);
    assert!(!e.document.redo());
    assert!(e.document.undo());
    assert!(!e.document.undo());
}

#[test]
fn commands_change_the_editor() {
    let mut e = editor_with("one two\nthree");
    assert_eq!(execute_command(&mut e, "q", 0), Action::Nothing);
    assert!(e.should_quit);
    assert_eq!(
        execute_command(&mut e, "w", 0),
        Action::Save { kind: SaveKind::Write, quiet: false }
    );
    execute_command(&mut e, "!w", 1);
    assert_eq!(e.status_message.text, "Error: !w requires a filename");
    assert_eq!(
        execute_command(&mut e, "!w other.md", 2),
        Action::Save { kind: SaveKind::WriteAs, quiet: false }
    );
    assert_eq!(e.document.filename(), Some("other.md".to_string()));
    e.cursor_position = at(5, 0);
    execute_command(&mut e, "bold", 3);
    assert_eq!(e.document.contents(), "one **two**\nthree");
    assert_eq!(e.cursor_position, at(11, 0));
    e.cursor_position = at(1, 1);
    execute_command(&mut e, "italic", 3);
    assert_eq!(e.document.contents(), "one **two**\n*three*");
    assert_eq!(e.cursor_position, at(7, 1));
    execute_command(&mut e, "t 2", 3);
    assert_eq!(e.document.contents(), "one **two**\n        *three*");
    assert_eq!(e.cursor_position, at(15, 1));
    execute_command(&mut e, "head 2", 3);
    assert_eq!(e.document.line_content(1), "## *three*");
    execute_command(&mut e, "ln", 4);
    assert!(!e.show_line_numbers);
    assert_eq!(e.status_message.text, "Line numbers: false");
    execute_command(&mut e, "ln", 4);
    assert!(e.show_line_numbers);
    assert_eq!(e.status_message.text, "Line numbers: true");
    execute_command(&mut e, "bogus words", 5);
    assert_eq!(e.status_message.text, "Unknown command: bogus words");
    assert_eq!(e.status_message.time, 5);
    execute_command(&mut e, "", 6);
    execute_command(&mut e, "head", 6);
    assert_eq!(e.status_message.time, 5);
}

#[test]
fn find_command_moves_the_cursor() {
    let mut e = editor_with("a needle\nb\nneedle");
    execute_command(&mut e, "find needle", 1);
    assert_eq!(e.cursor_position, at(2, 0));
    assert_eq!(e.status_message.text, "Found: needle");
    find_next(&mut e, "needle", 2);
    assert_eq!(e.cursor_position, at(0, 2));
    find_next(&mut e, "needle", 2);
    assert_eq!(e.cursor_position, at(2, 0));
    find_next(&mut e, "hay", 3);
    assert_eq!(e.cursor_position, at(2, 0));
    assert_eq!(e.status_message.text, "Not found: hay");
    assert_eq!(e.status_message.time, 3);
}

#[test]
fn wrap_word_moves_the_cursor_behind_the_word() {
    let mut e = editor_with("say hello there");
    e.cursor_position = at(4, 0);
    wrap_word(&mut e, "**");
    assert_eq!(e.document.contents(), "say **hello** there");
    assert_eq!(e.cursor_position, at(13, 0));
    e.cursor_position = at(0, 5);
    wrap_word(&mut e, "*");
    assert_eq!(e.document.contents(), "say **hello** there");
    assert_eq!(e.cursor_position, at(0, 1));
}

#[test]
fn indent_line_moves_the_cursor_along() {
    let mut e = editor_with("ab");
    e.cursor_position = at(1, 0);
    e.indent_line(1);
    assert_eq!(e.document.contents(), "    ab");
    assert_eq!(e.cursor_position, at(5, 0));
    e.indent_line(0);
    assert_eq!(e.cursor_position, at(5, 0));
    e.cursor_position = at(usize::MAX - 1, 0);
    e.indent_line(1);
    assert_eq!(e.document.contents(), "        ab");
    assert_eq!(e.cursor_position, at(10, 0));
}

#[test]
fn scroll_follows_the_cursor() {
    let text = "x\n".repeat(100);
    let mut e = Editor::default(
        Some(("long.md".to_string(), Ok(text.into_bytes()))),
        Size { width: 80, height: 12 },
        0,
    );
    e.cursor_position = at(0, 9);
    e.scroll();
    assert_eq!(e.row_offset, 0);
    e.cursor_position = at(0, 10);
    e.scroll();
    assert_eq!(e.row_offset, 1);
    e.cursor_position = at(0, 50);
    e.scroll();
    assert_eq!(e.row_offset, 41);
    e.cursor_position = at(0, 45);
    e.scroll();
    assert_eq!(e.row_offset, 41);
    e.cursor_position = at(0, 3);
    e.scroll();
    assert_eq!(e.row_offset, 3);
    e.size = Size { width: 80, height: 1 };
    e.cursor_position = at(0, 7);
    e.scroll();
    assert_eq!(e.row_offset, 8);
    e.cursor_position = at(0, usize::MAX);
    e.scroll();
    assert_eq!(e.row_offset, 8);
}

#[test]
fn editor_gutter_width() {
    let mut e = editor_with("a\nb");
    assert_eq!(e.gutter_width(), 3);
    e.show_line_numbers = false;
    assert_eq!(e.gutter_width(), 0);
}

#[test]
fn free_cursor_moves_within_the_screen() {
    let mut c = FreeCursor::new(Size { width: 3, height: 2 });
    assert_eq!(c.cursor_position, at(0, 0));
    assert!(!c.should_quit);
    let mut press = |c: &mut FreeCursor, k: Key| {
        c.process_cursor_movement(k);
        c.cursor_position
    };
    assert_eq!(press(&mut c, key(KeyCode::Up)), at(0, 0));
    assert_eq!(press(&mut c, key(KeyCode::Left)), at(0, 0));
    assert_eq!(press(&mut c, key(KeyCode::Right)), at(1, 0));
    assert_eq!(press(&mut c, ch('d')), at(2, 0));
    assert_eq!(press(&mut c, ch('d')), at(2, 0));
    assert_eq!(press(&mut c, key(KeyCode::Down)), at(2, 1));
    assert_eq!(press(&mut c, ch('s')), at(2, 1));
    assert_eq!(press(&mut c, ch('a')), at(1, 1));
    assert_eq!(press(&mut c, ch('w')), at(1, 0));
    assert_eq!(press(&mut c, ctrl('w')), at(1, 0));
    assert_eq!(press(&mut c, ch('x')), at(1, 0));
    assert_eq!(press(&mut c, key(KeyCode::Enter)), at(1, 0));
    assert_eq!(press(&mut c, ch('q')), at(1, 0));
    assert!(!c.should_quit);
    assert_eq!(press(&mut c, ctrl('q')), at(1, 0));
    assert!(c.should_quit);
    assert_eq!(c.terminal_size, Size { width: 3, height: 2 });
}

#[test]
fn free_cursor_on_a_screen_without_cells() {
    let mut c = FreeCursor::new(Size { width: 0, height: 0 });
    c.process_cursor_movement(key(KeyCode::Down));
    c.process_cursor_movement(key(KeyCode::Right));
    assert_eq!(c.cursor_position, at(0, 0));
}
