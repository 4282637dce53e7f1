use vellum::document::IoFailure;
use vellum::editor::{Editor, Key, KeyCode, Mode};
use vellum::position::{Position, Size};
use vellum::ui::{
    draw_filler, draw_gutter, draw_message_bar, draw_rows, draw_status_bar,
    draw_welcome_message, get_visual_cursor, gutter_width, refresh_screen, text_columns,
    welcome_line,
};
use vellum::viewport::Fragment;

fn editor_with(text: &str, width: u16, height: u16) -> Editor {
    Editor::default(
        Some(("notes.md".to_string(), Ok(text.as_bytes().to_vec()))),
        Size { width, height },
        0,
    )
}

fn at(x: usize, y: usize) -> Position {
    Position { x, y }
}

#[test]
fn gutter_text_sets_row_numbers_to_the_right() {
    assert_eq!(draw_gutter(true, 4, 0, false), " 1 |");
    assert_eq!(draw_gutter(true, 4, 9, false), "10 |");
    assert_eq!(draw_gutter(true, 4, 99, false), "100 |");
    assert_eq!(draw_gutter(true, 5, 6, false), "  7 |");
    assert_eq!(draw_gutter(true, 4, 3, true), "   |");
    assert_eq!(draw_gutter(true, 1, 0, false), "1 |");
    assert_eq!(draw_gutter(true, 0, 0, true), " |");
    assert_eq!(draw_gutter(false, 4, 0, false), "");
    assert_eq!(draw_gutter(false, 4, 0, true), "");
    assert_eq!(
        draw_gutter(true, 0, usize::MAX, false),
        format!("{} |", usize::MAX as u128 + 1)
    );
}

#[test]
fn filler_text_is_a_tilde() {
    assert_eq!(draw_filler(true, 4), " ~ |");
    assert_eq!(draw_filler(true, 6), "   ~ |");
    assert_eq!(draw_filler(true, 0), "~ |");
    assert_eq!(draw_filler(false, 4), "~");
}

#[test]
fn text_columns_leave_the_gutter_out() {
    let mut e = editor_with("a\nb", 80, 24);
    assert_eq!(gutter_width(&e), 3);
    assert_eq!(text_columns(&e), 77);
    e.show_line_numbers = false;
    assert_eq!(gutter_width(&e), 0);
    assert_eq!(text_columns(&e), 80);
    let narrow = editor_with("a", 2, 24);
    assert_eq!(text_columns(&narrow), 0);
}

#[test]
fn status_bar_shows_file_rows_and_cursor() {
    let mut e = editor_with("a\nb", 40, 24);
    assert_eq!(draw_status_bar(&e), format!("notes.md - 2 lines {}1/2", " ".repeat(18)));
    e.cursor_position = at(0, 1);
    e.document.insert(&at(0, 0), 'x');
    assert_eq!(
        draw_status_bar(&e),
        format!("notes.md - 2 lines (modified){}2/2", " ".repeat(8))
    );
    assert_eq!(draw_status_bar(&e).chars().count(), 40);
}

#[test]
fn status_bar_without_file_name() {
    let e = Editor::default(None, Size { width: 30, height: 24 }, 0);
    assert_eq!(draw_status_bar(&e), format!("[No Name] - 1 lines {}1/1", " ".repeat(7)));
}

#[test]
fn status_bar_shows_the_command_line() {
    let mut e = editor_with("a\nb", 20, 24);
    e.mode = Mode::Command("ln".to_string());
    assert_eq!(draw_status_bar(&e), format!("COMMAND: ln_{}1/2", " ".repeat(5)));
}

#[test]
fn status_bar_is_cut_to_the_screen() {
    let e = editor_with("a\nb", 10, 24);
    assert_eq!(draw_status_bar(&e), "notes.md -");
    let exact = editor_with("a\nb", 22, 24);
    assert_eq!(draw_status_bar(&exact), "notes.md - 2 lines 1/2");
    let one_more = editor_with("a\nb", 23, 24);
    assert_eq!(draw_status_bar(&one_more), "notes.md - 2 lines  1/2");
    let none = editor_with("a\nb", 0, 24);
    assert_eq!(draw_status_bar(&none), "");
}

#[test]
fn message_bar_shows_the_message_for_five_seconds() {
    let mut e = editor_with("a", 12, 24);
    e.say("Insert Mode", 1000);
    assert_eq!(draw_message_bar(&e, 1000), "Insert Mode");
    assert_eq!(draw_message_bar(&e, 5999), "Insert Mode");
    assert_eq!(draw_message_bar(&e, 6000), "");
    assert_eq!(draw_message_bar(&e, 999), "Insert Mode");
    e.size = Size { width: 6, height: 24 };
    assert_eq!(draw_message_bar(&e, 1000), "Insert");
}

#[test]
fn welcome_message_stands_in_the_middle() {
    let e = Editor::default(None, Size { width: 40, height: 24 }, 0);
    assert_eq!(draw_welcome_message(&e), "     Vellum Editor -- Version 0.0.1");
    let odd = Editor::default(None, Size { width: 33, height: 24 }, 0);
    assert_eq!(draw_welcome_message(&odd), " Vellum Editor -- Version 0.0.1");
    let narrow = Editor::default(None, Size { width: 10, height: 24 }, 0);
    assert_eq!(draw_welcome_message(&narrow), "Vellum Edi");
    let named = Editor::default(
        Some(("notes.md".to_string(), Ok(Vec::new()))),
        Size { width: 21, height: 24 },
        0,
    );
    assert_eq!(draw_welcome_message(&named), "  Editing: notes.md");
    let failed = Editor::default(
        Some(("gone.md".to_string(), Err(IoFailure::Other))),
        Size { width: 30, height: 24 },
        0,
    );
    assert_eq!(draw_welcome_message(&failed), "Vellum Editor -- Version 0.0.1");
}

#[test]
fn welcome_line_is_a_third_down_an_empty_document() {
    assert_eq!(welcome_line(&Editor::default(None, Size { width: 40, height: 24 }, 0)), Some(8));
    assert_eq!(welcome_line(&Editor::default(None, Size { width: 40, height: 3 }, 0)), Some(1));
    assert_eq!(welcome_line(&Editor::default(None, Size { width: 40, height: 2 }, 0)), None);
    assert_eq!(welcome_line(&editor_with("a", 40, 24)), None);
    assert_eq!(welcome_line(&editor_with("", 40, 25)), Some(8));
}

#[test]
fn rows_fill_the_screen_but_two_lines() {
    let e = editor_with("abcdefghij\nk", 8, 6);
    assert_eq!(gutter_width(&e), 3);
    let rows = draw_rows(&e);
    assert_eq!(
        rows,
        vec![
            Fragment { row: 0, start: 0, end: 5, is_continuation: false, is_padding: false },
            Fragment { row: 0, start: 5, end: 8, is_continuation: true, is_padding: false },
            Fragment { row: 0, start: 8, end: 10, is_continuation: true, is_padding: false },
            Fragment { row: 1, start: 0, end: 1, is_continuation: false, is_padding: false },
        ]
    );
    let flat = editor_with("a", 8, 1);
    assert_eq!(draw_rows(&flat), vec![]);
}

#[test]
fn visual_cursor_counts_wrapped_lines() {
    let mut e = editor_with("abcdefghij\nk", 8, 6);
    e.cursor_position = at(1, 1);
    assert_eq!(get_visual_cursor(&e, 5), at(1, 3));
    e.cursor_position = at(9, 0);
    assert_eq!(get_visual_cursor(&e, 5), at(3, 2));
    assert_eq!(get_visual_cursor(&e, 0), at(0, 0));
    e.row_offset = 1;
    e.cursor_position = at(1, 1);
    assert_eq!(get_visual_cursor(&e, 5), at(1, 0));
}

#[test]
fn refresh_scrolls_and_lays_the_screen_out() {
    let text = "x\n".repeat(99) + "x";
    let mut e = editor_with(&text, 20, 12);
    e.cursor_position = at(1, 50);
    e.say("hello", 100);
    let screen = refresh_screen(&mut e, 200);
    assert_eq!(e.row_offset, 41);
    assert!(!screen.goodbye);
    assert_eq!(screen.gutter, 5);
    assert_eq!(screen.rows.len(), 10);
    for (i, f) in screen.rows.iter().enumerate() {
        assert_eq!(
            *f,
            Fragment { row: 41 + i, start: 0, end: 1, is_continuation: false, is_padding: false }
        );
    }
    assert_eq!(screen.cursor, at(6, 9));
    assert_eq!(screen.message_bar, "hello");
    assert_eq!(screen.status_bar, "notes.md - 100 lines");
    let later = refresh_screen(&mut e, 5100);
    assert_eq!(later.message_bar, "");
}

#[test]
fn refresh_says_goodbye_when_the_editor_ends() {
    let mut e = editor_with("a", 20, 12);
    e.process_keypress(Key { code: KeyCode::Char('q'), control: true }, 0);
    let screen = refresh_screen(&mut e, 0);
    assert!(screen.goodbye);
    assert!(screen.rows.is_empty());
    assert_eq!(screen.status_bar, "");
    assert_eq!(screen.message_bar, "");
    assert_eq!(screen.cursor, at(0, 0));
}

#[test]
fn refresh_on_a_screen_narrower_than_the_gutter() {
    let mut e = editor_with("abc", 2, 5);
    e.cursor_position = at(2, 0);
    let screen = refresh_screen(&mut e, 0);
    assert_eq!(screen.gutter, 3);
    assert_eq!(screen.cursor, at(3, 0));
    assert_eq!(screen.rows.len(), 3);
}
