//! What the editor shows: the lines of the screen, the margin with the row
//! numbers, the status bar, the message bar, and the place of the cursor.
//!
//! Nothing here writes to the terminal. Each function hands out the text or
//! the places to draw.

use vstd::prelude::*;
use crate::chars::{from_chars, to_chars};
use crate::commands::joined;
use crate::editor::{Editor, EditorState, Mode, ModeView, StatusMessage};
use crate::position::Position;
use crate::replace::append_chars;
use crate::text::{clamp_col, clamp_row, line_count};
use crate::textfmt::{
    append_spaces, decimal, decimal_chars, pad_left, pad_left_chars, spaces, truncate_chars,
    truncated,
};
use crate::viewport::{
    compute_visible_rows, cursor_column, cursor_line, gutter, piece_at, project_cursor, Fragment,
};

verus! {

/// What the screen is to show.
#[derive(Debug)]
pub struct Screen {
    /// Whether the editor is about to end: then the screen is cleared for
    /// a farewell, and nothing else is drawn.
    pub goodbye: bool,
    /// The width of the margin with the row numbers.
    pub gutter: usize,
    /// The lines of text, from the top.
    pub rows: Vec<Fragment>,
    /// The text of the status bar.
    pub status_bar: String,
    /// The text of the message bar.
    pub message_bar: String,
    /// Where the cursor is drawn: column and line of the screen.
    pub cursor: Position,
}

/// The number of lines of the screen that show text: all but the two for
/// the status and the message.
pub open spec fn text_height(state: EditorState) -> nat {
    if state.size.height >= 2 {
        (state.size.height - 2) as nat
    } else {
        0
    }
}

/// The number of columns of the screen that show text: all but the margin.
pub open spec fn text_width(state: EditorState) -> nat {
    let margin = gutter(state.show_line_numbers, line_count(state.document.text));
    if state.size.width >= margin {
        (state.size.width - margin) as nat
    } else {
        0
    }
}

/// The margin of a line of the screen: the number of the row, counted
/// from one, set to the right and followed by a space and a bar. A line that
/// goes on with a row shows no number. Without row numbers there is no
/// margin.
pub open spec fn gutter_text(show: bool, margin: nat, row: nat, wrapped: bool) -> Seq<char> {
    if !show {
        Seq::empty()
    } else {
        let width = if margin >= 2 {
            (margin - 2) as nat
        } else {
            0
        };
        pad_left(
            if wrapped {
                Seq::empty()
            } else {
                decimal(row + 1)
            },
            width,
        ) + " |"@
    }
}

/// The margin of a line of the screen below the last row: a tilde.
pub open spec fn filler_text(show: bool, margin: nat) -> Seq<char> {
    if !show {
        "~"@
    } else {
        let width = if margin >= 2 {
            (margin - 2) as nat
        } else {
            0
        };
        pad_left("~"@, width) + " |"@
    }
}

/// The left part of the status bar: the command line while one is typed,
/// else the name of the file, the number of rows, and a note where the
/// document has changes that are not saved.
pub open spec fn status_left(state: EditorState) -> Seq<char> {
    match state.mode {
        ModeView::Command(line) => "COMMAND: "@ + line + "_"@,
        _ => (match state.document.filename {
            Some(name) => name,
            None => "[No Name]"@,
        }) + " - "@ + decimal(line_count(state.document.text)) + " lines "@ + (if state.document.dirty {
            "(modified)"@
        } else {
            Seq::empty()
        }),
    }
}

/// The right part of the status bar: the row of the cursor, counted from
/// one, and the number of rows.
pub open spec fn status_right(state: EditorState) -> Seq<char> {
    decimal((state.cursor.y + 1) as nat) + "/"@ + decimal(line_count(state.document.text))
}

/// The status bar: its left part, its right part set to the right edge of
/// the screen where there is room, and the whole cut to the width of the
/// screen.
pub open spec fn status_bar(state: EditorState) -> Seq<char> {
    let left = status_left(state);
    let right = status_right(state);
    let width = state.size.width as nat;
    let gap = if width > left.len() + right.len() {
        (width - left.len() - right.len()) as nat
    } else {
        0
    };
    truncated(left + spaces(gap) + right, width)
}

/// The message bar at the time `now`: the message, cut to the width of
/// the screen, while it is shown, and nothing after that.
pub open spec fn message_bar(state: EditorState, now: u64) -> Seq<char> {
    if StatusMessage::shown_at(state.status_time, now) {
        truncated(state.status, state.size.width as nat)
    } else {
        Seq::empty()
    }
}

/// The greeting of an empty document: the name of its file, or that of the
/// editor, set to the middle of the screen and cut to its width.
pub open spec fn welcome(state: EditorState) -> Seq<char> {
    let text = match state.document.filename {
        Some(name) => "Editing: "@ + name,
        None => "Vellum Editor -- Version 0.0.1"@,
    };
    let width = state.size.width as nat;
    let padding = if width > text.len() {
        ((width - text.len()) / 2) as nat
    } else {
        0
    };
    truncated(spaces(padding) + text, width)
}

/// The line of the screen that shows the greeting: the one a third of the
/// way down, where the document is empty and that line lies below its one
/// row.
pub open spec fn welcome_row(state: EditorState) -> Option<nat> {
    if state.document.text.len() == 0 && state.size.height >= 3 {
        Some((state.size.height / 3) as nat)
    } else {
        None
    }
}

/// The line of the screen that shows the greeting, if one does.
pub fn welcome_line(editor: &Editor) -> (line: Option<usize>)
    ensures
        match line {
            Some(n) => welcome_row(editor@) == Some(n as nat),
            None => welcome_row(editor@) is None,
        },
{
    if editor.document.is_empty() && editor.size.height >= 3 {
        Some((editor.size.height / 3) as usize)
    } else {
        None
    }
}

/// The width of the margin that holds the row numbers.
pub fn gutter_width(editor: &Editor) -> (width: usize)
    ensures
        width == gutter(editor@.show_line_numbers, line_count(editor@.document.text)),
{
    editor.gutter_width()
}

/// The number of columns of the screen that show text.
pub fn text_columns(editor: &Editor) -> (width: usize)
    ensures
        width == text_width(editor@),
{
    let margin = editor.gutter_width();
    let width = editor.size.width as usize;
    if width >= margin {
        width - margin
    } else {
        0
    }
}

/// Where the cursor appears among the lines of text, on a screen that
/// shows `text_width` columns of text.
pub fn get_visual_cursor(editor: &Editor, text_width: usize) -> (p: Position)
    ensures
        text_width == 0 ==> p.x == 0 && p.y == 0,
        p.x <= text_width + 1,
        text_width > 0 ==> p.x == cursor_column(
            clamp_col(
                editor@.document.text,
                clamp_row(editor@.document.text, editor@.cursor.y as nat),
                editor@.cursor.x as nat,
            ),
            text_width as nat,
        ) && p.y == cursor_line(
            editor@.document.text,
            clamp_row(editor@.document.text, editor@.cursor.y as nat),
            clamp_col(
                editor@.document.text,
                clamp_row(editor@.document.text, editor@.cursor.y as nat),
                editor@.cursor.x as nat,
            ),
            editor@.row_offset as nat,
            text_width as nat,
        ),
{
    project_cursor(&editor.document, &editor.cursor_position, editor.row_offset, text_width)
}

/// The margin of a line of the screen that shows row `doc_row`.
pub fn draw_gutter(show_line_numbers: bool, gutter: usize, doc_row: usize, is_wrapped: bool) -> (text:
    String)
    ensures
        text@ == gutter_text(show_line_numbers, gutter as nat, doc_row as nat, is_wrapped),
{
    if !show_line_numbers {
        return String::new();
    }
    let width = if gutter >= 2 { gutter - 2 } else { 0 };
    let number = if is_wrapped {
        Vec::new()
    } else {
        decimal_chars(doc_row as u128 + 1)
    };
    let mut text = pad_left_chars(&number, width);
    append_chars(&mut text, &to_chars(" |"));
    from_chars(&text)
}

/// The margin of a line of the screen below the last row.
pub fn draw_filler(show_line_numbers: bool, gutter: usize) -> (text: String)
    ensures
        text@ == filler_text(show_line_numbers, gutter as nat),
{
    if !show_line_numbers {
        return "~".to_owned();
    }
    let width = if gutter >= 2 { gutter - 2 } else { 0 };
    let mut text = pad_left_chars(&to_chars("~"), width);
    append_chars(&mut text, &to_chars(" |"));
    from_chars(&text)
}

/// The lines of text that the screen shows: as many as it has lines but
/// two, from the first row seen on.
pub fn draw_rows(editor: &Editor) -> (rows: Vec<Fragment>)
    ensures
        rows@.len() == text_height(editor@),
        forall|i: int|
            0 <= i < rows@.len() ==> (#[trigger] rows@[i])@ == piece_at(
                editor@.document.text,
                editor@.row_offset as nat,
                text_width(editor@),
                i as nat,
            ),
{
    let height: usize = if editor.size.height >= 2 {
        (editor.size.height - 2) as usize
    } else {
        0
    };
    compute_visible_rows(&editor.document, editor.row_offset, height, text_columns(editor))
}

/// The text of the status bar.
pub fn draw_status_bar(editor: &Editor) -> (text: String)
    ensures
        text@ == status_bar(editor@),
{
    let width = editor.size.width as usize;
    let rows = decimal_chars(editor.document.len() as u128);
    let mut status: Vec<char>;
    match &editor.mode {
        Mode::Command(line) => {
            status = joined("COMMAND: ", &to_chars(line.as_str()));
            append_chars(&mut status, &to_chars("_"));
        },
        _ => {
            status = match editor.document.filename() {
                Some(name) => to_chars(name.as_str()),
                None => to_chars("[No Name]"),
            };
            append_chars(&mut status, &to_chars(" - "));
            append_chars(&mut status, &rows);
            append_chars(&mut status, &to_chars(" lines "));
            if editor.document.is_dirty() {
                append_chars(&mut status, &to_chars("(modified)"));
            }
        },
    }
    let mut indicator = decimal_chars(editor.cursor_position.y as u128 + 1);
    append_chars(&mut indicator, &to_chars("/"));
    append_chars(&mut indicator, &rows);
    if status.len() < width && indicator.len() < width - status.len() {
        let gap = width - status.len() - indicator.len();
        append_spaces(&mut status, gap);
    }
    append_chars(&mut status, &indicator);
    truncate_chars(&mut status, width);
    from_chars(&status)
}

/// The text of the message bar at the time `now`.
pub fn draw_message_bar(editor: &Editor, now: u64) -> (text: String)
    ensures
        text@ == message_bar(editor@, now),
{
    if editor.status_message.is_shown(now) {
        let mut text = to_chars(editor.status_message.text.as_str());
        truncate_chars(&mut text, editor.size.width as usize);
        from_chars(&text)
    } else {
        String::new()
    }
}

/// The greeting that an empty document shows.
pub fn draw_welcome_message(editor: &Editor) -> (text: String)
    ensures
        text@ == welcome(editor@),
{
    let width = editor.size.width as usize;
    let greeting = match editor.document.filename() {
        Some(name) => joined("Editing: ", &to_chars(name.as_str())),
        None => to_chars("Vellum Editor -- Version 0.0.1"),
    };
    let padding = if width > greeting.len() {
        (width - greeting.len()) / 2
    } else {
        0
    };
    let mut text: Vec<char> = Vec::new();
    append_spaces(&mut text, padding);
    append_chars(&mut text, &greeting);
    truncate_chars(&mut text, width);
    from_chars(&text)
}

/// Lets the view follow the cursor, and hands out what the screen is to
/// show at the time `now`. An editor that is about to end shows a farewell
/// in place of everything else.
pub fn refresh_screen(editor: &mut Editor, now: u64) -> (screen: Screen)
    ensures
        final(editor)@ == old(editor)@.scrolled(),
        screen.goodbye == final(editor)@.should_quit,
        screen.gutter == gutter(
            final(editor)@.show_line_numbers,
            line_count(final(editor)@.document.text),
        ),
        screen.goodbye ==> screen.rows@.len() == 0 && screen.status_bar@.len() == 0
            && screen.message_bar@.len() == 0 && screen.cursor == (Position { x: 0, y: 0 }),
        !screen.goodbye ==> {
            &&& screen.rows@.len() == text_height(final(editor)@)
            &&& forall|i: int|
                0 <= i < screen.rows@.len() ==> (#[trigger] screen.rows@[i])@ == piece_at(
                    final(editor)@.document.text,
                    final(editor)@.row_offset as nat,
                    text_width(final(editor)@),
                    i as nat,
                )
            &&& screen.status_bar@ == status_bar(final(editor)@)
            &&& screen.message_bar@ == message_bar(final(editor)@, now)
            &&& text_width(final(editor)@) > 0 ==> screen.cursor.x == screen.gutter + cursor_column(
                clamp_col(
                    final(editor)@.document.text,
                    clamp_row(final(editor)@.document.text, final(editor)@.cursor.y as nat),
                    final(editor)@.cursor.x as nat,
                ),
                text_width(final(editor)@),
            ) && screen.cursor.y == cursor_line(
                final(editor)@.document.text,
                clamp_row(final(editor)@.document.text, final(editor)@.cursor.y as nat),
                clamp_col(
                    final(editor)@.document.text,
                    clamp_row(final(editor)@.document.text, final(editor)@.cursor.y as nat),
                    final(editor)@.cursor.x as nat,
                ),
                final(editor)@.row_offset as nat,
                text_width(final(editor)@),
            )
            &&& text_width(final(editor)@) == 0 ==> screen.cursor.x == screen.gutter
                && screen.cursor.y == 0
        },
{
    editor.scroll();
    let margin = editor.gutter_width();
    if editor.should_quit {
        return Screen {
            goodbye: true,
            gutter: margin,
            rows: Vec::new(),
            status_bar: String::new(),
            message_bar: String::new(),
            cursor: Position { x: 0, y: 0 },
        };
    }
    let width = text_columns(editor);
    let visual = get_visual_cursor(editor, width);
    Screen {
        goodbye: false,
        gutter: margin,
        rows: draw_rows(editor),
        status_bar: draw_status_bar(editor),
        message_bar: draw_message_bar(editor, now),
        cursor: Position { x: visual.x + margin, y: visual.y },
    }
}

} // verus!
