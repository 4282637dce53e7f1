//! The editor: a document, a cursor in it, the mode that decides what a
//! key does, and the message that tells the user what happened.
//!
//! The editor reads no key and writes no file. A key comes in as a value,
//! and where a file has to be written the editor says so and waits to be
//! told how the write ended. After every step the cursor lies within the
//! document: a place that does not exist gives way to the nearest one that
//! does.

use vstd::prelude::*;
use vstd::string::StringExecFns;
use crate::chars::{from_chars, is_control, is_control_char, string_push, to_chars};
use crate::commands::{action_for, execute_command, executed, joined};
use crate::document::{empty_buffer, opened_from, Buffer, Document, IoFailure};
use crate::position::{Position, Size};
use crate::text::{clamped, line_count, line_length, valid_position};
use crate::viewport::{gutter, gutter_width, scroll, scrolled};

verus! {

/// How long a message stays on the screen, in milliseconds.
pub const MESSAGE_LIFETIME: u64 = 5000;

/// What the keys do.
#[derive(Debug, PartialEq, Eq)]
pub enum Mode {
    /// Keys are commands of their own.
    Normal,
    /// Keys are typed into the document.
    Insert,
    /// Keys are typed into the command line, which holds the text given.
    Command(String),
    /// Keys are typed into the name under which to save the document.
    SaveAs(String),
}

/// A mode as plain values.
pub enum ModeView {
    Normal,
    Insert,
    Command(Seq<char>),
    SaveAs(Seq<char>),
}

impl View for Mode {
    type V = ModeView;

    open spec fn view(&self) -> ModeView {
        match self {
            Mode::Normal => ModeView::Normal,
            Mode::Insert => ModeView::Insert,
            Mode::Command(line) => ModeView::Command(line@),
            Mode::SaveAs(name) => ModeView::SaveAs(name@),
        }
    }
}

/// The key that was pressed.
#[derive(Clone, Copy, Debug, PartialEq, Eq, Structural)]
pub enum KeyCode {
    Char(char),
    Enter,
    Esc,
    Backspace,
    Up,
    Down,
    Left,
    Right,
    Other,
}

/// A key press: the key, and whether the control key, and no other
/// modifier, was held with it.
#[derive(Clone, Copy, Debug, PartialEq, Eq, Structural)]
pub struct Key {
    pub code: KeyCode,
    pub control: bool,
}

/// What asked for the document to be saved.
#[derive(Clone, Copy, Debug, PartialEq, Eq, Structural)]
pub enum SaveKind {
    /// The key for saving.
    Shortcut,
    /// The command `w`.
    Write,
    /// The command `!w` with a name.
    WriteAs,
}

/// What is to be done outside the editor after a step.
#[derive(Clone, Copy, Debug, PartialEq, Eq, Structural)]
pub enum Action {
    /// Nothing.
    Nothing,
    /// The contents of the document are to be written to its file, and
    /// `finish_save` is to be told how that ended. A quiet save leaves the
    /// message as it is.
    Save { kind: SaveKind, quiet: bool },
}

/// A message for the user, with the time at which it was made. Times are
/// counted in milliseconds from a start that the caller chooses.
#[derive(Debug)]
pub struct StatusMessage {
    pub text: String,
    pub time: u64,
}

impl StatusMessage {
    /// The message `message`, made at the time `now`.
    pub fn from(message: String, now: u64) -> (status: StatusMessage)
        ensures
            status.text@ == message@,
            status.time == now,
    {
        StatusMessage { text: message, time: now }
    }

    /// Whether a message made at the time `time` is still shown at the time
    /// `now`: for five seconds from when it was made.
    pub open spec fn shown_at(time: u64, now: u64) -> bool {
        now < time || now - time < MESSAGE_LIFETIME
    }

    /// Tells whether the message is still shown at the time `now`.
    pub fn is_shown(&self, now: u64) -> (shown: bool)
        ensures
            shown == Self::shown_at(self.time, now),
    {
        now < self.time || now - self.time < MESSAGE_LIFETIME
    }
}

/// The state of the editor.
pub struct Editor {
    /// Whether the user has asked to leave.
    pub should_quit: bool,
    /// The size of the screen.
    pub size: Size,
    /// Where the cursor stands in the document.
    pub cursor_position: Position,
    /// The document that is edited.
    pub document: Document,
    /// The message that was made last.
    pub status_message: StatusMessage,
    /// What the keys do.
    pub mode: Mode,
    /// Whether the rows are numbered in the margin.
    pub show_line_numbers: bool,
    /// The first row that the screen shows.
    pub row_offset: usize,
}

/// The state of the editor as plain values.
pub struct EditorState {
    pub should_quit: bool,
    pub size: Size,
    pub cursor: Position,
    pub document: Buffer,
    pub status: Seq<char>,
    pub status_time: u64,
    pub mode: ModeView,
    pub show_line_numbers: bool,
    pub row_offset: usize,
}

impl View for Editor {
    type V = EditorState;

    open spec fn view(&self) -> EditorState {
        EditorState {
            should_quit: self.should_quit,
            size: self.size,
            cursor: self.cursor_position,
            document: self.document@,
            status: self.status_message.text@,
            status_time: self.status_message.time,
            mode: self.mode@,
            show_line_numbers: self.show_line_numbers,
            row_offset: self.row_offset,
        }
    }
}

/// The place that a movement key brings the cursor to, before it is
/// clamped: the column and the row. Up and down keep the column. Left at the
/// start of a row goes to the end of the row before, right at the end of a
/// row to the start of the next. The keys `w`, `a`, `s` and `d` move as the
/// arrows do.
pub open spec fn step(s: Seq<char>, cursor: Position, code: KeyCode) -> (nat, nat) {
    let x = cursor.x as nat;
    let y = cursor.y as nat;
    let height = line_count(s);
    let width = line_length(s, y);
    if code == KeyCode::Up || code == KeyCode::Char('w') {
        (x, if y > 0 { (y - 1) as nat } else { y })
    } else if code == KeyCode::Down || code == KeyCode::Char('s') {
        (x, if y < height { y + 1 } else { y })
    } else if code == KeyCode::Left || code == KeyCode::Char('a') {
        if x > 0 {
            ((x - 1) as nat, y)
        } else if y > 0 {
            (line_length(s, (y - 1) as nat), (y - 1) as nat)
        } else {
            (x, y)
        }
    } else if code == KeyCode::Right || code == KeyCode::Char('d') {
        if x < width {
            (x + 1, y)
        } else if y < height {
            (0, y + 1)
        } else {
            (x, y)
        }
    } else {
        (x, y)
    }
}

impl EditorState {
    /// The state with the message `text`, made at `now`.
    pub open spec fn say(self, text: Seq<char>, now: u64) -> EditorState {
        EditorState { status: text, status_time: now, ..self }
    }

    /// The state with the cursor at the valid place nearest to column `col`
    /// of row `row`.
    pub open spec fn place(self, row: nat, col: nat) -> EditorState {
        EditorState { cursor: clamped(self.document.text, row, col), ..self }
    }

    /// The state with the cursor clamped to the document.
    pub open spec fn settle(self) -> EditorState {
        self.place(self.cursor.y as nat, self.cursor.x as nat)
    }

    /// The state with the document `document`.
    pub open spec fn with_document(self, document: Buffer) -> EditorState {
        EditorState { document, ..self }
    }

    /// The state with the mode `mode`.
    pub open spec fn with_mode(self, mode: ModeView) -> EditorState {
        EditorState { mode, ..self }
    }

    /// The state after a movement key.
    pub open spec fn moved(self, code: KeyCode) -> EditorState {
        let to = step(self.document.text, self.cursor, code);
        self.place(to.1, to.0)
    }

    /// The state after the view has followed the cursor. The screen keeps
    /// its two last lines for the status and the message.
    pub open spec fn scrolled(self) -> EditorState {
        let height = if self.size.height >= 2 {
            (self.size.height - 2) as nat
        } else {
            0
        };
        if height == 0 && self.cursor.y == usize::MAX {
            self
        } else {
            EditorState {
                row_offset: scrolled(self.cursor.y as nat, self.row_offset as nat, height) as usize,
                ..self
            }
        }
    }
}

/// `line` without its last character, if it has one.
pub open spec fn without_last(line: Seq<char>) -> Seq<char> {
    if line.len() > 0 {
        line.drop_last()
    } else {
        line
    }
}

/// The action `action`, made quiet if it is a save.
pub open spec fn quieted(action: Action) -> Action {
    match action {
        Action::Save { kind, quiet } => Action::Save { kind, quiet: true },
        Action::Nothing => Action::Nothing,
    }
}

/// Whether `code` is one of the four arrows.
pub open spec fn is_arrow(code: KeyCode) -> bool {
    code == KeyCode::Up || code == KeyCode::Down || code == KeyCode::Left || code
        == KeyCode::Right
}

/// The editor as it starts. `file` is the name of the file to edit, if one
/// was named, with what reading it gave. A file that could not be read, or
/// that holds no text, leaves an empty document and a message that says so.
pub open spec fn started(
    file: Option<(Seq<char>, Result<Seq<u8>, IoFailure>)>,
    size: Size,
    now: u64,
) -> EditorState {
    EditorState {
        should_quit: false,
        size,
        cursor: Position { x: 0, y: 0 },
        document: match file {
            Some((name, read)) => match opened_from(name, read) {
                Ok(buffer) => buffer,
                Err(_) => empty_buffer(),
            },
            None => empty_buffer(),
        },
        status: match file {
            Some((name, read)) => match opened_from(name, read) {
                Ok(_) => "Normal Mode - Press 'i' to insert"@,
                Err(_) => "ERR: Could not open file: "@ + name,
            },
            None => "Normal Mode - Press 'i' to insert"@,
        },
        status_time: now,
        mode: ModeView::Normal,
        show_line_numbers: true,
        row_offset: 0,
    }
}

impl EditorState {
    /// The state after a key in normal mode.
    pub open spec fn normal_key(self, key: Key, now: u64) -> EditorState {
        if key.code == KeyCode::Char('i') {
            self.with_document(self.document.snapshot()).with_mode(ModeView::Insert).say(
                "Insert Mode"@,
                now,
            )
        } else if key.code == KeyCode::Char(':') {
            self.with_mode(ModeView::Command(Seq::empty())).say("Command: "@, now)
        } else if key.code == KeyCode::Char('q') && key.control {
            EditorState { should_quit: true, ..self }
        } else if key.code == KeyCode::Char('s') && key.control {
            if self.document.filename is None {
                self.with_mode(ModeView::SaveAs(Seq::empty())).say("Save as: "@, now)
            } else {
                self
            }
        } else if key.code == KeyCode::Char('u') {
            if self.document.undo.len() > 0 {
                self.with_document(self.document.undo()).say("Undo"@, now)
            } else {
                self
            }
        } else if key.code == KeyCode::Char('r') {
            if self.document.redo.len() > 0 {
                self.with_document(self.document.redo()).say("Redo"@, now)
            } else {
                self
            }
        } else if is_arrow(key.code) {
            self.moved(key.code)
        } else {
            self
        }
    }

    /// What is to be done outside the editor after a key in normal mode:
    /// the key for saving asks for a save where the document has a file name.
    pub open spec fn normal_action(self, key: Key) -> Action {
        if key.code == KeyCode::Char('s') && key.control && self.document.filename is Some {
            Action::Save { kind: SaveKind::Shortcut, quiet: false }
        } else {
            Action::Nothing
        }
    }

    /// The state after a key in insert mode. A snapshot is taken before a
    /// new row and before a space, so that undo goes back word by word.
    pub open spec fn insert_key(self, key: Key, now: u64) -> EditorState {
        let x = self.cursor.x;
        let y = self.cursor.y;
        let text = self.document.text;
        match key.code {
            KeyCode::Esc => self.with_mode(ModeView::Normal).say("Normal Mode"@, now),
            KeyCode::Enter => self.with_document(
                self.document.snapshot().inserted(self.cursor, '\n'),
            ).place((y + 1) as nat, 0),
            KeyCode::Char(c) => if c == ' ' {
                self.with_document(self.document.snapshot().inserted(self.cursor, c)).place(
                    y as nat,
                    (x + 1) as nat,
                )
            } else {
                self.with_document(self.document.inserted(self.cursor, c)).place(
                    y as nat,
                    (x + 1) as nat,
                )
            },
            KeyCode::Backspace => if x > 0 {
                self.with_document(
                    self.document.deleted(Position { x: (x - 1) as usize, y }),
                ).place(y as nat, (x - 1) as nat)
            } else if y > 0 {
                let end = line_length(text, (y - 1) as nat);
                self.with_document(
                    self.document.deleted(Position { x: end as usize, y: (y - 1) as usize }),
                ).place((y - 1) as nat, end)
            } else {
                self
            },
            KeyCode::Up | KeyCode::Down | KeyCode::Left | KeyCode::Right => self.moved(key.code),
            KeyCode::Other => self,
        }
    }

    /// The state after a key in command mode, where the command line holds
    /// `line`. Enter carries the line out and goes back to normal mode with
    /// an empty message.
    pub open spec fn command_key(self, line: Seq<char>, key: Key, now: u64) -> EditorState {
        match key.code {
            KeyCode::Enter => executed(self, line, now).with_mode(ModeView::Normal).say(
                Seq::empty(),
                now,
            ),
            KeyCode::Esc => self.with_mode(ModeView::Normal).say(Seq::empty(), now),
            KeyCode::Backspace => self.with_mode(ModeView::Command(without_last(line))),
            KeyCode::Char(c) => self.with_mode(ModeView::Command(line.push(c))),
            _ => self,
        }
    }

    /// What is to be done outside the editor after a key in command mode: a
    /// quiet save, where the line that Enter carries out asks for a save.
    pub open spec fn command_action(line: Seq<char>, key: Key) -> Action {
        if key.code == KeyCode::Enter {
            quieted(action_for(line))
        } else {
            Action::Nothing
        }
    }

    /// The state after a key while the name to save under is asked for,
    /// where `name` is what was typed of it. Enter takes the name, unless it
    /// is empty; Esc, and Enter on an empty name, give the save up.
    pub open spec fn save_as_key(self, name: Seq<char>, key: Key, now: u64) -> EditorState {
        match key.code {
            KeyCode::Backspace => self.with_mode(ModeView::SaveAs(without_last(name))).say(
                "Save as: "@ + without_last(name),
                now,
            ),
            KeyCode::Enter => if name.len() == 0 {
                self.with_mode(ModeView::Normal).say("Save aborted."@, now)
            } else {
                self.with_document(Buffer { filename: Some(name), ..self.document }).with_mode(
                    ModeView::Normal,
                ).say(Seq::empty(), now)
            },
            KeyCode::Char(c) => if is_control_char(c) {
                self.say("Save as: "@ + name, now)
            } else {
                self.with_mode(ModeView::SaveAs(name.push(c))).say(
                    "Save as: "@ + name.push(c),
                    now,
                )
            },
            KeyCode::Esc => self.with_mode(ModeView::Normal).say("Save aborted."@, now),
            _ => self.say("Save as: "@ + name, now),
        }
    }

    /// What is to be done outside the editor after a key while the name to
    /// save under is asked for: a save, once Enter has taken a name.
    pub open spec fn save_as_action(name: Seq<char>, key: Key) -> Action {
        if key.code == KeyCode::Enter && name.len() > 0 {
            Action::Save { kind: SaveKind::Shortcut, quiet: false }
        } else {
            Action::Nothing
        }
    }

    /// The state after a key, whatever the mode: what the mode makes of
    /// the key, with the cursor clamped to the document.
    pub open spec fn pressed(self, key: Key, now: u64) -> EditorState {
        match self.mode {
            ModeView::Normal => self.normal_key(key, now),
            ModeView::Insert => self.insert_key(key, now),
            ModeView::Command(line) => self.command_key(line, key, now),
            ModeView::SaveAs(name) => self.save_as_key(name, key, now),
        }.settle()
    }

    /// What is to be done outside the editor after a key.
    pub open spec fn action(self, key: Key) -> Action {
        match self.mode {
            ModeView::Normal => self.normal_action(key),
            ModeView::Insert => Action::Nothing,
            ModeView::Command(line) => Self::command_action(line, key),
            ModeView::SaveAs(name) => Self::save_as_action(name, key),
        }
    }

    /// Whether a save that ended as `written` counts as done: a document
    /// without a file name is not written, and that is no failure.
    pub open spec fn save_succeeds(self, written: Result<(), IoFailure>) -> bool {
        self.document.filename is None || written is Ok
    }

    /// The state after the save that an action asked for has ended as
    /// `written` tells. The document takes note of it, and unless the save
    /// is quiet the message tells how it ended. A save under a new name that
    /// failed leaves the message as it is.
    pub open spec fn save_finished(
        self,
        kind: SaveKind,
        quiet: bool,
        written: Result<(), IoFailure>,
        now: u64,
    ) -> EditorState {
        let done = self.with_document(self.document.saved(written));
        let ok = self.save_succeeds(written);
        if quiet {
            done
        } else {
            match kind {
                SaveKind::Shortcut => done.say(
                    if ok {
                        "File saved successfully."@
                    } else {
                        "Error writing file!"@
                    },
                    now,
                ),
                SaveKind::Write => done.say(
                    if ok {
                        "File saved."@
                    } else {
                        "Error: "@ + written->Err_0.description()
                    },
                    now,
                ),
                SaveKind::WriteAs => if ok {
                    done.say("File saved as new name."@, now)
                } else {
                    done
                },
            }
        }
    }

    /// The state after the row of the cursor was indented by `count` units:
    /// the cursor moves along with the text.
    pub open spec fn indented(self, count: nat) -> EditorState {
        self.with_document(self.document.indented(self.cursor.y as nat, count)).place(
            self.cursor.y as nat,
            (self.cursor.x + 4 * count) as nat,
        )
    }
}

impl Editor {
    /// Replaces the message by `text`, made at `now`.
    pub fn say(&mut self, text: &str, now: u64)
        ensures
            final(self)@ == old(self)@.say(text@, now),
    {
        self.status_message = StatusMessage::from(String::from_str(text), now);
    }

    /// Replaces the message by an empty one, made at `now`.
    pub fn clear_message(&mut self, now: u64)
        ensures
            final(self)@ == old(self)@.say(Seq::empty(), now),
    {
        self.status_message = StatusMessage::from(String::new(), now);
    }

    /// Replaces the message by the characters `text`, made at `now`.
    pub fn say_chars(&mut self, text: &Vec<char>, now: u64)
        ensures
            final(self)@ == old(self)@.say(text@, now),
    {
        self.status_message = StatusMessage::from(from_chars(text), now);
    }

    /// Puts the cursor at the valid place nearest to column `col` of row
    /// `row`.
    pub fn place(&mut self, row: usize, col: usize)
        ensures
            final(self)@ == old(self)@.place(row as nat, col as nat),
            valid_position(final(self)@.document.text, final(self)@.cursor),
            line_count(old(self)@.document.text) <= usize::MAX,
            line_length(old(self)@.document.text, final(self)@.cursor.y as nat) <= usize::MAX,
    {
        self.cursor_position = self.document.clamp_to_line(row, col);
    }

    /// Moves the cursor as a movement key asks.
    pub fn move_cursor(&mut self, key: KeyCode)
        ensures
            final(self)@ == old(self)@.moved(key),
            valid_position(final(self)@.document.text, final(self)@.cursor),
    {
        let x = self.cursor_position.x;
        let y = self.cursor_position.y;
        let height = self.document.len();
        let width = self.document.line_length(y);
        let (new_x, new_y) = match key {
            KeyCode::Up | KeyCode::Char('w') => (x, if y > 0 { y - 1 } else { y }),
            KeyCode::Down | KeyCode::Char('s') => (x, if y < height { y + 1 } else { y }),
            KeyCode::Left | KeyCode::Char('a') => {
                if x > 0 {
                    (x - 1, y)
                } else if y > 0 {
                    (self.document.line_length(y - 1), y - 1)
                } else {
                    (x, y)
                }
            },
            KeyCode::Right | KeyCode::Char('d') => {
                if x < width {
                    (x + 1, y)
                } else if y < height {
                    (0, y + 1)
                } else {
                    (x, y)
                }
            },
            _ => (x, y),
        };
        self.place(new_y, new_x);
    }

    /// Lets the view follow the cursor.
    pub fn scroll(&mut self)
        ensures
            final(self)@ == old(self)@.scrolled(),
    {
        let height: usize = if self.size.height >= 2 {
            (self.size.height - 2) as usize
        } else {
            0
        };
        if height == 0 && self.cursor_position.y == usize::MAX {
            return ;
        }
        self.row_offset = scroll(self.cursor_position.y, self.row_offset, height);
    }

    /// The editor as it starts, at the time `now`, on a screen of the size
    /// `size`. `file` is the name of the file to edit, if one was named,
    /// with what reading it gave.
    pub fn default(file: Option<(String, Result<Vec<u8>, IoFailure>)>, size: Size, now: u64) -> (editor:
        Editor)
        ensures
            editor@ == started(
                match file {
                    Some((name, Ok(bytes))) => Some((name@, Ok::<Seq<u8>, IoFailure>(bytes@))),
                    Some((name, Err(failure))) => Some(
                        (name@, Err::<Seq<u8>, IoFailure>(failure)),
                    ),
                    None => None,
                },
                size,
                now,
            ),
            valid_position(editor@.document.text, editor@.cursor),
    {
        let mut status = String::from_str("Normal Mode - Press 'i' to insert");
        let document = match file {
            Some((name, read)) => {
                match Document::open(name.as_str(), read) {
                    Ok(document) => document,
                    Err(_) => {
                        status = String::from_str("ERR: Could not open file: ");
                        status.append(name.as_str());
                        Document::default()
                    },
                }
            },
            None => Document::default(),
        };
        Editor {
            should_quit: false,
            size,
            cursor_position: Position { x: 0, y: 0 },
            document,
            status_message: StatusMessage::from(status, now),
            mode: Mode::Normal,
            show_line_numbers: true,
            row_offset: 0,
        }
    }

    /// Takes a key press at the time `now`, and tells what is to be done
    /// outside the editor.
    pub fn process_keypress(&mut self, key: Key, now: u64) -> (action: Action)
        ensures
            final(self)@ == old(self)@.pressed(key, now),
            action == old(self)@.action(key),
            valid_position(final(self)@.document.text, final(self)@.cursor),
    {
        let action = match &self.mode {
            Mode::Normal => self.process_normal_mode(key, now),
            Mode::Insert => {
                self.process_insert_mode(key, now);
                Action::Nothing
            },
            Mode::Command(_) => self.process_command_mode(key, now),
            Mode::SaveAs(_) => self.process_save_as(key, now),
        };
        self.place(self.cursor_position.y, self.cursor_position.x);
        action
    }

    /// Takes a key press in normal mode.
    pub fn process_normal_mode(&mut self, key: Key, now: u64) -> (action: Action)
        ensures
            final(self)@ == old(self)@.normal_key(key, now),
            action == old(self)@.normal_action(key),
    {
        match key.code {
            KeyCode::Char(c) => {
                if c == 'i' {
                    self.document.snapshot();
                    self.mode = Mode::Insert;
                    self.say("Insert Mode", now);
                } else if c == ':' {
                    self.mode = Mode::Command(String::new());
                    self.say("Command: ", now);
                } else if c == 'q' && key.control {
                    self.should_quit = true;
                } else if c == 's' && key.control {
                    if self.document.filename().is_none() {
                        self.mode = Mode::SaveAs(String::new());
                        self.say("Save as: ", now);
                    } else {
                        return Action::Save { kind: SaveKind::Shortcut, quiet: false };
                    }
                } else if c == 'u' {
                    if self.document.undo() {
                        self.say("Undo", now);
                    }
                } else if c == 'r' {
                    if self.document.redo() {
                        self.say("Redo", now);
                    }
                }
            },
            KeyCode::Up | KeyCode::Down | KeyCode::Left | KeyCode::Right => {
                self.move_cursor(key.code);
            },
            _ => {},
        }
        Action::Nothing
    }

    /// Takes a key press in insert mode.
    pub fn process_insert_mode(&mut self, key: Key, now: u64)
        ensures
            final(self)@ == old(self)@.insert_key(key, now),
    {
        let x = self.cursor_position.x;
        let y = self.cursor_position.y;
        let next_x = if x < usize::MAX { x + 1 } else { x };
        let next_y = if y < usize::MAX { y + 1 } else { y };
        match key.code {
            KeyCode::Esc => {
                self.mode = Mode::Normal;
                self.say("Normal Mode", now);
            },
            KeyCode::Enter => {
                self.document.snapshot();
                self.document.insert(&self.cursor_position, '\n');
                self.place(next_y, 0);
            },
            KeyCode::Char(c) => {
                if c == ' ' {
                    self.document.snapshot();
                }
                self.document.insert(&self.cursor_position, c);
                self.place(y, next_x);
            },
            KeyCode::Backspace => {
                if x > 0 {
                    self.document.delete(&Position { x: x - 1, y });
                    self.place(y, x - 1);
                } else if y > 0 {
                    let end = self.document.line_length(y - 1);
                    self.document.delete(&Position { x: end, y: y - 1 });
                    self.place(y - 1, end);
                }
            },
            KeyCode::Up | KeyCode::Down | KeyCode::Left | KeyCode::Right => {
                self.move_cursor(key.code);
            },
            KeyCode::Other => {},
        }
    }

    /// Takes a key press in command mode.
    pub fn process_command_mode(&mut self, key: Key, now: u64) -> (action: Action)
        requires
            old(self)@.mode is Command,
        ensures
            final(self)@ == old(self)@.command_key(old(self)@.mode->Command_0, key, now),
            action == EditorState::command_action(old(self)@.mode->Command_0, key),
    {
        let line = match &self.mode {
            Mode::Command(line) => line.clone(),
            _ => String::new(),
        };
        match key.code {
            KeyCode::Enter => {
                let action = execute_command(self, line.as_str(), now);
                self.mode = Mode::Normal;
                self.clear_message(now);
                match action {
                    Action::Save { kind, quiet } => Action::Save { kind, quiet: true },
                    Action::Nothing => Action::Nothing,
                }
            },
            KeyCode::Esc => {
                self.mode = Mode::Normal;
                self.clear_message(now);
                Action::Nothing
            },
            KeyCode::Backspace => {
                let mut chars = to_chars(line.as_str());
                if chars.len() > 0 {
                    chars.pop();
                }
                self.mode = Mode::Command(from_chars(&chars));
                Action::Nothing
            },
            KeyCode::Char(c) => {
                let mut line = line;
                string_push(&mut line, c);
                self.mode = Mode::Command(line);
                Action::Nothing
            },
            _ => Action::Nothing,
        }
    }

    /// Takes a key press while the name to save under is asked for.
    pub fn process_save_as(&mut self, key: Key, now: u64) -> (action: Action)
        requires
            old(self)@.mode is SaveAs,
        ensures
            final(self)@ == old(self)@.save_as_key(old(self)@.mode->SaveAs_0, key, now),
            action == EditorState::save_as_action(old(self)@.mode->SaveAs_0, key),
    {
        let name = match &self.mode {
            Mode::SaveAs(name) => name.clone(),
            _ => String::new(),
        };
        let mut chars = to_chars(name.as_str());
        match key.code {
            KeyCode::Enter => {
                self.mode = Mode::Normal;
                if chars.len() == 0 {
                    self.say("Save aborted.", now);
                    return Action::Nothing;
                }
                self.document.set_filename(name.as_str());
                self.clear_message(now);
                return Action::Save { kind: SaveKind::Shortcut, quiet: false };
            },
            KeyCode::Esc => {
                self.mode = Mode::Normal;
                self.say("Save aborted.", now);
                return Action::Nothing;
            },
            KeyCode::Backspace => {
                if chars.len() > 0 {
                    chars.pop();
                }
            },
            KeyCode::Char(c) => {
                if !is_control(c) {
                    chars.push(c);
                }
            },
            _ => {},
        }
        self.mode = Mode::SaveAs(from_chars(&chars));
        let prompt = joined("Save as: ", &chars);
        self.say_chars(&prompt, now);
        Action::Nothing
    }

    /// Takes note of how the save that an action asked for has ended, and
    /// hands the outcome on.
    pub fn finish_save(
        &mut self,
        kind: SaveKind,
        quiet: bool,
        written: Result<(), IoFailure>,
        now: u64,
    ) -> (res: Result<(), IoFailure>)
        ensures
            final(self)@ == old(self)@.save_finished(kind, quiet, written, now),
            old(self)@.save_succeeds(written) ==> res is Ok,
            !old(self)@.save_succeeds(written) ==> res == written,
    {
        let res = self.document.save(written);
        if quiet {
            return res;
        }
        match kind {
            SaveKind::Shortcut => {
                if res.is_ok() {
                    self.say("File saved successfully.", now);
                } else {
                    self.say("Error writing file!", now);
                }
            },
            SaveKind::Write => {
                match res {
                    Ok(_) => {
                        self.say("File saved.", now);
                    },
                    Err(failure) => {
                        let text = joined("Error: ", &to_chars(failure.describe()));
                        self.say_chars(&text, now);
                    },
                }
            },
            SaveKind::WriteAs => {
                if res.is_ok() {
                    self.say("File saved as new name.", now);
                }
            },
        }
        res
    }

    /// Indents the row of the cursor by `count` units, and moves the cursor
    /// along with the text.
    pub fn indent_line(&mut self, count: usize)
        ensures
            final(self)@ == old(self)@.indented(count as nat),
            valid_position(final(self)@.document.text, final(self)@.cursor),
    {
        let at = self.cursor_position;
        self.document.indent(at.y, count);
        let col = match count.checked_mul(4) {
            Some(width) => match at.x.checked_add(width) {
                Some(col) => col,
                None => usize::MAX,
            },
            None => usize::MAX,
        };
        self.place(at.y, col);
    }

    /// The width of the margin that holds the row numbers.
    pub fn gutter_width(&self) -> (width: usize)
        ensures
            width == gutter(self@.show_line_numbers, line_count(self@.document.text)),
    {
        gutter_width(self.show_line_numbers, self.document.len())
    }
}

} // verus!
