//! The commands of the command line: what a line of text asks for, and
//! what each command does to the editor.

use vstd::prelude::*;
use crate::chars::{from_chars, to_chars};
use crate::document::Buffer;
use crate::editor::{Action, Editor, EditorState, SaveKind};
use crate::replace::{append_chars, count_matches};
use crate::search::next_match;
use crate::text::valid_position;
use crate::textfmt::{decimal, decimal_chars};
use crate::parse::{parse_number, read_number, split_fields, split_on, split_words, words};

verus! {

/// What a command line asks for.
#[derive(Debug, PartialEq, Eq)]
pub enum Command {
    /// `s/target/replacement`: replace every occurrence of a text.
    Substitute { target: String, replacement: String },
    /// `s/` without a second separator.
    SubstituteUsage,
    /// A line without a word.
    Blank,
    /// `q`: leave the editor.
    Quit,
    /// `w`: save the document.
    Write,
    /// `!w name`: save the document under a new name.
    WriteAs(String),
    /// `!w` without a name.
    WriteAsWithoutName,
    /// `head n`: make the row of the cursor a header of level `n`.
    Header(usize),
    /// `bold`: wrap the word of the cursor in pairs of stars.
    Bold,
    /// `italic`: wrap the word of the cursor in stars.
    Italic,
    /// `t n`: indent the row of the cursor by `n` units.
    Indent(usize),
    /// `find text`: go to the next occurrence of a text.
    Find(String),
    /// `ln`: show or hide the row numbers.
    LineNumbers,
    /// `head`, `t` or `find` without what they need: nothing is done.
    Ignored,
    /// Any other line.
    Unknown,
}

/// A command as plain values.
pub enum CommandView {
    Substitute { target: Seq<char>, replacement: Seq<char> },
    SubstituteUsage,
    Blank,
    Quit,
    Write,
    WriteAs(Seq<char>),
    WriteAsWithoutName,
    Header(nat),
    Bold,
    Italic,
    Indent(nat),
    Find(Seq<char>),
    LineNumbers,
    Ignored,
    Unknown,
}

impl View for Command {
    type V = CommandView;

    open spec fn view(&self) -> CommandView {
        match self {
            Command::Substitute { target, replacement } => CommandView::Substitute {
                target: target@,
                replacement: replacement@,
            },
            Command::SubstituteUsage => CommandView::SubstituteUsage,
            Command::Blank => CommandView::Blank,
            Command::Quit => CommandView::Quit,
            Command::Write => CommandView::Write,
            Command::WriteAs(name) => CommandView::WriteAs(name@),
            Command::WriteAsWithoutName => CommandView::WriteAsWithoutName,
            Command::Header(level) => CommandView::Header(*level as nat),
            Command::Bold => CommandView::Bold,
            Command::Italic => CommandView::Italic,
            Command::Indent(count) => CommandView::Indent(*count as nat),
            Command::Find(query) => CommandView::Find(query@),
            Command::LineNumbers => CommandView::LineNumbers,
            Command::Ignored => CommandView::Ignored,
            Command::Unknown => CommandView::Unknown,
        }
    }
}

/// The command that the words `w` of a line ask for.
pub open spec fn command_of_words(w: Seq<Seq<char>>) -> CommandView {
    if w.len() == 0 {
        CommandView::Blank
    } else if w[0] == "q"@ {
        CommandView::Quit
    } else if w[0] == "w"@ {
        CommandView::Write
    } else if w[0] == "!w"@ {
        if w.len() > 1 {
            CommandView::WriteAs(w[1])
        } else {
            CommandView::WriteAsWithoutName
        }
    } else if w[0] == "head"@ {
        if w.len() > 1 && parse_number(w[1]) is Some {
            CommandView::Header(parse_number(w[1])->Some_0)
        } else {
            CommandView::Ignored
        }
    } else if w[0] == "bold"@ {
        CommandView::Bold
    } else if w[0] == "italic"@ {
        CommandView::Italic
    } else if w[0] == "t"@ {
        if w.len() > 1 && parse_number(w[1]) is Some {
            CommandView::Indent(parse_number(w[1])->Some_0)
        } else {
            CommandView::Ignored
        }
    } else if w[0] == "find"@ {
        if w.len() > 1 {
            CommandView::Find(w[1])
        } else {
            CommandView::Ignored
        }
    } else if w[0] == "ln"@ {
        CommandView::LineNumbers
    } else {
        CommandView::Unknown
    }
}

/// The command that the line `s` asks for. A line that starts with `s/` is
/// cut at its slashes, and the two fields behind the first are the target
/// and the replacement; white space is a part of them. Every other line is
/// cut into words, of which the first names the command.
pub open spec fn parse_command(s: Seq<char>) -> CommandView {
    if s.len() >= 2 && s[0] == 's' && s[1] == '/' {
        let parts = split_on(s, '/');
        if parts.len() >= 3 {
            CommandView::Substitute { target: parts[1], replacement: parts[2] }
        } else {
            CommandView::SubstituteUsage
        }
    } else {
        command_of_words(words(s))
    }
}

/// Tells whether `word` is the word `name`.
pub fn is_word(word: &Vec<char>, name: &str) -> (same: bool)
    ensures
        same == (word@ == name@),
{
    let wanted = to_chars(name);
    if word.len() != wanted.len() {
        return false;
    }
    let mut i: usize = 0;
    while i < word.len()
        invariant
            i <= word.len(),
            word.len() == wanted.len(),
            wanted@ == name@,
            forall|j: int| 0 <= j < i ==> word@[j] == wanted@[j],
        decreases word.len() - i,
    {
        if word[i] != wanted[i] {
            return false;
        }
        i += 1;
    }
    assert(word@ =~= wanted@);
    true
}

/// Reads a command line.
pub fn parse(command: &str) -> (parsed: Command)
    ensures
        parsed@ == parse_command(command@),
{
    let line = to_chars(command);
    if line.len() >= 2 && line[0] == 's' && line[1] == '/' {
        let parts = split_fields(&line, '/');
        if parts.len() >= 3 {
            return Command::Substitute {
                target: from_chars(&parts[1]),
                replacement: from_chars(&parts[2]),
            };
        } else {
            return Command::SubstituteUsage;
        }
    }
    let w = split_words(&line);
    if w.len() == 0 {
        return Command::Blank;
    }
    if is_word(&w[0], "q") {
        Command::Quit
    } else if is_word(&w[0], "w") {
        Command::Write
    } else if is_word(&w[0], "!w") {
        if w.len() > 1 {
            Command::WriteAs(from_chars(&w[1]))
        } else {
            Command::WriteAsWithoutName
        }
    } else if is_word(&w[0], "head") {
        if w.len() > 1 {
            match read_number(&w[1]) {
                Some(level) => Command::Header(level),
                None => Command::Ignored,
            }
        } else {
            Command::Ignored
        }
    } else if is_word(&w[0], "bold") {
        Command::Bold
    } else if is_word(&w[0], "italic") {
        Command::Italic
    } else if is_word(&w[0], "t") {
        if w.len() > 1 {
            match read_number(&w[1]) {
                Some(count) => Command::Indent(count),
                None => Command::Ignored,
            }
        } else {
            Command::Ignored
        }
    } else if is_word(&w[0], "find") {
        if w.len() > 1 {
            Command::Find(from_chars(&w[1]))
        } else {
            Command::Ignored
        }
    } else if is_word(&w[0], "ln") {
        Command::LineNumbers
    } else {
        Command::Unknown
    }
}

/// The message that tells how many occurrences of `target` were replaced.
pub open spec fn replaced_message(target: Seq<char>, count: nat) -> Seq<char> {
    "Replaced '"@ + target + "' in "@ + decimal(count) + " lines"@
}

/// The state of the editor after the word around the cursor was wrapped in
/// `marker`: the cursor stands behind the second marker.
pub open spec fn word_wrapped(state: EditorState, marker: Seq<char>) -> EditorState {
    state.with_document(state.document.word_wrapped(state.cursor, marker)).place(
        state.cursor.y as nat,
        state.document.wrapped_column(state.cursor, marker) as nat,
    )
}

/// The state of the editor after a search for `query` from the cursor on:
/// the cursor stands at the occurrence found, if there is one, and the
/// message tells whether there is.
pub open spec fn searched(state: EditorState, query: Seq<char>, now: u64) -> EditorState {
    match next_match(state.document.text, query, state.cursor) {
        Some(found) => state.say("Found: "@ + query, now).place(found.0, found.1 as nat),
        None => state.say("Not found: "@ + query, now).settle(),
    }
}

/// The state of the editor after the command line `command` was carried
/// out at the time `now`. Every command starts with a snapshot of the
/// document, so that what it changes can be undone. Saving is not done here:
/// see `action_for`.
pub open spec fn executed(state: EditorState, command: Seq<char>, now: u64) -> EditorState {
    let start = state.with_document(state.document.snapshot());
    let text = start.document.text;
    let at = start.cursor;
    match parse_command(command) {
        CommandView::Substitute { target, replacement } => {
            if target.len() > 0 || text.len() < usize::MAX {
                start.with_document(start.document.replaced(target, replacement)).say(
                    replaced_message(target, count_matches(text, target)),
                    now,
                ).settle()
            } else {
                start.settle()
            }
        },
        CommandView::SubstituteUsage => start.say("Usage: s/old/new"@, now).settle(),
        CommandView::Blank => start.settle(),
        CommandView::Quit => (EditorState { should_quit: true, ..start }).settle(),
        CommandView::Write => start.settle(),
        CommandView::WriteAs(name) => start.with_document(
            Buffer { filename: Some(name), ..start.document },
        ).settle(),
        CommandView::WriteAsWithoutName => start.say("Error: !w requires a filename"@, now).settle(),
        CommandView::Header(level) => start.with_document(
            start.document.with_header(at.y as nat, level),
        ).settle(),
        CommandView::Bold => word_wrapped(start, "**"@),
        CommandView::Italic => word_wrapped(start, "*"@),
        CommandView::Indent(count) => start.indented(count),
        CommandView::Find(query) => searched(start, query, now),
        CommandView::LineNumbers => (EditorState {
            show_line_numbers: !start.show_line_numbers,
            ..start
        }).say(
            if start.show_line_numbers {
                "Line numbers: false"@
            } else {
                "Line numbers: true"@
            },
            now,
        ).settle(),
        CommandView::Ignored => start.settle(),
        CommandView::Unknown => start.say("Unknown command: "@ + command, now).settle(),
    }
}

/// What is to be done outside the editor for the command line `command`:
/// the document is to be saved for `w` and for `!w` with a name.
pub open spec fn action_for(command: Seq<char>) -> Action {
    match parse_command(command) {
        CommandView::Write => Action::Save { kind: SaveKind::Write, quiet: false },
        CommandView::WriteAs(_) => Action::Save { kind: SaveKind::WriteAs, quiet: false },
        _ => Action::Nothing,
    }
}

/// The characters of `first` followed by those of `second`.
pub fn joined(first: &str, second: &Vec<char>) -> (text: Vec<char>)
    ensures
        text@ == first@ + second@,
{
    let mut text = to_chars(first);
    append_chars(&mut text, second);
    text
}

/// Wraps the word around the cursor in `wrapper`, and puts the cursor
/// behind the second marker.
pub fn wrap_word(editor: &mut Editor, wrapper: &str)
    ensures
        final(editor)@ == word_wrapped(old(editor)@, wrapper@),
        valid_position(final(editor)@.document.text, final(editor)@.cursor),
{
    let at = editor.cursor_position;
    let cursor = editor.document.wrap_selection(&at, wrapper);
    editor.place(cursor.y, cursor.x);
}

/// Goes to the next occurrence of `query` behind the cursor, and tells in
/// the message whether there is one.
pub fn find_next(editor: &mut Editor, query: &str, now: u64)
    ensures
        final(editor)@ == searched(old(editor)@, query@, now),
        valid_position(final(editor)@.document.text, final(editor)@.cursor),
{
    let wanted = to_chars(query);
    match crate::search::find_next(&editor.document, query, &editor.cursor_position) {
        Some(found) => {
            let text = joined("Found: ", &wanted);
            editor.say_chars(&text, now);
            editor.place(found.y, found.x);
        },
        None => {
            let text = joined("Not found: ", &wanted);
            editor.say_chars(&text, now);
            editor.place(editor.cursor_position.y, editor.cursor_position.x);
        },
    }
}

/// Carries out the command line `command` at the time `now`, and tells
/// what is to be done outside the editor.
pub fn execute_command(editor: &mut Editor, command: &str, now: u64) -> (action: Action)
    ensures
        final(editor)@ == executed(old(editor)@, command@, now),
        action == action_for(command@),
        valid_position(final(editor)@.document.text, final(editor)@.cursor),
{
    editor.document.snapshot();
    let at = editor.cursor_position;
    match parse(command) {
        Command::Substitute { target, replacement } => {
            match editor.document.try_replace(target.as_str(), replacement.as_str()) {
                Some(count) => {
                    let mut text = joined("Replaced '", &to_chars(target.as_str()));
                    append_chars(&mut text, &to_chars("' in "));
                    append_chars(&mut text, &decimal_chars(count as u128));
                    append_chars(&mut text, &to_chars(" lines"));
                    editor.say_chars(&text, now);
                },
                None => {},
            }
            editor.place(at.y, at.x);
            Action::Nothing
        },
        Command::SubstituteUsage => {
            editor.say("Usage: s/old/new", now);
            editor.place(at.y, at.x);
            Action::Nothing
        },
        Command::Blank => {
            editor.place(at.y, at.x);
            Action::Nothing
        },
        Command::Quit => {
            editor.should_quit = true;
            editor.place(at.y, at.x);
            Action::Nothing
        },
        Command::Write => {
            editor.place(at.y, at.x);
            Action::Save { kind: SaveKind::Write, quiet: false }
        },
        Command::WriteAs(name) => {
            editor.document.set_filename(name.as_str());
            editor.place(at.y, at.x);
            Action::Save { kind: SaveKind::WriteAs, quiet: false }
        },
        Command::WriteAsWithoutName => {
            editor.say("Error: !w requires a filename", now);
            editor.place(at.y, at.x);
            Action::Nothing
        },
        Command::Header(level) => {
            editor.document.set_header(at.y, level);
            editor.place(at.y, at.x);
            Action::Nothing
        },
        Command::Bold => {
            wrap_word(editor, "**");
            Action::Nothing
        },
        Command::Italic => {
            wrap_word(editor, "*");
            Action::Nothing
        },
        Command::Indent(count) => {
            editor.indent_line(count);
            Action::Nothing
        },
        Command::Find(query) => {
            find_next(editor, query.as_str(), now);
            Action::Nothing
        },
        Command::LineNumbers => {
            editor.show_line_numbers = !editor.show_line_numbers;
            if editor.show_line_numbers {
                editor.say("Line numbers: true", now);
            } else {
                editor.say("Line numbers: false", now);
            }
            editor.place(at.y, at.x);
            Action::Nothing
        },
        Command::Ignored => {
            editor.place(at.y, at.x);
            Action::Nothing
        },
        Command::Unknown => {
            let text = joined("Unknown command: ", &to_chars(command));
            editor.say_chars(&text, now);
            editor.place(at.y, at.x);
            Action::Nothing
        },
    }
}

} // verus!
