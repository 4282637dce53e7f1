//! The document: its characters in a rope, the name of its file, a flag that
//! tells whether it was changed since it was last saved, and the snapshots
//! that undo and redo move between.

use vstd::prelude::*;
use vstd::string::StrSliceExecFns;
use vstd::utf8::{
    decode_utf8, encode_utf8, encode_utf8_decode_utf8, encode_utf8_valid_utf8, valid_utf8,
};
use ropey::Rope;
use crate::position::Position;
use crate::row::Row;
use crate::rope::{
    rope_char, rope_char_to_line, rope_clone, rope_from_str, rope_insert, rope_insert_char,
    rope_len_chars, rope_len_lines, rope_line, rope_line_to_char, rope_new, rope_remove,
    rope_text, rope_to_string,
};
use crate::text::{
    clamp_col, clamp_row, clamped, col_at, content_end, delete_end, header_line, indentation, leading_hashes, leading_spaces, lemma_line_start_bounds,
    lemma_line_start_past_end, lemma_next_feed, lemma_row_at_bounds, line_content, line_count,
    line_length, line_start, linear_offset, row_at, splice, valid_position, word_end,
    word_start, wrapped,
};
use crate::chars::{from_chars, is_whitespace, string_from_utf8, to_chars};
use crate::replace::{count_matches, replace_all, replace_chars};

verus! {

/// What a document holds, as plain values.
pub struct Buffer {
    /// The characters of the document.
    pub text: Seq<char>,
    /// The name of the file that the document is saved to, if it has one.
    pub filename: Option<Seq<char>>,
    /// Whether the document was changed since it was opened or saved.
    pub dirty: bool,
    /// Earlier texts, the oldest first.
    pub undo: Seq<Seq<char>>,
    /// Texts that were undone, the one undone last at the end.
    pub redo: Seq<Seq<char>>,
}

impl Buffer {
    /// The buffer with `text` in place of its text, marked as changed.
    pub open spec fn edit(self, text: Seq<char>) -> Buffer {
        Buffer { text, dirty: true, ..self }
    }

    /// The bytes that the buffer's file holds once it was saved: the
    /// characters of the text in UTF-8, and nothing else. No terminator is
    /// added behind the last row and none is taken away, so the file ends
    /// with a line feed exactly when the last row of the text is empty.
    pub open spec fn file_bytes(self) -> Seq<u8> {
        encode_utf8(self.text)
    }

    /// The buffer after `c` is put at `at`. The column is clamped to the
    /// row; a row greater than the number of rows changes nothing.
    pub open spec fn inserted(self, at: Position, c: char) -> Buffer {
        if at.y > line_count(self.text) {
            self
        } else {
            self.edit(self.text.insert(linear_offset(self.text, at), c))
        }
    }

    /// The buffer after `text` is put at `at`. The column is clamped to the
    /// row; a row that the text does not have changes nothing.
    pub open spec fn inserted_str(self, at: Position, text: Seq<char>) -> Buffer {
        if at.y >= line_count(self.text) {
            self
        } else {
            let offset = linear_offset(self.text, at);
            self.edit(splice(self.text, offset, offset, text))
        }
    }

    /// The buffer after the character at `at` is taken out, with `at`
    /// clamped. At the end of a row that another row follows, the row's
    /// terminator goes and the two rows become one. At the end of the text
    /// nothing changes.
    pub open spec fn deleted(self, at: Position) -> Buffer {
        let offset = linear_offset(self.text, at);
        let stop = delete_end(self.text, at);
        if offset < stop {
            self.edit(splice(self.text, offset, stop, Seq::empty()))
        } else {
            self
        }
    }

    /// The buffer after every occurrence of `target` gave way to
    /// `replacement`. Without an occurrence nothing changes.
    pub open spec fn replaced(self, target: Seq<char>, replacement: Seq<char>) -> Buffer {
        if count_matches(self.text, target) > 0 {
            self.edit(replace_all(self.text, target, replacement))
        } else {
            self
        }
    }

    /// The buffer after row `y` became a header of level `level`: the
    /// header markers that the row starts with and the white space behind
    /// them give way to `level` markers and one space. The row's terminator
    /// stays. A row that the text does not have changes nothing.
    pub open spec fn with_header(self, y: nat, level: nat) -> Buffer {
        if y >= line_count(self.text) {
            self
        } else {
            self.edit(
                splice(
                    self.text,
                    line_start(self.text, y),
                    content_end(self.text, y),
                    header_line(line_content(self.text, y), level),
                ),
            )
        }
    }

    /// The buffer after row `y` was indented by `count` units of four
    /// columns: that many spaces stand at the start of the row, or at the end
    /// of the text for the row behind the last one. A greater row changes
    /// nothing.
    pub open spec fn indented(self, y: nat, count: nat) -> Buffer {
        if y > line_count(self.text) {
            self
        } else {
            let start = line_start(self.text, y);
            self.edit(splice(self.text, start, start, indentation(count)))
        }
    }

    /// The buffer after `marker` was put before and behind the word around
    /// `pos`. A row that the text does not have changes nothing.
    pub open spec fn word_wrapped(self, pos: Position, marker: Seq<char>) -> Buffer {
        if pos.y >= line_count(self.text) {
            self
        } else {
            self.edit(wrapped(self.text, pos, marker))
        }
    }

    /// The column behind the second marker once the word around `pos` is
    /// wrapped in `marker`; the column of `pos` for a row that the text does
    /// not have.
    pub open spec fn wrapped_column(self, pos: Position, marker: Seq<char>) -> int {
        if pos.y >= line_count(self.text) {
            pos.x as int
        } else {
            word_end(
                line_content(self.text, pos.y as nat),
                clamp_col(self.text, pos.y as nat, pos.x as nat) as int,
            ) + 2 * marker.len()
        }
    }

    /// The buffer after an attempt to write it to its file ended as
    /// `written` tells. A write that succeeded leaves the buffer unchanged
    /// from its file; one that failed changes nothing. A buffer without a
    /// file name is never written.
    pub open spec fn saved(self, written: Result<(), IoFailure>) -> Buffer {
        if self.filename is Some && written is Ok {
            Buffer { dirty: false, ..self }
        } else {
            self
        }
    }

    /// The buffer after a snapshot: the text is kept as the newest earlier
    /// text, and nothing is left to redo.
    pub open spec fn snapshot(self) -> Buffer {
        Buffer { undo: self.undo.push(self.text), redo: Seq::empty(), ..self }
    }

    /// The buffer after an undo: the newest earlier text becomes the text,
    /// and the text that it replaces can be redone. Without an earlier text
    /// nothing changes.
    pub open spec fn undo(self) -> Buffer {
        if self.undo.len() == 0 {
            self
        } else {
            Buffer {
                text: self.undo.last(),
                undo: self.undo.drop_last(),
                redo: self.redo.push(self.text),
                dirty: true,
                ..self
            }
        }
    }

    /// The buffer after a redo: the text undone last becomes the text again,
    /// and the text that it replaces becomes the newest earlier text. With
    /// nothing undone nothing changes.
    pub open spec fn redo(self) -> Buffer {
        if self.redo.len() == 0 {
            self
        } else {
            Buffer {
                text: self.redo.last(),
                undo: self.undo.push(self.text),
                redo: self.redo.drop_last(),
                dirty: true,
                ..self
            }
        }
    }
}

/// Why a file could not be read or written.
#[derive(Clone, Copy, Debug, PartialEq, Eq, Structural)]
pub enum IoFailure {
    /// There is no such file.
    NotFound,
    /// The file may not be read or written.
    PermissionDenied,
    /// The bytes read are not text in UTF-8.
    InvalidData,
    /// Reading or writing failed for another reason.
    Other,
}

impl IoFailure {
    /// What the failure is called in a message.
    pub open spec fn description(self) -> Seq<char> {
        match self {
            IoFailure::NotFound => "file not found"@,
            IoFailure::PermissionDenied => "permission denied"@,
            IoFailure::InvalidData => "file is not valid UTF-8"@,
            IoFailure::Other => "input or output failed"@,
        }
    }

    /// What the failure is called in a message.
    pub fn describe(&self) -> (text: &'static str)
        ensures
            text@ == self.description(),
    {
        match self {
            IoFailure::NotFound => "file not found",
            IoFailure::PermissionDenied => "permission denied",
            IoFailure::InvalidData => "file is not valid UTF-8",
            IoFailure::Other => "input or output failed",
        }
    }
}

/// The buffer without a character, a file name or a history.
pub open spec fn empty_buffer() -> Buffer {
    Buffer {
        text: Seq::empty(),
        filename: None,
        dirty: false,
        undo: Seq::empty(),
        redo: Seq::empty(),
    }
}

/// The buffer of a document that was just read from the file `filename`,
/// which held `contents`.
pub open spec fn opened(filename: Seq<char>, contents: Seq<char>) -> Buffer {
    Buffer {
        text: contents,
        filename: Some(filename),
        dirty: false,
        undo: Seq::empty(),
        redo: Seq::empty(),
    }
}

/// What reading the file `filename` makes of what the file system gave:
/// the buffer of the text that the bytes encode in UTF-8, or the reason why
/// there is none. Bytes that are no UTF-8 are a failure of their own. A
/// byte-order mark is a character like any other.
pub open spec fn opened_from(filename: Seq<char>, read: Result<Seq<u8>, IoFailure>) -> Result<
    Buffer,
    IoFailure,
> {
    match read {
        Ok(bytes) => if valid_utf8(bytes) {
            Ok(opened(filename, decode_utf8(bytes)))
        } else {
            Err(IoFailure::InvalidData)
        },
        Err(failure) => Err(failure),
    }
}

/// Every text that the buffer can be in by undo and redo alone, in order:
/// the earlier texts, the present text, and the texts that were undone, the
/// one undone last first.
pub open spec fn timeline(b: Buffer) -> Seq<Seq<char>> {
    b.undo.push(b.text) + b.redo.reverse()
}

/// The buffer after `n` times undo.
pub open spec fn undo_times(b: Buffer, n: nat) -> Buffer
    decreases n,
{
    if n == 0 {
        b
    } else {
        undo_times(b, (n - 1) as nat).undo()
    }
}

/// The buffer after `n` times redo.
pub open spec fn redo_times(b: Buffer, n: nat) -> Buffer
    decreases n,
{
    if n == 0 {
        b
    } else {
        redo_times(b, (n - 1) as nat).redo()
    }
}

/// The buffer after a run of edits, each of which comes behind a snapshot
/// and leaves the text that `edits` gives for it.
pub open spec fn after_edits(b: Buffer, edits: Seq<Seq<char>>) -> Buffer
    decreases edits.len(),
{
    if edits.len() == 0 {
        b
    } else {
        after_edits(b, edits.drop_last()).snapshot().edit(edits.last())
    }
}

/// Undo and redo move along the timeline and leave it as it is: `n` times
/// undo, where that many earlier texts exist, goes `n` texts back.
pub proof fn lemma_undo_times(b: Buffer, n: nat)
    requires
        n <= b.undo.len(),
    ensures
        timeline(undo_times(b, n)) == timeline(b),
        undo_times(b, n).undo.len() == b.undo.len() - n,
        undo_times(b, n).redo.len() == b.redo.len() + n,
        undo_times(b, n).text == timeline(b)[b.undo.len() - n],
        undo_times(b, n).filename == b.filename,
        undo_times(b, n).dirty == (b.dirty || n > 0),
    decreases n,
{
    if n > 0 {
        lemma_undo_times(b, (n - 1) as nat);
    }
}

/// `n` times redo, where that many texts were undone, goes `n` texts
/// forward along the timeline.
pub proof fn lemma_redo_times(b: Buffer, n: nat)
    requires
        n <= b.redo.len(),
    ensures
        timeline(redo_times(b, n)) == timeline(b),
        redo_times(b, n).undo.len() == b.undo.len() + n,
        redo_times(b, n).redo.len() == b.redo.len() - n,
        redo_times(b, n).text == timeline(b)[(b.undo.len() + n) as int],
        redo_times(b, n).filename == b.filename,
        redo_times(b, n).dirty == (b.dirty || n > 0),
    decreases n,
{
    if n > 0 {
        lemma_redo_times(b, (n - 1) as nat);
    }
}

/// A run of edits, each behind a snapshot, adds one earlier text for each
/// edit and keeps those that were there.
pub proof fn lemma_after_edits(b: Buffer, edits: Seq<Seq<char>>)
    ensures
        after_edits(b, edits).undo.len() == b.undo.len() + edits.len(),
        after_edits(b, edits).undo.take(b.undo.len() as int) == b.undo,
        edits.len() > 0 ==> after_edits(b, edits).undo[b.undo.len() as int] == b.text,
        edits.len() > 0 ==> after_edits(b, edits).text == edits.last(),
        edits.len() > 0 ==> after_edits(b, edits).redo.len() == 0,
        edits.len() > 0 ==> after_edits(b, edits).dirty,
        after_edits(b, edits).filename == b.filename,
    decreases edits.len(),
{
    if edits.len() > 0 {
        lemma_after_edits(b, edits.drop_last());
    }
}

/// After a run of edits, each behind a snapshot, as many times undo as
/// there were edits bring back the text from before the first edit, with the
/// earlier texts of that time; as many times redo then bring back the buffer
/// that the last edit left, whole.
pub proof fn lemma_undo_redo(b: Buffer, edits: Seq<Seq<char>>)
    ensures
        undo_times(after_edits(b, edits), edits.len()).text == b.text,
        undo_times(after_edits(b, edits), edits.len()).undo == b.undo,
        redo_times(undo_times(after_edits(b, edits), edits.len()), edits.len()) == after_edits(
            b,
            edits,
        ),
{
    let n = edits.len();
    let done = after_edits(b, edits);
    lemma_after_edits(b, edits);
    lemma_undo_times(done, n);
    let back = undo_times(done, n);
    lemma_redo_times(back, n);
    let again = redo_times(back, n);
    let line = timeline(done);
    assert(back.undo =~= line.take(back.undo.len() as int));
    assert(again.undo =~= line.take(again.undo.len() as int));
    assert(done.undo =~= line.take(done.undo.len() as int));
    assert(again.redo.reverse() =~= line.skip((again.undo.len() + 1) as int));
    assert(done.redo.reverse() =~= line.skip((done.undo.len() + 1) as int));
    assert(again.redo =~= again.redo.reverse().reverse());
    assert(done.redo =~= done.redo.reverse().reverse());
}

/// An edit behind a snapshot leaves nothing to redo, whatever was undone
/// before: a redo then changes nothing.
pub proof fn lemma_edit_clears_redo(b: Buffer, text: Seq<char>)
    ensures
        b.undo().snapshot().edit(text).redo.len() == 0,
        b.undo().snapshot().edit(text).redo() == b.undo().snapshot().edit(text),
{
}

/// What was saved can be read again, and reads as it was: a file that
/// holds the bytes of a buffer is read without failure, and the document that
/// is made of it has the text of that buffer.
pub proof fn lemma_save_open_round_trip(b: Buffer, filename: Seq<char>)
    ensures
        opened_from(filename, Ok(b.file_bytes())) == Ok::<Buffer, IoFailure>(
            opened(filename, b.text),
        ),
        opened_from(filename, Ok(b.file_bytes()))->Ok_0.text == b.text,
{
    encode_utf8_valid_utf8(b.text);
    encode_utf8_decode_utf8(b.text);
}

/// The texts of a stack of ropes.
pub open spec fn texts(ropes: Seq<Rope>) -> Seq<Seq<char>> {
    ropes.map_values(|r: Rope| rope_text(r))
}

/// A document: its text, the name of its file, whether it has changes
/// that are not saved, and the texts that undo and redo bring back.
pub struct Document {
    rope: Rope,
    filename: Option<String>,
    dirty: bool,
    undo_stack: Vec<Rope>,
    redo_stack: Vec<Rope>,
}

impl View for Document {
    type V = Buffer;

    closed spec fn view(&self) -> Buffer {
        Buffer {
            text: rope_text(self.rope),
            filename: match self.filename {
                Some(name) => Some(name@),
                None => None,
            },
            dirty: self.dirty,
            undo: texts(self.undo_stack@),
            redo: texts(self.redo_stack@),
        }
    }
}

impl Default for Document {
    /// An empty document without a file name.
    fn default() -> (doc: Document)
        ensures
            doc@ == empty_buffer(),
    {
        let doc = Document {
            rope: rope_new(),
            filename: None,
            dirty: false,
            undo_stack: Vec::new(),
            redo_stack: Vec::new(),
        };
        assert(doc@.undo =~= Seq::empty());
        doc
    }
}

impl Document {
    /// Whether the document was changed since it was opened or saved.
    pub fn is_dirty(&self) -> (dirty: bool)
        ensures
            dirty == self@.dirty,
    {
        self.dirty
    }

    /// Whether the document holds no character.
    pub fn is_empty(&self) -> (empty: bool)
        ensures
            empty == (self@.text.len() == 0),
    {
        rope_len_chars(&self.rope) == 0
    }

    /// The number of rows.
    pub fn len(&self) -> (rows: usize)
        ensures
            rows == line_count(self@.text),
    {
        rope_len_lines(&self.rope)
    }

    /// The number of characters.
    pub fn len_chars(&self) -> (n: usize)
        ensures
            n == self@.text.len(),
    {
        rope_len_chars(&self.rope)
    }

    /// Where row `row` starts, where its content ends, and where the next row
    /// starts.
    fn line_span(&self, row: usize) -> (span: (usize, usize, usize))
        requires
            row < line_count(self@.text),
        ensures
            span.0 == line_start(self@.text, row as nat),
            span.1 == content_end(self@.text, row as nat),
            span.2 == line_start(self@.text, (row + 1) as nat),
            span.0 <= span.1 <= span.2 <= self@.text.len(),
    {
        let ghost s = self@.text;
        // The number of rows is one that the machine holds, so `row + 1` is.
        let rows = rope_len_lines(&self.rope);
        assert(row + 1 <= rows);
        let start = rope_line_to_char(&self.rope, row);
        let next = rope_line_to_char(&self.rope, row + 1);
        proof {
            lemma_next_feed(s, start as int);
        }
        let end = if next > start && rope_char(&self.rope, next - 1) == '\n' {
            if next - 1 > start && rope_char(&self.rope, next - 2) == '\r' {
                next - 2
            } else {
                next - 1
            }
        } else {
            next
        };
        (start, end, next)
    }

    /// The number of characters of row `row`, without its terminator; 0 for
    /// a row that the document does not have.
    pub fn line_length(&self, row: usize) -> (n: usize)
        ensures
            n == line_length(self@.text, row as nat),
    {
        if row >= rope_len_lines(&self.rope) {
            proof {
                lemma_line_start_past_end(self@.text, row as nat);
            }
            0
        } else {
            let (start, end, _) = self.line_span(row);
            end - start
        }
    }

    /// The position nearest to `(row, col)` that is valid: the row is bounded
    /// by the number of rows, then the column by the length of that row.
    pub fn clamp_to_line(&self, row: usize, col: usize) -> (p: Position)
        ensures
            p == clamped(self@.text, row as nat, col as nat),
            valid_position(self@.text, p),
            p.y == clamp_row(self@.text, row as nat),
            p.x == clamp_col(self@.text, p.y as nat, col as nat),
            line_count(self@.text) <= usize::MAX,
            line_length(self@.text, p.y as nat) <= usize::MAX,
    {
        let rows = rope_len_lines(&self.rope);
        let y = if row <= rows { row } else { rows };
        let length = self.line_length(y);
        let x = if col <= length { col } else { length };
        Position { x, y }
    }

    /// The number of characters before `pos`, once `pos` is clamped. For the
    /// row behind the last one this is the number of characters of the
    /// document.
    pub fn to_linear_offset(&self, pos: &Position) -> (offset: usize)
        ensures
            offset == linear_offset(self@.text, *pos),
            offset <= self@.text.len(),
            pos.y >= line_count(self@.text) ==> offset == self@.text.len(),
    {
        let rows = rope_len_lines(&self.rope);
        if pos.y >= rows {
            proof {
                lemma_line_start_past_end(self@.text, rows as nat);
            }
            rope_line_to_char(&self.rope, rows)
        } else {
            let (start, end, _) = self.line_span(pos.y);
            if pos.x <= end - start {
                start + pos.x
            } else {
                end
            }
        }
    }

    /// The row and column of the character at `offset`; an offset past the
    /// end is taken as the end.
    pub fn position_at(&self, offset: usize) -> (p: Position)
        ensures
            offset <= self@.text.len() ==> p.y == row_at(self@.text, offset as int) && p.x
                == col_at(self@.text, offset as int),
            offset > self@.text.len() ==> p.y == row_at(self@.text, self@.text.len() as int)
                && p.x == col_at(self@.text, self@.text.len() as int),
    {
        let chars = rope_len_chars(&self.rope);
        let at = if offset <= chars { offset } else { chars };
        proof {
            lemma_row_at_bounds(self@.text, at as int);
        }
        let row = rope_char_to_line(&self.rope, at);
        let start = rope_line_to_char(&self.rope, row);
        Position { x: at - start, y: row }
    }

    /// Makes the document of a file that was read. `read` is what reading
    /// the file `filename` gave: its bytes, or why it failed. Where reading
    /// failed, or the bytes are no text in UTF-8, no document is made.
    pub fn open(filename: &str, read: Result<Vec<u8>, IoFailure>) -> (res: Result<
        Document,
        IoFailure,
    >)
        ensures
            match opened_from(
                filename@,
                match read {
                    Ok(bytes) => Ok(bytes@),
                    Err(failure) => Err(failure),
                },
            ) {
                Ok(buffer) => res is Ok && res->Ok_0@ == buffer,
                Err(failure) => res == Err::<Document, IoFailure>(failure),
            },
    {
        match read {
            Ok(bytes) => {
                match string_from_utf8(bytes) {
                    Some(contents) => {
                        let doc = Document {
                            rope: rope_from_str(contents.as_str()),
                            filename: Some(filename.to_owned()),
                            dirty: false,
                            undo_stack: Vec::new(),
                            redo_stack: Vec::new(),
                        };
                        assert(doc@.undo =~= Seq::empty());
                        Ok(doc)
                    },
                    None => Err(IoFailure::InvalidData),
                }
            },
            Err(failure) => Err(failure),
        }
    }

    /// The text of the document.
    pub fn contents(&self) -> (s: String)
        ensures
            s@ == self@.text,
    {
        rope_to_string(&self.rope)
    }

    /// The bytes to write to the document's file.
    pub fn to_bytes(&self) -> (bytes: Vec<u8>)
        ensures
            bytes@ == self@.file_bytes(),
    {
        let text = rope_to_string(&self.rope);
        text.as_str().as_bytes_vec()
    }

    /// The name of the document's file, if it has one.
    pub fn filename(&self) -> (name: Option<String>)
        ensures
            match name {
                Some(n) => self@.filename == Some(n@),
                None => self@.filename is None,
            },
    {
        match &self.filename {
            Some(n) => Some(n.clone()),
            None => None,
        }
    }

    /// Gives the document the file name `name`.
    pub fn set_filename(&mut self, name: &str)
        ensures
            final(self)@ == (Buffer { filename: Some(name@), ..old(self)@ }),
    {
        self.filename = Some(name.to_owned());
    }

    /// Takes note of how writing the document's contents to its file ended.
    /// After a write that succeeded the document counts as unchanged. After
    /// one that failed nothing changes, and the failure is handed on. A
    /// document without a file name is never written: nothing changes, and
    /// that is no failure.
    pub fn save(&mut self, written: Result<(), IoFailure>) -> (res: Result<(), IoFailure>)
        ensures
            final(self)@ == old(self)@.saved(written),
            old(self)@.filename is None ==> res is Ok,
            old(self)@.filename is Some ==> res == written,
    {
        if self.filename.is_none() {
            return Ok(());
        }
        if written.is_ok() {
            self.dirty = false;
        }
        written
    }

    /// Keeps the present text as the newest earlier text, and forgets what
    /// was undone.
    pub fn snapshot(&mut self)
        ensures
            final(self)@ == old(self)@.snapshot(),
    {
        self.undo_stack.push(rope_clone(&self.rope));
        self.redo_stack.clear();
        assert(final(self)@.undo =~= old(self)@.undo.push(old(self)@.text));
        assert(final(self)@.redo =~= Seq::empty());
    }

    /// Goes back to the newest earlier text, if there is one, and tells
    /// whether there was. The text left behind can be redone.
    pub fn undo(&mut self) -> (done: bool)
        ensures
            done == (old(self)@.undo.len() > 0),
            final(self)@ == old(self)@.undo(),
    {
        match self.undo_stack.pop() {
            Some(prev) => {
                self.redo_stack.push(rope_clone(&self.rope));
                self.rope = prev;
                self.dirty = true;
                assert(final(self)@.undo =~= old(self)@.undo.drop_last());
                assert(final(self)@.redo =~= old(self)@.redo.push(old(self)@.text));
                true
            },
            None => false,
        }
    }

    /// Goes forward again to the text undone last, if there is one, and
    /// tells whether there was.
    pub fn redo(&mut self) -> (done: bool)
        ensures
            done == (old(self)@.redo.len() > 0),
            final(self)@ == old(self)@.redo(),
    {
        match self.redo_stack.pop() {
            Some(next) => {
                self.undo_stack.push(rope_clone(&self.rope));
                self.rope = next;
                self.dirty = true;
                assert(final(self)@.redo =~= old(self)@.redo.drop_last());
                assert(final(self)@.undo =~= old(self)@.undo.push(old(self)@.text));
                true
            },
            None => false,
        }
    }

    /// Puts `c` at `at`, with the column clamped to the row. A line feed put
    /// there ends the row at that place. A row greater than the number of
    /// rows changes nothing.
    pub fn insert(&mut self, at: &Position, c: char)
        ensures
            final(self)@ == old(self)@.inserted(*at, c),
    {
        if at.y > rope_len_lines(&self.rope) {
            return ;
        }
        let offset = self.to_linear_offset(at);
        rope_insert_char(&mut self.rope, offset, c);
        self.dirty = true;
    }

    /// Puts the characters of `text` at `at`, with the column clamped to the
    /// row. A row that the document does not have changes nothing.
    pub fn insert_str(&mut self, at: &Position, text: &str)
        ensures
            final(self)@ == old(self)@.inserted_str(*at, text@),
    {
        if at.y >= rope_len_lines(&self.rope) {
            return ;
        }
        let offset = self.to_linear_offset(at);
        rope_insert(&mut self.rope, offset, text);
        self.dirty = true;
    }

    /// Takes out the character at `at`, with the position clamped. At the end
    /// of a row that another row follows, the row's terminator goes and the
    /// two rows become one. At the end of the text nothing changes.
    pub fn delete(&mut self, at: &Position)
        ensures
            final(self)@ == old(self)@.deleted(*at),
    {
        let rows = rope_len_lines(&self.rope);
        if at.y >= rows {
            proof {
                lemma_line_start_past_end(self@.text, rows as nat);
            }
            return ;
        }
        let (start, end, next) = self.line_span(at.y);
        let length = end - start;
        let (offset, stop) = if at.x < length {
            (start + at.x, start + at.x + 1)
        } else {
            (end, next)
        };
        if offset < stop {
            rope_remove(&mut self.rope, offset, stop);
            self.dirty = true;
        }
    }

    /// The characters of row `row`, without its terminator; none for a row
    /// that the document does not have.
    pub fn line_chars(&self, row: usize) -> (content: Vec<char>)
        ensures
            content@ == line_content(self@.text, row as nat),
    {
        let ghost s = self@.text;
        if row >= rope_len_lines(&self.rope) {
            proof {
                lemma_line_start_past_end(s, row as nat);
            }
            return Vec::new();
        }
        let line = rope_line(&self.rope, row);
        let mut content = to_chars(line.as_str());
        proof {
            lemma_line_start_bounds(s, row as nat);
            lemma_next_feed(s, line_start(s, row as nat));
        }
        let n = content.len();
        if n > 0 && content[n - 1] == '\n' {
            content.pop();
            if n > 1 && content[n - 2] == '\r' {
                content.pop();
            }
        }
        content
    }

    /// Row `y` of the document, highlighted, if the document has such a row.
    pub fn row(&self, y: usize) -> (row: Option<Row>)
        ensures
            y >= line_count(self@.text) ==> row is None,
            y < line_count(self@.text) ==> row is Some && row->Some_0@ == line_content(
                self@.text,
                y as nat,
            ) && row->Some_0.is_highlighted(),
    {
        if y >= rope_len_lines(&self.rope) {
            None
        } else {
            Some(Row::from_chars(self.line_chars(y)))
        }
    }

    /// The characters of row `row` as a string, without the row's
    /// terminator.
    pub fn line_content(&self, row: usize) -> (content: String)
        ensures
            content@ == line_content(self@.text, row as nat),
    {
        let chars = self.line_chars(row);
        from_chars(&chars)
    }

    /// Replaces every occurrence of `target` in the document by
    /// `replacement` and tells how many there were. Occurrences are found
    /// from the left and do not overlap; rows play no part. Without an
    /// occurrence the document is left as it is.
    pub fn replace(&mut self, target: &str, replacement: &str) -> (count: usize)
        requires
            target@.len() > 0 || old(self)@.text.len() < usize::MAX,
        ensures
            count == count_matches(old(self)@.text, target@),
            final(self)@ == old(self)@.replaced(target@, replacement@),
    {
        let whole = rope_to_string(&self.rope);
        let text = to_chars(whole.as_str());
        let from = to_chars(target);
        let to = to_chars(replacement);
        let (replaced, count) = replace_chars(&text, &from, &to);
        if count > 0 {
            let new_text = from_chars(&replaced);
            self.rope = rope_from_str(new_text.as_str());
            self.dirty = true;
        }
        count
    }

    /// Replaces as `replace` does, where the number of occurrences is one
    /// that the machine can hold; where it is not, nothing changes and no
    /// number comes back. That is so only for an empty target in a document
    /// of as many characters as the machine counts.
    pub fn try_replace(&mut self, target: &str, replacement: &str) -> (count: Option<usize>)
        ensures
            match count {
                Some(n) => {
                    &&& target@.len() > 0 || old(self)@.text.len() < usize::MAX
                    &&& n == count_matches(old(self)@.text, target@)
                    &&& final(self)@ == old(self)@.replaced(target@, replacement@)
                },
                None => {
                    &&& target@.len() == 0
                    &&& old(self)@.text.len() >= usize::MAX
                    &&& final(self)@ == old(self)@
                },
            },
    {
        let empty = to_chars(target).len() == 0;
        if empty && rope_len_chars(&self.rope) == usize::MAX {
            None
        } else {
            Some(self.replace(target, replacement))
        }
    }

    /// Makes row `y` a header of level `level`: the header markers that the
    /// row starts with and the white space behind them give way to `level`
    /// markers and one space. The row's terminator stays. A row that the
    /// document does not have changes nothing.
    pub fn set_header(&mut self, y: usize, level: usize)
        ensures
            final(self)@ == old(self)@.with_header(y as nat, level as nat),
    {
        if y >= rope_len_lines(&self.rope) {
            return ;
        }
        let ghost s = self@.text;
        let content = self.line_chars(y);
        let n = content.len();
        let mut i: usize = 0;
        assert(content@.skip(0) =~= content@);
        while i < n && content[i] == '#'
            invariant
                i <= n,
                n == content@.len(),
                leading_hashes(content@) == i + leading_hashes(content@.skip(i as int)),
            decreases n - i,
        {
            assert(content@.skip(i as int).drop_first() =~= content@.skip(i + 1));
            i += 1;
        }
        let marks = i;
        let ghost rest = content@.skip(marks as int);
        while i < n && is_whitespace(content[i])
            invariant
                marks <= i <= n,
                n == content@.len(),
                rest == content@.skip(marks as int),
                leading_spaces(rest) == (i - marks) + leading_spaces(content@.skip(i as int)),
            decreases n - i,
        {
            assert(content@.skip(i as int).drop_first() =~= content@.skip(i + 1));
            i += 1;
        }
        let mut line: Vec<char> = Vec::new();
        let mut k: usize = 0;
        while k < level
            invariant
                k <= level,
                line@ == Seq::new(k as nat, |j: int| '#'),
            decreases level - k,
        {
            line.push('#');
            k += 1;
        }
        line.push(' ');
        while i < n
            invariant
                i <= n,
                n == content@.len(),
                line@ + content@.skip(i as int) == header_line(content@, level as nat),
            decreases n - i,
        {
            line.push(content[i]);
            i += 1;
        }
        let (start, end, _) = self.line_span(y);
        let new_line = from_chars(&line);
        rope_remove(&mut self.rope, start, end);
        rope_insert(&mut self.rope, start, new_line.as_str());
        self.dirty = true;
        assert(rope_text(self.rope) =~= splice(s, start as int, end as int, line@));
    }

    /// Indents row `y` by `count` units of four columns: that many spaces
    /// are put at the start of the row, or at the end of the text for the row
    /// behind the last one. A greater row changes nothing.
    pub fn indent(&mut self, y: usize, count: usize)
        ensures
            final(self)@ == old(self)@.indented(y as nat, count as nat),
    {
        if y > rope_len_lines(&self.rope) {
            return ;
        }
        let mut spaces: Vec<char> = Vec::new();
        let mut k: usize = 0;
        while k < count
            invariant
                k <= count,
                spaces@ == indentation(k as nat),
            decreases count - k,
        {
            spaces.push(' ');
            spaces.push(' ');
            spaces.push(' ');
            spaces.push(' ');
            k += 1;
        }
        let start = rope_line_to_char(&self.rope, y);
        let text = from_chars(&spaces);
        rope_insert(&mut self.rope, start, text.as_str());
        self.dirty = true;
    }

    /// Puts `marker` before and behind the word around `pos`, and gives the
    /// position behind the second marker. The word lies in the row of `pos`
    /// alone: it starts behind the nearest space before the column, or at
    /// the start of the row, and ends before the nearest space at or behind
    /// the column, or at the end of the row. The column is clamped to the
    /// row. A row that the document does not have changes nothing, and `pos`
    /// comes back as it is.
    pub fn wrap_selection(&mut self, pos: &Position, marker: &str) -> (cursor: Position)
        ensures
            final(self)@ == old(self)@.word_wrapped(*pos, marker@),
            cursor.y == pos.y,
            cursor.x == old(self)@.wrapped_column(*pos, marker@),
    {
        if pos.y >= rope_len_lines(&self.rope) {
            return *pos;
        }
        let line = self.line_chars(pos.y);
        let (first, _, _) = self.line_span(pos.y);
        let n = line.len();
        let col = if pos.x <= n { pos.x } else { n };
        let mut start = col;
        while start > 0 && line[start - 1] != ' '
            invariant
                start <= col <= n,
                n == line@.len(),
                word_start(line@, col as int) == word_start(line@, start as int),
            decreases start,
        {
            start -= 1;
        }
        let mut end = col;
        while end < n && line[end] != ' '
            invariant
                col <= end <= n,
                n == line@.len(),
                word_end(line@, col as int) == word_end(line@, end as int),
            decreases n - end,
        {
            end += 1;
        }
        rope_insert(&mut self.rope, first + end, marker);
        rope_insert(&mut self.rope, first + start, marker);
        self.dirty = true;
        // The text now holds the marker twice more, and its length is one
        // that the machine holds: so is the column behind the second marker.
        let total = rope_len_chars(&self.rope);
        assert(end + 2 * marker@.len() <= total);
        let width = to_chars(marker).len();
        Position { x: end + width + width, y: pos.y }
    }
}

} // verus!
