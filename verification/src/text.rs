//! The line structure of a text, stated over its sequence of characters.
//!
//! A text is cut into rows by line feeds. A row ends with its line feed, or
//! with the end of the text; a text that ends with a line feed therefore has
//! an empty last row. A carriage return directly before the line feed that
//! ends a row belongs to the row's terminator, not to its content.

use vstd::prelude::*;
use crate::chars::is_space;
use crate::position::Position;

verus! {

/// The number of line feeds in `s`.
pub open spec fn line_feeds(s: Seq<char>) -> nat
    decreases s.len(),
{
    if s.len() == 0 {
        0
    } else {
        line_feeds(s.drop_last()) + if s.last() == '\n' { 1nat } else { 0nat }
    }
}

/// The number of rows of `s`: one more than its line feeds.
pub open spec fn line_count(s: Seq<char>) -> nat {
    line_feeds(s) + 1
}

/// The index of the first line feed at or after `from`, or the length of `s`
/// where there is none.
pub open spec fn next_feed(s: Seq<char>, from: int) -> int
    decreases s.len() - from,
{
    if from < 0 || from >= s.len() {
        s.len() as int
    } else if s[from] == '\n' {
        from
    } else {
        next_feed(s, from + 1)
    }
}

/// The index at which row `row` starts: 0 for the first row, else the index
/// behind the line feed that ends the row before. Past the last row it is the
/// length of `s`.
pub open spec fn line_start(s: Seq<char>, row: nat) -> int
    decreases row,
{
    if row == 0 {
        0
    } else {
        let e = next_feed(s, line_start(s, (row - 1) as nat));
        if e < s.len() {
            e + 1
        } else {
            s.len() as int
        }
    }
}

/// The index of the line feed that ends row `row`, or the length of `s`
/// where the row runs to the end of the text.
pub open spec fn line_end(s: Seq<char>, row: nat) -> int {
    next_feed(s, line_start(s, row))
}

/// The index behind the last character of the content of row `row`: the
/// terminator (a line feed, with a carriage return directly before it) is
/// left out.
pub open spec fn content_end(s: Seq<char>, row: nat) -> int {
    let e = line_end(s, row);
    if e < s.len() && line_start(s, row) < e && s[e - 1] == '\r' {
        e - 1
    } else {
        e
    }
}

/// The number of characters of row `row`, without its terminator.
pub open spec fn line_length(s: Seq<char>, row: nat) -> nat {
    (content_end(s, row) - line_start(s, row)) as nat
}

/// The characters of row `row`, without its terminator.
pub open spec fn line_content(s: Seq<char>, row: nat) -> Seq<char> {
    s.subrange(line_start(s, row), content_end(s, row))
}

/// A position is valid in `s` when its row is at most the number of rows
/// (the row behind the last one stands for the end of the text) and its
/// column is at most the length of its row.
pub open spec fn valid_position(s: Seq<char>, p: Position) -> bool {
    &&& p.y <= line_count(s)
    &&& p.x <= line_length(s, p.y as nat)
}

/// The row nearest to `row` that a position may have.
pub open spec fn clamp_row(s: Seq<char>, row: nat) -> nat {
    if row <= line_count(s) {
        row
    } else {
        line_count(s)
    }
}

/// The column nearest to `col` that a position in row `row` may have.
pub open spec fn clamp_col(s: Seq<char>, row: nat, col: nat) -> nat {
    if col <= line_length(s, row) {
        col
    } else {
        line_length(s, row)
    }
}

/// The valid position nearest to `(row, col)`: the row is bounded by the
/// number of rows, then the column by the length of that row.
pub open spec fn clamped(s: Seq<char>, row: nat, col: nat) -> Position {
    Position {
        x: clamp_col(s, clamp_row(s, row), col) as usize,
        y: clamp_row(s, row) as usize,
    }
}

/// The number of characters before the place `(row, col)`, for a row of the
/// text (or the one behind the last) and a column within it.
pub open spec fn offset_at(s: Seq<char>, row: nat, col: nat) -> int {
    line_start(s, row) + col
}

/// The number of characters before position `p`, once `p` is clamped.
pub open spec fn linear_offset(s: Seq<char>, p: Position) -> int {
    let row = clamp_row(s, p.y as nat);
    offset_at(s, row, clamp_col(s, row, p.x as nat))
}

/// The text `s` with `with` in place of its characters from index `from` up
/// to, not including, `to`.
pub open spec fn splice(s: Seq<char>, from: int, to: int, with: Seq<char>) -> Seq<char> {
    s.subrange(0, from) + with + s.subrange(to, s.len() as int)
}

/// The index behind what a deletion at `p` takes out. Within a row that is
/// the next character; at the end of a row it is the start of the next row,
/// so that the whole terminator goes; at the end of the text it is the offset
/// of `p` itself, and nothing goes.
pub open spec fn delete_end(s: Seq<char>, p: Position) -> int {
    let row = clamp_row(s, p.y as nat);
    if clamp_col(s, row, p.x as nat) < line_length(s, row) {
        linear_offset(s, p) + 1
    } else {
        line_start(s, row + 1)
    }
}

/// The number of header markers that `s` starts with.
pub open spec fn leading_hashes(s: Seq<char>) -> nat
    decreases s.len(),
{
    if s.len() > 0 && s[0] == '#' {
        1 + leading_hashes(s.drop_first())
    } else {
        0
    }
}

/// The number of white-space characters that `s` starts with.
pub open spec fn leading_spaces(s: Seq<char>) -> nat
    decreases s.len(),
{
    if s.len() > 0 && is_space(s[0]) {
        1 + leading_spaces(s.drop_first())
    } else {
        0
    }
}

/// What is left of a row's content without the header markers that it
/// starts with and the white space that follows them.
pub open spec fn header_text(content: Seq<char>) -> Seq<char> {
    let rest = content.skip(leading_hashes(content) as int);
    rest.skip(leading_spaces(rest) as int)
}

/// A row's content as a header of the given level: `level` markers, one
/// space, and the text of the row.
pub open spec fn header_line(content: Seq<char>, level: nat) -> Seq<char> {
    Seq::new(level, |i: int| '#') + seq![' '] + header_text(content)
}

/// The white space that indents a row by `count` units of four columns.
pub open spec fn indentation(count: nat) -> Seq<char> {
    Seq::new(4 * count, |i: int| ' ')
}

/// The column at which the word around column `col` of `line` starts: the
/// one behind the nearest space before `col`, or the start of the line.
pub open spec fn word_start(line: Seq<char>, col: int) -> int
    decreases col,
{
    if col <= 0 {
        0
    } else if line[col - 1] == ' ' {
        col
    } else {
        word_start(line, col - 1)
    }
}

/// The column before which the word around column `col` of `line` ends:
/// that of the nearest space at or behind `col`, or the end of the line.
pub open spec fn word_end(line: Seq<char>, col: int) -> int
    decreases line.len() - col,
{
    if col < 0 || col >= line.len() {
        line.len() as int
    } else if line[col] == ' ' {
        col
    } else {
        word_end(line, col + 1)
    }
}

/// The text `s` with `marker` put before and behind the word around the
/// position `p` of a row of the text.
pub open spec fn wrapped(s: Seq<char>, p: Position, marker: Seq<char>) -> Seq<char> {
    let row = p.y as nat;
    let line = line_content(s, row);
    let col = clamp_col(s, row, p.x as nat) as int;
    let start = line_start(s, row) + word_start(line, col);
    let end = line_start(s, row) + word_end(line, col);
    splice(splice(s, end, end, marker), start, start, marker)
}

/// The row that holds the character at `offset`: the number of line feeds
/// before it.
pub open spec fn row_at(s: Seq<char>, offset: int) -> nat {
    line_feeds(s.take(offset))
}

/// The column of the character at `offset` within its row.
pub open spec fn col_at(s: Seq<char>, offset: int) -> int {
    offset - line_start(s, row_at(s, offset))
}

/// What `next_feed` finds: it lies between `from` and the end, no line feed
/// stands before it, and one stands at it unless it is the end.
pub proof fn lemma_next_feed(s: Seq<char>, from: int)
    requires
        0 <= from <= s.len(),
    ensures
        from <= next_feed(s, from) <= s.len(),
        forall|k: int| from <= k < next_feed(s, from) ==> s[k] != '\n',
        next_feed(s, from) < s.len() ==> s[next_feed(s, from)] == '\n',
    decreases s.len() - from,
{
    if from < s.len() && s[from] != '\n' {
        lemma_next_feed(s, from + 1);
    }
}

/// Taking one more character adds one line feed exactly when that character
/// is one.
pub proof fn lemma_feeds_step(s: Seq<char>, i: int)
    requires
        0 <= i < s.len(),
    ensures
        line_feeds(s.take(i + 1)) == line_feeds(s.take(i)) + if s[i] == '\n' { 1nat } else { 0nat },
{
    assert(s.take(i + 1).drop_last() =~= s.take(i));
}

/// A longer prefix holds at least as many line feeds, and exactly as many
/// where no line feed stands in between.
pub proof fn lemma_feeds_prefix(s: Seq<char>, i: int, j: int)
    requires
        0 <= i <= j <= s.len(),
    ensures
        line_feeds(s.take(i)) <= line_feeds(s.take(j)),
        (forall|k: int| i <= k < j ==> s[k] != '\n') ==> line_feeds(s.take(i)) == line_feeds(
            s.take(j),
        ),
        line_feeds(s.take(s.len() as int)) == line_feeds(s),
    decreases j - i,
{
    assert(s.take(s.len() as int) =~= s);
    if i < j {
        lemma_feeds_prefix(s, i, j - 1);
        lemma_feeds_step(s, j - 1);
    }
}

/// Every row starts within the text, and no row starts before an earlier one.
pub proof fn lemma_line_start_bounds(s: Seq<char>, row: nat)
    ensures
        0 <= line_start(s, row) <= line_end(s, row) <= s.len(),
        line_start(s, row) <= content_end(s, row) <= line_end(s, row),
        line_end(s, row) <= line_start(s, row + 1) <= s.len(),
    decreases row,
{
    if row > 0 {
        lemma_line_start_bounds(s, (row - 1) as nat);
    }
    lemma_next_feed(s, line_start(s, row));
}

/// A row of the text starts behind exactly `row` line feeds, and directly
/// behind one unless it is the first.
pub proof fn lemma_line_start_feeds(s: Seq<char>, row: nat)
    requires
        row <= line_feeds(s),
    ensures
        0 <= line_start(s, row) <= s.len(),
        line_feeds(s.take(line_start(s, row))) == row,
        row > 0 ==> line_start(s, row) > 0 && s[line_start(s, row) - 1] == '\n',
        row < line_feeds(s) ==> line_end(s, row) < s.len(),
        row == line_feeds(s) ==> line_end(s, row) == s.len(),
    decreases row,
{
    if row > 0 {
        let prev = (row - 1) as nat;
        lemma_line_start_feeds(s, prev);
        let before = line_start(s, prev);
        let feed = line_end(s, prev);
        lemma_next_feed(s, before);
        lemma_feeds_prefix(s, before, feed);
        lemma_feeds_step(s, feed);
    }
    let start = line_start(s, row);
    let e = line_end(s, row);
    lemma_next_feed(s, start);
    lemma_feeds_prefix(s, start, e);
    if e < s.len() {
        lemma_feeds_step(s, e);
        lemma_feeds_prefix(s, e + 1, s.len() as int);
    }
}

/// Behind the last row every row starts at the end of the text and is empty.
pub proof fn lemma_line_start_past_end(s: Seq<char>, row: nat)
    requires
        row >= line_count(s),
    ensures
        line_start(s, row) == s.len(),
        line_end(s, row) == s.len(),
        content_end(s, row) == s.len(),
        line_length(s, row) == 0,
    decreases row,
{
    let prev = (row - 1) as nat;
    if prev == line_feeds(s) {
        lemma_line_start_feeds(s, prev);
    } else {
        lemma_line_start_past_end(s, prev);
    }
}

/// Every place within a row of the text, its end included, lies behind
/// exactly `row` line feeds.
pub proof fn lemma_row_at_offset(s: Seq<char>, row: nat, col: nat)
    requires
        row <= line_feeds(s),
        line_start(s, row) + col <= line_end(s, row),
    ensures
        0 <= offset_at(s, row, col) <= s.len(),
        row_at(s, offset_at(s, row, col)) == row,
        col_at(s, offset_at(s, row, col)) == col,
{
    lemma_line_start_feeds(s, row);
    lemma_next_feed(s, line_start(s, row));
    lemma_feeds_prefix(s, line_start(s, row), line_start(s, row) + col);
}

/// The row that holds an offset starts at or before it.
pub proof fn lemma_row_at_bounds(s: Seq<char>, offset: int)
    requires
        0 <= offset <= s.len(),
    ensures
        row_at(s, offset) <= line_feeds(s),
        0 <= line_start(s, row_at(s, offset)) <= offset,
        offset <= line_end(s, row_at(s, offset)),
{
    let row = row_at(s, offset);
    lemma_feeds_prefix(s, offset, s.len() as int);
    lemma_line_start_feeds(s, row);
    let start = line_start(s, row);
    if start > offset {
        lemma_feeds_prefix(s, offset, start - 1);
        lemma_feeds_step(s, start - 1);
    }
    let e = line_end(s, row);
    lemma_next_feed(s, start);
    if e < offset {
        lemma_feeds_prefix(s, start, e);
        lemma_feeds_step(s, e);
        lemma_feeds_prefix(s, e + 1, offset);
    }
}

/// A clamped position is valid.
pub proof fn lemma_clamped_valid(s: Seq<char>, row: nat, col: nat)
    requires
        line_count(s) <= usize::MAX,
        line_length(s, clamp_row(s, row)) <= usize::MAX,
    ensures
        valid_position(s, clamped(s, row, col)),
        valid_position(s, Position { x: col as usize, y: row as usize }) && row <= usize::MAX
            && col <= usize::MAX ==> clamped(s, row, col) == (Position {
            x: col as usize,
            y: row as usize,
        }),
{
}

/// A row that a line feed ends, with no carriage return before it, takes
/// one character more than it is long: the next row starts that far behind
/// it. So the offset of a position in a text without carriage returns is the
/// sum of the lengths of the rows before it, one more for each, and its
/// column.
pub proof fn lemma_rows_add_up(s: Seq<char>, row: nat)
    requires
        row < line_feeds(s),
    ensures
        line_end(s, row) < s.len(),
        s[line_end(s, row)] == '\n',
        line_start(s, row + 1) == line_end(s, row) + 1,
        content_end(s, row) == line_end(s, row) ==> line_start(s, row + 1) == line_start(s, row)
            + line_length(s, row) + 1,
        content_end(s, row) != line_end(s, row) ==> line_start(s, row + 1) == line_start(s, row)
            + line_length(s, row) + 2,
{
    lemma_line_start_feeds(s, row);
    lemma_next_feed(s, line_start(s, row));
}

/// Turning a valid position into an offset and the offset back into a row
/// and a column gives a place of the text with the same offset. It is the
/// position itself, unless that was the row behind the last one, which
/// stands for the end of the last row.
pub proof fn lemma_offset_round_trip(s: Seq<char>, p: Position)
    requires
        valid_position(s, p),
    ensures
        0 <= linear_offset(s, p) <= s.len(),
        row_at(s, linear_offset(s, p)) < line_count(s),
        0 <= col_at(s, linear_offset(s, p)) <= line_length(s, row_at(s, linear_offset(s, p))),
        offset_at(
            s,
            row_at(s, linear_offset(s, p)),
            col_at(s, linear_offset(s, p)) as nat,
        ) == linear_offset(s, p),
        p.y < line_count(s) ==> row_at(s, linear_offset(s, p)) == p.y && col_at(
            s,
            linear_offset(s, p),
        ) == p.x,
{
    let row = p.y as nat;
    if row < line_count(s) {
        lemma_line_start_bounds(s, row);
        lemma_row_at_offset(s, row, p.x as nat);
    } else {
        let last = line_feeds(s);
        lemma_line_start_feeds(s, last);
        lemma_row_at_offset(s, last, (s.len() - line_start(s, last)) as nat);
    }
}

} // verus!
