//! How a change of the text changes its rows.
//!
//! The document keeps its characters in one sequence, and its operations say
//! what they do to that sequence. The statements here turn that into what
//! happens to the rows: a change within a row leaves every other row as it
//! is, a line feed put into a row makes two rows of it, and taking out the
//! terminator of a row joins it to the next.

use vstd::prelude::*;
use crate::document::Buffer;
use crate::position::Position;
use crate::text::{
    clamp_col, clamp_row, content_end, header_line, indentation, leading_hashes,
    leading_spaces, lemma_feeds_prefix, lemma_feeds_step, lemma_line_start_bounds,
    lemma_line_start_feeds, lemma_line_start_past_end, lemma_next_feed, lemma_row_at_offset,
    line_content, line_count, line_end, line_feeds, line_length, line_start, next_feed, splice,
    valid_position, word_end, word_start,
};

verus! {

/// The line feeds of a text in two parts are those of its parts.
pub proof fn lemma_feeds_add(a: Seq<char>, b: Seq<char>)
    ensures
        line_feeds(a + b) == line_feeds(a) + line_feeds(b),
    decreases b.len(),
{
    if b.len() > 0 {
        lemma_feeds_add(a, b.drop_last());
        assert((a + b).drop_last() =~= a + b.drop_last());
    }
}

/// A stretch without a line feed holds none.
pub proof fn lemma_feeds_none(a: Seq<char>)
    requires
        forall|i: int| 0 <= i < a.len() ==> a[i] != '\n',
    ensures
        line_feeds(a) == 0,
    decreases a.len(),
{
    if a.len() > 0 {
        lemma_feeds_none(a.drop_last());
    }
}

/// Only one index lies behind exactly `row` line feeds and directly behind
/// one, or at the start: the start of row `row`.
pub proof fn lemma_line_start_unique(s: Seq<char>, row: nat, i: int)
    requires
        0 <= i <= s.len(),
        line_feeds(s.take(i)) == row,
        i == 0 || s[i - 1] == '\n',
    ensures
        row <= line_feeds(s),
        line_start(s, row) == i,
{
    lemma_feeds_prefix(s, i, s.len() as int);
    lemma_line_start_feeds(s, row);
    let j = line_start(s, row);
    if i < j {
        lemma_feeds_prefix(s, i, j - 1);
        lemma_feeds_step(s, j - 1);
    } else if j < i {
        lemma_feeds_prefix(s, j, i - 1);
        lemma_feeds_step(s, i - 1);
    }
}

/// Only one index at or behind `from` has no line feed between `from` and
/// itself and a line feed, or the end of the text, at itself: the one that
/// `next_feed` finds.
pub proof fn lemma_next_feed_unique(s: Seq<char>, from: int, e: int)
    requires
        0 <= from <= e <= s.len(),
        forall|k: int| from <= k < e ==> s[k] != '\n',
        e == s.len() || s[e] == '\n',
    ensures
        next_feed(s, from) == e,
{
    lemma_next_feed(s, from);
}

/// The number of line feeds that `s` holds from index `a` up to `b`.
pub open spec fn feeds_between(s: Seq<char>, a: int, b: int) -> nat {
    line_feeds(s.subrange(a, b))
}

/// The line feeds before an index are those before an earlier index and
/// those in between.
pub proof fn lemma_feeds_split(s: Seq<char>, a: int, b: int)
    requires
        0 <= a <= b <= s.len(),
    ensures
        line_feeds(s.take(b)) == line_feeds(s.take(a)) + feeds_between(s, a, b),
{
    lemma_feeds_add(s.take(a), s.subrange(a, b));
    assert(s.take(a) + s.subrange(a, b) =~= s.take(b));
}

/// A row that starts at or before a change of the text starts where it
/// did.
pub proof fn lemma_start_before_change(s: Seq<char>, a: int, b: int, w: Seq<char>, row: nat)
    requires
        0 <= a <= b <= s.len(),
        row <= line_feeds(s.take(a)),
    ensures
        row <= line_feeds(s),
        row <= line_feeds(splice(s, a, b, w)),
        line_start(splice(s, a, b, w), row) == line_start(s, row),
        line_start(s, row) <= a,
{
    let t = splice(s, a, b, w);
    lemma_feeds_prefix(s, a, s.len() as int);
    lemma_line_start_feeds(s, row);
    let i = line_start(s, row);
    if i > a {
        lemma_feeds_prefix(s, a, i - 1);
        lemma_feeds_step(s, i - 1);
    }
    assert(t.take(i) =~= s.take(i));
    lemma_line_start_unique(t, row, i);
}

/// A row that starts behind a change of the text starts as much further
/// on as the text has grown, and counts as many rows more as the change has
/// added line feeds.
pub proof fn lemma_start_behind_change(s: Seq<char>, a: int, b: int, w: Seq<char>, row: nat)
    requires
        0 <= a <= b <= s.len(),
        line_feeds(s.take(b)) < row <= line_feeds(s),
    ensures
        line_start(s, row) > b,
        row - feeds_between(s, a, b) + line_feeds(w) >= 0,
        line_start(
            splice(s, a, b, w),
            (row - feeds_between(s, a, b) + line_feeds(w)) as nat,
        ) == line_start(s, row) + w.len() - (b - a),
{
    let t = splice(s, a, b, w);
    let grow = w.len() - (b - a);
    lemma_line_start_feeds(s, row);
    let i = line_start(s, row);
    if i <= b {
        lemma_feeds_prefix(s, i, b);
    }
    lemma_feeds_split(s, a, b);
    lemma_feeds_split(s, b, i);
    lemma_feeds_prefix(s, 0, a);
    assert(t.take(i + grow) =~= s.take(a) + w + s.subrange(b, i));
    lemma_feeds_add(s.take(a) + w, s.subrange(b, i));
    lemma_feeds_add(s.take(a), w);
    lemma_line_start_unique(
        t,
        (row - feeds_between(s, a, b) + line_feeds(w)) as nat,
        i + grow,
    );
}

/// Whether `s` holds no carriage return.
pub open spec fn no_carriage_return(s: Seq<char>) -> bool {
    forall|i: int| 0 <= i < s.len() ==> s[i] != '\r'
}

/// Whether `s` holds no line feed.
pub open spec fn no_line_feed(s: Seq<char>) -> bool {
    forall|i: int| 0 <= i < s.len() ==> s[i] != '\n'
}

/// The contents of the rows of `s`, from the first row to the last.
pub open spec fn rows_of(s: Seq<char>) -> Seq<Seq<char>> {
    Seq::new(line_count(s), |r: int| line_content(s, r as nat))
}

/// In a text without carriage returns the content of a row runs up to its
/// line feed.
pub proof fn lemma_content_runs_to_feed(s: Seq<char>, row: nat)
    requires
        no_carriage_return(s),
    ensures
        content_end(s, row) == line_end(s, row),
        line_content(s, row) == s.subrange(line_start(s, row), line_end(s, row)),
        no_carriage_return(line_content(s, row)),
        no_line_feed(line_content(s, row)),
{
    lemma_line_start_bounds(s, row);
    lemma_next_feed(s, line_start(s, row));
}

/// What a change within row `y` does to row `row`, where the change puts
/// `w`, which holds no line feed, in place of the columns from `from` up to
/// `to`.
proof fn lemma_edit_row(s: Seq<char>, y: nat, from: nat, to: nat, w: Seq<char>, row: nat)
    requires
        no_carriage_return(s),
        no_carriage_return(w),
        no_line_feed(w),
        y < line_count(s),
        from <= to <= line_length(s, y),
        row < line_count(s),
    ensures
        line_count(splice(s, line_start(s, y) + from, line_start(s, y) + to, w)) == line_count(s),
        no_carriage_return(splice(s, line_start(s, y) + from, line_start(s, y) + to, w)),
        row == y ==> line_content(
            splice(s, line_start(s, y) + from, line_start(s, y) + to, w),
            row,
        ) == line_content(s, y).take(from as int) + w + line_content(s, y).skip(to as int),
        row != y ==> line_content(
            splice(s, line_start(s, y) + from, line_start(s, y) + to, w),
            row,
        ) == line_content(s, row),
{
    let start = line_start(s, y);
    let a = start + from;
    let b = start + to;
    let t = splice(s, a, b, w);
    let grow = w.len() - (b - a);
    lemma_line_start_bounds(s, y);
    lemma_row_at_offset(s, y, from);
    lemma_row_at_offset(s, y, to);
    lemma_feeds_split(s, a, b);
    lemma_feeds_none(w);
    lemma_feeds_split(s, b, s.len() as int);
    lemma_feeds_prefix(s, 0, s.len() as int);
    assert(t =~= (s.take(a) + w) + s.subrange(b, s.len() as int));
    lemma_feeds_add(s.take(a) + w, s.subrange(b, s.len() as int));
    lemma_feeds_add(s.take(a), w);
    lemma_content_runs_to_feed(t, row);
    lemma_line_start_bounds(s, row);
    lemma_next_feed(s, line_start(s, row));
    let first = line_start(s, row);
    let e = line_end(s, row);
    if row <= y {
        lemma_start_before_change(s, a, b, w, row);
        if row < y {
            lemma_line_start_feeds(s, row);
            lemma_feeds_prefix(s, first, e);
            if e >= a {
                lemma_feeds_prefix(s, a, e);
            }
            lemma_next_feed_unique(t, first, e);
        } else {
            lemma_next_feed_unique(t, first, e + grow);
        }
    } else {
        lemma_start_behind_change(s, a, b, w, row);
        lemma_next_feed_unique(t, first + grow, e + grow);
        assert(line_content(t, row) =~= line_content(s, row));
    }
}

/// A change within a row changes that row and no other. In a text without
/// carriage returns, where `w`, which holds neither a line feed nor a
/// carriage return, takes the place of the columns from `from` up to `to` of
/// row `y`, the text has as many rows as before, row `y` holds what it held
/// with `w` in that place, and every other row holds what it held.
pub proof fn lemma_edit_within_row(s: Seq<char>, y: nat, from: nat, to: nat, w: Seq<char>)
    requires
        no_carriage_return(s),
        no_carriage_return(w),
        no_line_feed(w),
        y < line_count(s),
        from <= to <= line_length(s, y),
    ensures
        rows_of(splice(s, line_start(s, y) + from, line_start(s, y) + to, w)) == rows_of(
            s,
        ).update(
            y as int,
            line_content(s, y).take(from as int) + w + line_content(s, y).skip(to as int),
        ),
        no_carriage_return(splice(s, line_start(s, y) + from, line_start(s, y) + to, w)),
        line_count(splice(s, line_start(s, y) + from, line_start(s, y) + to, w)) == line_count(s),
        line_start(splice(s, line_start(s, y) + from, line_start(s, y) + to, w), y) == line_start(
            s,
            y,
        ),
{
    lemma_line_start_bounds(s, y);
    lemma_row_at_offset(s, y, from);
    lemma_start_before_change(s, line_start(s, y) + from, line_start(s, y) + to, w, y);
    let t = splice(s, line_start(s, y) + from, line_start(s, y) + to, w);
    let expected = rows_of(s).update(
        y as int,
        line_content(s, y).take(from as int) + w + line_content(s, y).skip(to as int),
    );
    lemma_edit_row(s, y, from, to, w, y);
    assert forall|r: int| 0 <= r < line_count(s) implies rows_of(t)[r] == expected[r] by {
        lemma_edit_row(s, y, from, to, w, r as nat);
    }
}

/// A character put into a row lengthens that row and changes no other:
/// in a text without carriage returns, a character that is neither a line
/// feed nor a carriage return, put at column `x` of row `y`, stands at that
/// column of that row afterwards.
pub proof fn lemma_insert_in_row(s: Seq<char>, y: nat, x: nat, c: char)
    requires
        no_carriage_return(s),
        c != '\n',
        c != '\r',
        y < line_count(s),
        x <= line_length(s, y),
    ensures
        rows_of(s.insert(line_start(s, y) + x, c)) == rows_of(s).update(
            y as int,
            line_content(s, y).insert(x as int, c),
        ),
{
    lemma_edit_within_row(s, y, x, x, seq![c]);
    let at = line_start(s, y) + x;
    assert(s.insert(at, c) =~= splice(s, at, at, seq![c]));
    let content = line_content(s, y);
    assert(content.insert(x as int, c) =~= content.take(x as int) + seq![c] + content.skip(
        x as int,
    ));
}

/// What a line feed put at column `x` of row `y` does to row `row` of the
/// text as it was.
proof fn lemma_split_row(s: Seq<char>, y: nat, x: nat, row: nat)
    requires
        no_carriage_return(s),
        y < line_count(s),
        x <= line_length(s, y),
        row < line_count(s),
    ensures
        line_count(s.insert(line_start(s, y) + x, '\n')) == line_count(s) + 1,
        row < y ==> line_content(s.insert(line_start(s, y) + x, '\n'), row) == line_content(
            s,
            row,
        ),
        row == y ==> line_content(s.insert(line_start(s, y) + x, '\n'), y) == line_content(
            s,
            y,
        ).take(x as int) && line_content(s.insert(line_start(s, y) + x, '\n'), y + 1)
            == line_content(s, y).skip(x as int),
        row > y ==> line_content(s.insert(line_start(s, y) + x, '\n'), row + 1) == line_content(
            s,
            row,
        ),
{
    let start = line_start(s, y);
    let a = start + x;
    let w = seq!['\n'];
    lemma_line_start_bounds(s, y);
    let t = splice(s, a, a, w);
    assert(s.insert(a, '\n') =~= t);
    lemma_row_at_offset(s, y, x);
    assert(line_feeds(w) == 1) by {
        reveal_with_fuel(line_feeds, 2);
    }
    lemma_feeds_split(s, a, s.len() as int);
    lemma_feeds_prefix(s, 0, s.len() as int);
    lemma_feeds_add(s.take(a) + w, s.subrange(a, s.len() as int));
    lemma_feeds_add(s.take(a), w);
    lemma_line_start_bounds(s, row);
    lemma_next_feed(s, line_start(s, row));
    let first = line_start(s, row);
    let e = line_end(s, row);
    if row <= y {
        lemma_start_before_change(s, a, a, w, row);
        if row < y {
            lemma_line_start_feeds(s, row);
            lemma_feeds_prefix(s, first, e);
            if e >= a {
                lemma_feeds_prefix(s, a, e);
            }
            lemma_next_feed_unique(t, first, e);
        } else {
            lemma_next_feed_unique(t, first, a);
            assert(t.take(a + 1) =~= s.take(a) + w);
            lemma_next_feed_unique(t, a + 1, e + 1);
        }
    } else {
        lemma_start_behind_change(s, a, a, w, row);
        lemma_next_feed_unique(t, first + 1, e + 1);
    }
}

/// A line feed put into a row makes two rows of it: in a text without
/// carriage returns, after a line feed is put at column `x` of row `y`, that
/// row holds what stood before the column, a new row behind it holds the
/// rest, and all other rows hold what they held.
pub proof fn lemma_line_feed_splits_row(s: Seq<char>, y: nat, x: nat)
    requires
        no_carriage_return(s),
        y < line_count(s),
        x <= line_length(s, y),
    ensures
        rows_of(s.insert(line_start(s, y) + x, '\n')) == rows_of(s).take(y as int) + seq![
            line_content(s, y).take(x as int),
            line_content(s, y).skip(x as int),
        ] + rows_of(s).skip((y + 1) as int),
{
    let t = s.insert(line_start(s, y) + x, '\n');
    let expected = rows_of(s).take(y as int) + seq![
        line_content(s, y).take(x as int),
        line_content(s, y).skip(x as int),
    ] + rows_of(s).skip((y + 1) as int);
    lemma_split_row(s, y, x, y);
    assert forall|r: int| 0 <= r < line_count(t) implies rows_of(t)[r] == expected[r] by {
        if r <= y {
            lemma_split_row(s, y, x, r as nat);
        } else if r > y + 1 {
            lemma_split_row(s, y, x, (r - 1) as nat);
        }
    }
}

/// What taking out the terminator of row `y` does to row `row` of the text
/// as it was.
proof fn lemma_join_row(s: Seq<char>, y: nat, row: nat)
    requires
        no_carriage_return(s),
        y + 1 < line_count(s),
        row < line_count(s),
    ensures
        line_count(splice(s, content_end(s, y), line_start(s, y + 1), Seq::empty())) + 1
            == line_count(s),
        row < y ==> line_content(
            splice(s, content_end(s, y), line_start(s, y + 1), Seq::empty()),
            row,
        ) == line_content(s, row),
        row == y ==> line_content(
            splice(s, content_end(s, y), line_start(s, y + 1), Seq::empty()),
            y,
        ) == line_content(s, y) + line_content(s, y + 1),
        row > y + 1 ==> line_content(
            splice(s, content_end(s, y), line_start(s, y + 1), Seq::empty()),
            (row - 1) as nat,
        ) == line_content(s, row),
{
    let w = Seq::<char>::empty();
    let start = line_start(s, y);
    lemma_line_start_feeds(s, y);
    lemma_next_feed(s, start);
    lemma_content_runs_to_feed(s, y + 1);
    let a = line_end(s, y);
    let b = a + 1;
    let t = splice(s, a, b, w);
    lemma_row_at_offset(s, y, (a - start) as nat);
    lemma_feeds_step(s, a);
    lemma_feeds_split(s, a, b);
    lemma_feeds_split(s, b, s.len() as int);
    lemma_feeds_prefix(s, 0, s.len() as int);
    lemma_feeds_add(s.take(a), s.subrange(b, s.len() as int));
    lemma_line_start_bounds(s, row);
    lemma_next_feed(s, line_start(s, row));
    let first = line_start(s, row);
    let e = line_end(s, row);
    if row <= y {
        lemma_start_before_change(s, a, b, w, row);
        lemma_content_runs_to_feed(t, row);
        if row < y {
            lemma_line_start_feeds(s, row);
            lemma_feeds_prefix(s, first, e);
            lemma_next_feed_unique(t, first, e);
        } else {
            let next_end = line_end(s, y + 1);
            lemma_next_feed(s, b);
            lemma_next_feed_unique(t, first, next_end - 1);
        }
    } else if row > y + 1 {
        lemma_start_behind_change(s, a, b, w, row);
        lemma_next_feed_unique(t, first - 1, e - 1);
    }
}

/// Taking out the terminator of a row joins the row to the next: in a
/// text without carriage returns, after the terminator of row `y` is taken
/// out, that row holds what it held followed by what the next row held, the
/// next row is gone, and all other rows hold what they held.
pub proof fn lemma_delete_joins_rows(s: Seq<char>, y: nat)
    requires
        no_carriage_return(s),
        y + 1 < line_count(s),
    ensures
        rows_of(splice(s, content_end(s, y), line_start(s, y + 1), Seq::empty())) == rows_of(
            s,
        ).take(y as int) + seq![line_content(s, y) + line_content(s, y + 1)] + rows_of(s).skip(
            (y + 2) as int,
        ),
{
    let t = splice(s, content_end(s, y), line_start(s, y + 1), Seq::empty());
    let expected = rows_of(s).take(y as int) + seq![line_content(s, y) + line_content(s, y + 1)]
        + rows_of(s).skip((y + 2) as int);
    lemma_join_row(s, y, y);
    assert forall|r: int| 0 <= r < line_count(t) implies rows_of(t)[r] == expected[r] by {
        if r <= y {
            lemma_join_row(s, y, r as nat);
        } else {
            lemma_join_row(s, y, (r + 1) as nat);
        }
    }
}

/// A character typed into a row of a document without carriage returns
/// stands at its column of that row afterwards, and no other row changes. The
/// character is neither a line feed nor a carriage return, and the position
/// is a valid one in a row of the document.
pub proof fn lemma_inserted_rows(b: Buffer, at: Position, c: char)
    requires
        no_carriage_return(b.text),
        valid_position(b.text, at),
        at.y < line_count(b.text),
        c != '\n',
        c != '\r',
    ensures
        rows_of(b.inserted(at, c).text) == rows_of(b.text).update(
            at.y as int,
            line_content(b.text, at.y as nat).insert(at.x as int, c),
        ),
{
    lemma_insert_in_row(b.text, at.y as nat, at.x as nat, c);
}

/// A line feed typed into a row of a document without carriage returns
/// makes two rows of it, cut at the column of the position.
pub proof fn lemma_inserted_line_feed(b: Buffer, at: Position)
    requires
        no_carriage_return(b.text),
        valid_position(b.text, at),
        at.y < line_count(b.text),
    ensures
        rows_of(b.inserted(at, '\n').text) == rows_of(b.text).take(at.y as int) + seq![
            line_content(b.text, at.y as nat).take(at.x as int),
            line_content(b.text, at.y as nat).skip(at.x as int),
        ] + rows_of(b.text).skip((at.y + 1) as int),
{
    lemma_line_feed_splits_row(b.text, at.y as nat, at.x as nat);
}

/// A deletion within a row of a document without carriage returns takes
/// the character at the column out of that row, and no other row changes.
pub proof fn lemma_deleted_in_row(b: Buffer, at: Position)
    requires
        no_carriage_return(b.text),
        at.y < line_count(b.text),
        at.x < line_length(b.text, at.y as nat),
    ensures
        rows_of(b.deleted(at).text) == rows_of(b.text).update(
            at.y as int,
            line_content(b.text, at.y as nat).remove(at.x as int),
        ),
{
    let s = b.text;
    let y = at.y as nat;
    let x = at.x as nat;
    lemma_edit_within_row(s, y, x, x + 1, Seq::empty());
}

/// A deletion at the end of a row of a document without carriage returns
/// joins the row to the one that follows it, where one follows.
pub proof fn lemma_deleted_joins_rows(b: Buffer, at: Position)
    requires
        no_carriage_return(b.text),
        at.y + 1 < line_count(b.text),
        at.x >= line_length(b.text, at.y as nat),
    ensures
        rows_of(b.deleted(at).text) == rows_of(b.text).take(at.y as int) + seq![
            line_content(b.text, at.y as nat) + line_content(b.text, (at.y + 1) as nat),
        ] + rows_of(b.text).skip((at.y + 2) as int),
{
    let s = b.text;
    let y = at.y as nat;
    lemma_line_start_bounds(s, y);
    lemma_line_start_feeds(s, y);
    lemma_delete_joins_rows(s, y);
}

/// A deletion at the end of the last row, or behind it, changes nothing.
pub proof fn lemma_deleted_at_end(b: Buffer, at: Position)
    requires
        at.y + 1 >= line_count(b.text),
        at.y >= line_count(b.text) || at.x >= line_length(b.text, at.y as nat),
    ensures
        b.deleted(at) == b,
{
    let s = b.text;
    let row = clamp_row(s, at.y as nat);
    if row >= line_count(s) {
        lemma_line_start_past_end(s, row);
    } else {
        lemma_line_start_feeds(s, row);
    }
}

/// The header markers and the white space that a row starts with hold no
/// carriage return that the rest of the row does not hold.
proof fn lemma_header_plain(content: Seq<char>, level: nat)
    requires
        no_carriage_return(content),
        no_line_feed(content),
    ensures
        no_carriage_return(header_line(content, level)),
        no_line_feed(header_line(content, level)),
{
    lemma_leading_bounds(content);
    let rest = content.skip(leading_hashes(content) as int);
    lemma_leading_bounds(rest);
}

/// No more header markers or white space stand at the start of a row than
/// the row has characters.
proof fn lemma_leading_bounds(s: Seq<char>)
    ensures
        leading_hashes(s) <= s.len(),
        leading_spaces(s) <= s.len(),
    decreases s.len(),
{
    if s.len() > 0 {
        lemma_leading_bounds(s.drop_first());
    }
}

/// Making a row of a document without carriage returns a header changes
/// that row and no other: the row becomes the header line of what it held.
pub proof fn lemma_header_rows(b: Buffer, y: nat, level: nat)
    requires
        no_carriage_return(b.text),
        y < line_count(b.text),
    ensures
        rows_of(b.with_header(y, level).text) == rows_of(b.text).update(
            y as int,
            header_line(line_content(b.text, y), level),
        ),
{
    let s = b.text;
    let content = line_content(s, y);
    lemma_line_start_bounds(s, y);
    lemma_content_runs_to_feed(s, y);
    lemma_header_plain(content, level);
    lemma_edit_within_row(s, y, 0, line_length(s, y), header_line(content, level));
}

/// Indenting a row of a document without carriage returns puts the
/// indentation before what the row held, and no other row changes.
pub proof fn lemma_indented_rows(b: Buffer, y: nat, count: nat)
    requires
        no_carriage_return(b.text),
        y < line_count(b.text),
    ensures
        rows_of(b.indented(y, count).text) == rows_of(b.text).update(
            y as int,
            indentation(count) + line_content(b.text, y),
        ),
{
    let s = b.text;
    let content = line_content(s, y);
    lemma_edit_within_row(s, y, 0, 0, indentation(count));
    assert(content.take(0) + indentation(count) + content.skip(0) =~= indentation(count)
        + content);
}

/// The word around a column lies within its row: it starts at or before
/// the column and ends at or behind it.
pub proof fn lemma_word_bounds(line: Seq<char>, col: int)
    requires
        0 <= col <= line.len(),
    ensures
        0 <= word_start(line, col) <= col <= word_end(line, col) <= line.len(),
{
    lemma_word_start_bounds(line, col);
    lemma_word_end_bounds(line, col);
}

proof fn lemma_word_start_bounds(line: Seq<char>, col: int)
    requires
        0 <= col <= line.len(),
    ensures
        0 <= word_start(line, col) <= col,
    decreases col,
{
    if col > 0 && line[col - 1] != ' ' {
        lemma_word_start_bounds(line, col - 1);
    }
}

proof fn lemma_word_end_bounds(line: Seq<char>, col: int)
    requires
        0 <= col <= line.len(),
    ensures
        col <= word_end(line, col) <= line.len(),
    decreases line.len() - col,
{
    if col < line.len() && line[col] != ' ' {
        lemma_word_end_bounds(line, col + 1);
    }
}

/// The row `line` with `marker` before and behind the word around column
/// `col`.
pub open spec fn wrapped_line(line: Seq<char>, col: int, marker: Seq<char>) -> Seq<char> {
    line.take(word_start(line, col)) + marker + line.subrange(
        word_start(line, col),
        word_end(line, col),
    ) + marker + line.skip(word_end(line, col))
}

/// Wrapping the word around a position of a document without carriage
/// returns changes the row of the position and no other: the marker stands
/// before the word and behind it. The marker holds neither a line feed nor a
/// carriage return.
pub proof fn lemma_word_wrapped_rows(b: Buffer, pos: Position, marker: Seq<char>)
    requires
        no_carriage_return(b.text),
        no_carriage_return(marker),
        no_line_feed(marker),
        pos.y < line_count(b.text),
    ensures
        rows_of(b.word_wrapped(pos, marker).text) == rows_of(b.text).update(
            pos.y as int,
            wrapped_line(
                line_content(b.text, pos.y as nat),
                clamp_col(b.text, pos.y as nat, pos.x as nat) as int,
                marker,
            ),
        ),
{
    let s = b.text;
    let y = pos.y as nat;
    let line = line_content(s, y);
    let col = clamp_col(s, y, pos.x as nat) as int;
    let from = word_start(line, col);
    let to = word_end(line, col);
    lemma_line_start_bounds(s, y);
    lemma_word_bounds(line, col);
    lemma_edit_within_row(s, y, to as nat, to as nat, marker);
    let first = splice(s, line_start(s, y) + to, line_start(s, y) + to, marker);
    let once = line.take(to) + marker + line.skip(to);
    assert(rows_of(first)[y as int] == once);
    lemma_line_start_bounds(first, y);
    lemma_edit_within_row(first, y, from as nat, from as nat, marker);
    let twice = once.take(from) + marker + once.skip(from);
    assert(twice =~= line.take(from) + marker + line.subrange(from, to) + marker + line.skip(to));
}

/// The number of characters that the rows before row `row` take, where
/// each takes its length and one more for its line feed.
pub open spec fn rows_before(s: Seq<char>, row: nat) -> nat
    decreases row,
{
    if row == 0 {
        0
    } else {
        rows_before(s, (row - 1) as nat) + line_length(s, (row - 1) as nat) + 1
    }
}

/// In a text without carriage returns a row starts behind the rows before
/// it: at the sum of their lengths, one more for each. The offset of a valid
/// position is that sum and the column of the position.
pub proof fn lemma_offset_is_sum(s: Seq<char>, row: nat)
    requires
        no_carriage_return(s),
        row <= line_feeds(s),
    ensures
        line_start(s, row) == rows_before(s, row),
    decreases row,
{
    if row > 0 {
        let before = (row - 1) as nat;
        lemma_offset_is_sum(s, before);
        lemma_line_start_feeds(s, before);
        lemma_line_start_bounds(s, before);
    }
}

} // verus!
