//! Finding the next occurrence of a text in a document.
//!
//! The search looks at one row after the other, the row of the starting
//! position first. In that row only an occurrence that starts behind the
//! starting column counts. Behind the last row the search goes on in the
//! first, and it gives up when it is back at the row where it started. A
//! starting row that the document does not have makes the search begin in the
//! first row.

use vstd::prelude::*;
use crate::chars::to_chars;
use crate::document::Document;
use crate::position::Position;
use crate::replace::{matches_at, occurs_at};
use crate::text::{line_content, line_count};

verus! {

/// The column of the first occurrence of `query` in `line` that starts at
/// or behind column `from`.
pub open spec fn first_match(line: Seq<char>, query: Seq<char>, from: int) -> Option<int>
    decreases line.len() + 1 - from,
{
    if from < 0 || from + query.len() > line.len() {
        None
    } else if matches_at(line, query, from) {
        Some(from)
    } else {
        first_match(line, query, from + 1)
    }
}

/// The row that the search looks at after `k` advances from row `start`,
/// in a document of `rows` rows.
pub open spec fn scan_row(rows: nat, start: nat, k: nat) -> nat {
    if start >= rows {
        k
    } else if start + k < rows {
        start + k
    } else {
        (start + k - rows) as nat
    }
}

/// The column from which on an occurrence counts in the row that the
/// search looks at after `k` advances.
pub open spec fn scan_col(rows: nat, from: Position, k: nat) -> int {
    if from.y < rows && k == 0 {
        from.x + 1
    } else {
        0
    }
}

/// The column that the search finds in the row that it looks at after `k`
/// advances, if it finds one there.
pub open spec fn match_in_step(s: Seq<char>, query: Seq<char>, from: Position, k: nat) -> Option<
    int,
> {
    let rows = line_count(s);
    first_match(line_content(s, scan_row(rows, from.y as nat, k)), query, scan_col(rows, from, k))
}

/// What a search that has made `k` advances without a find goes on to
/// find: the row and the column of the occurrence.
pub open spec fn find_from(s: Seq<char>, query: Seq<char>, from: Position, k: nat) -> Option<
    (nat, int),
>
    decreases line_count(s) - k,
{
    if k >= line_count(s) {
        None
    } else {
        match match_in_step(s, query, from, k) {
            Some(col) => Some((scan_row(line_count(s), from.y as nat, k), col)),
            None => find_from(s, query, from, k + 1),
        }
    }
}

/// The row and the column of the next occurrence of `query` behind `from`.
pub open spec fn next_match(s: Seq<char>, query: Seq<char>, from: Position) -> Option<(nat, int)> {
    find_from(s, query, from, 0)
}

/// Whether `query` occurs in the document in one place only, at column
/// `col` of row `row`.
pub open spec fn occurs_only_at(s: Seq<char>, query: Seq<char>, row: nat, col: int) -> bool {
    &&& row < line_count(s)
    &&& matches_at(line_content(s, row), query, col)
    &&& forall|r: nat, c: int|
        r < line_count(s) && #[trigger] matches_at(line_content(s, r), query, c) ==> r == row && c
            == col
}

/// The number of advances that bring a search from row `start` to row
/// `row`.
pub open spec fn advances_to(rows: nat, start: nat, row: nat) -> nat {
    if start >= rows {
        row
    } else if row >= start {
        (row - start) as nat
    } else {
        (row + rows - start) as nat
    }
}

/// What `first_match` finds is an occurrence at or behind `from`, and the
/// first one; it finds one wherever one is.
pub proof fn lemma_first_match(line: Seq<char>, query: Seq<char>, from: int)
    requires
        0 <= from,
    ensures
        match first_match(line, query, from) {
            Some(col) => from <= col && matches_at(line, query, col) && forall|c: int|
                from <= c < col ==> !matches_at(line, query, c),
            None => forall|c: int| from <= c ==> !matches_at(line, query, c),
        },
    decreases line.len() + 1 - from,
{
    if from + query.len() <= line.len() && !matches_at(line, query, from) {
        lemma_first_match(line, query, from + 1);
    }
}

/// A search that has found nothing in its first `k` advances, and that
/// comes to the one occurrence of `query` at or behind `k`, finds it.
proof fn lemma_find_from(
    s: Seq<char>,
    query: Seq<char>,
    from: Position,
    row: nat,
    col: int,
    k: nat,
)
    requires
        occurs_only_at(s, query, row, col),
        from.y != row || from.x < col,
        k <= advances_to(line_count(s), from.y as nat, row),
    ensures
        find_from(s, query, from, k) == Some((row, col)),
    decreases line_count(s) - k,
{
    let rows = line_count(s);
    let at = scan_row(rows, from.y as nat, k);
    lemma_first_match(line_content(s, at), query, scan_col(rows, from, k));
    if k < advances_to(rows, from.y as nat, row) {
        lemma_find_from(s, query, from, row, col, k + 1);
    }
}

/// In a document that holds `query` in one place only, the search finds
/// that place from every starting position, after fewer advances than the
/// document has rows. The one exception is a start in the row of the
/// occurrence, at or behind its column: such a search looks at that row for
/// what lies behind the start only, and never again.
pub proof fn lemma_single_occurrence_found(
    s: Seq<char>,
    query: Seq<char>,
    from: Position,
    row: nat,
    col: int,
)
    requires
        occurs_only_at(s, query, row, col),
        from.y != row || from.x < col,
    ensures
        next_match(s, query, from) == Some((row, col)),
        advances_to(line_count(s), from.y as nat, row) < line_count(s),
        scan_row(line_count(s), from.y as nat, advances_to(line_count(s), from.y as nat, row))
            == row,
{
    lemma_find_from(s, query, from, row, col, 0);
}

/// Finds the first occurrence of `query` in `line` that starts at or
/// behind column `from`.
pub fn find_in_line(line: &Vec<char>, query: &Vec<char>, from: usize) -> (found: Option<usize>)
    ensures
        match found {
            Some(col) => first_match(line@, query@, from as int) == Some(col as int),
            None => first_match(line@, query@, from as int) is None,
        },
{
    let mut col = from;
    while col <= line.len() && query.len() <= line.len() - col
        invariant
            from <= col,
            first_match(line@, query@, from as int) == first_match(line@, query@, col as int),
        decreases line.len() - col,
    {
        if occurs_at(line, query, col) {
            return Some(col);
        }
        if col == line.len() {
            assert(first_match(line@, query@, col + 1) is None);
            return None;
        }
        col += 1;
    }
    None
}

/// Finds the next occurrence of `query` behind `from`: the first row of
/// the search that holds one, and the first column in it that counts.
pub fn find_next(doc: &Document, query: &str, from: &Position) -> (found: Option<Position>)
    ensures
        match found {
            Some(p) => next_match(doc@.text, query@, *from) == Some((p.y as nat, p.x as int)),
            None => next_match(doc@.text, query@, *from) is None,
        },
{
    let ghost s = doc@.text;
    let rows = doc.len();
    let wanted = to_chars(query);
    let mut k: usize = 0;
    while k < rows
        invariant
            s == doc@.text,
            wanted@ == query@,
            rows == line_count(s),
            k <= rows,
            next_match(s, query@, *from) == find_from(s, query@, *from, k as nat),
        decreases rows - k,
    {
        let row = if from.y >= rows {
            k
        } else if k < rows - from.y {
            from.y + k
        } else {
            k - (rows - from.y)
        };
        let line = doc.line_chars(row);
        let found = if from.y < rows && k == 0 {
            if from.x < usize::MAX && from.x < line.len() {
                find_in_line(&line, &wanted, from.x + 1)
            } else {
                None
            }
        } else {
            find_in_line(&line, &wanted, 0)
        };
        assert(from.y < rows && k == 0 && from.x >= line.len() ==> first_match(
            line@,
            wanted@,
            from.x + 1,
        ) is None);
        match found {
            Some(col) => {
                return Some(Position { x: col, y: row });
            },
            None => {},
        }
        k += 1;
    }
    None
}

} // verus!
