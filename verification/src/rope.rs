//! The rope that stores a document's characters, and what this library
//! takes for granted about it.
//!
//! Nothing in this file is proved. Each function below hands its arguments to
//! one method of `ropey::Rope`, and its contract states what that method does
//! to the rope's characters. The rope is built without the crate's optional
//! line-break features, so a line feed is the only character that ends a row.

use vstd::prelude::*;
use ropey::Rope;
use crate::text::{line_count, line_feeds, line_start};

verus! {

/// `ropey::Rope`, of which the verifier sees nothing but the name.
#[verifier::external_type_specification]
#[verifier::external_body]
pub struct ExRope(Rope);

/// The characters that a rope holds, in order.
pub uninterp spec fn rope_text(r: Rope) -> Seq<char>;

/// `Rope::new`: the rope it makes holds no characters.
#[verifier::external_body]
pub(crate) fn rope_new() -> (r: Rope)
    ensures
        rope_text(r) == Seq::<char>::empty(),
{
    Rope::new()
}

/// `Rope::from_str`: the rope it makes holds the characters of `text`.
#[verifier::external_body]
pub(crate) fn rope_from_str(text: &str) -> (r: Rope)
    ensures
        rope_text(r) == text@,
{
    Rope::from_str(text)
}

/// `String::from(&Rope)`: the string holds the rope's characters.
#[verifier::external_body]
pub(crate) fn rope_to_string(r: &Rope) -> (s: String)
    ensures
        s@ == rope_text(*r),
{
    String::from(r)
}

/// `Rope::clone`: the copy holds the same characters.
#[verifier::external_body]
pub(crate) fn rope_clone(r: &Rope) -> (c: Rope)
    ensures
        rope_text(c) == rope_text(*r),
{
    r.clone()
}

/// `Rope::len_chars`: the number of characters held.
#[verifier::external_body]
pub(crate) fn rope_len_chars(r: &Rope) -> (n: usize)
    ensures
        n == rope_text(*r).len(),
{
    r.len_chars()
}

/// `Rope::len_lines`: one more than the number of line feeds held.
#[verifier::external_body]
pub(crate) fn rope_len_lines(r: &Rope) -> (n: usize)
    ensures
        n == line_count(rope_text(*r)),
{
    r.len_lines()
}

/// `Rope::line_to_char`: the index of the first character of row `line`, that
/// is 0 or the index behind the line feed that ends the row before; for the
/// row behind the last one, the number of characters. The method panics on a
/// greater `line`.
#[verifier::external_body]
pub(crate) fn rope_line_to_char(r: &Rope, line: usize) -> (idx: usize)
    requires
        line <= line_count(rope_text(*r)),
    ensures
        idx == line_start(rope_text(*r), line as nat),
{
    r.line_to_char(line)
}

/// `Rope::char_to_line`: the number of line feeds before index `idx`. The
/// method panics on an index greater than the number of characters.
#[verifier::external_body]
pub(crate) fn rope_char_to_line(r: &Rope, idx: usize) -> (line: usize)
    requires
        idx <= rope_text(*r).len(),
    ensures
        line == line_feeds(rope_text(*r).take(idx as int)),
{
    r.char_to_line(idx)
}

/// `Rope::char`: the character at index `idx`. The method panics unless
/// `idx` is less than the number of characters.
#[verifier::external_body]
pub(crate) fn rope_char(r: &Rope, idx: usize) -> (c: char)
    requires
        idx < rope_text(*r).len(),
    ensures
        c == rope_text(*r)[idx as int],
{
    r.char(idx)
}

/// `Rope::line`, written out as a string: the characters of row `line` with
/// the line feed that ends it, that is those from the row's start up to the
/// start of the next row. The method panics unless `line` is less than the
/// number of rows.
#[verifier::external_body]
pub(crate) fn rope_line(r: &Rope, line: usize) -> (s: String)
    requires
        line < line_count(rope_text(*r)),
    ensures
        s@ == rope_text(*r).subrange(
            line_start(rope_text(*r), line as nat),
            line_start(rope_text(*r), (line + 1) as nat),
        ),
{
    r.line(line).to_string()
}

/// `Rope::insert_char`: `c` is put before the character at `idx`, or at the
/// end where `idx` is the number of characters. The method panics on a
/// greater `idx`.
#[verifier::external_body]
pub(crate) fn rope_insert_char(r: &mut Rope, idx: usize, c: char)
    requires
        idx <= rope_text(*old(r)).len(),
    ensures
        rope_text(*final(r)) == rope_text(*old(r)).insert(idx as int, c),
{
    r.insert_char(idx, c)
}

/// `Rope::insert`: the characters of `text` are put before the character at
/// `idx`, or at the end where `idx` is the number of characters. The method
/// panics on a greater `idx`.
#[verifier::external_body]
pub(crate) fn rope_insert(r: &mut Rope, idx: usize, text: &str)
    requires
        idx <= rope_text(*old(r)).len(),
    ensures
        rope_text(*final(r)) == rope_text(*old(r)).subrange(0, idx as int) + text@ + rope_text(
            *old(r),
        ).subrange(idx as int, rope_text(*old(r)).len() as int),
{
    r.insert(idx, text)
}

/// `Rope::remove`: the characters from index `start` up to, not including,
/// `end` are taken out. The method panics unless `start <= end` and `end` is
/// at most the number of characters.
#[verifier::external_body]
pub(crate) fn rope_remove(r: &mut Rope, start: usize, end: usize)
    requires
        start <= end <= rope_text(*old(r)).len(),
    ensures
        rope_text(*final(r)) == rope_text(*old(r)).subrange(0, start as int) + rope_text(
            *old(r),
        ).subrange(end as int, rope_text(*old(r)).len() as int),
{
    r.remove(start..end)
}

} // verus!
