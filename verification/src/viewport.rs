//! What of a document is seen on the screen: how rows wrap into fragments,
//! which fragments fill the screen, where the cursor appears among them, and
//! how the view follows the cursor.
//!
//! A row that is wider than the screen wraps. Its first fragment may fill
//! the whole width; each further fragment starts with a marker that is
//! shown but is no part of the document, so it holds less.

use vstd::prelude::*;
use vstd::arithmetic::div_mod::lemma_fundamental_div_mod_converse;
use crate::document::Document;
use crate::position::Position;
use crate::text::{
    clamp_col, clamp_row, lemma_line_start_bounds, lemma_line_start_feeds,
    lemma_line_start_past_end, line_count, line_length, line_start,
};

verus! {

/// The width of the marker that starts every fragment but the first of a
/// row.
pub const WRAP_PREFIX_LEN: usize = 2;

/// One screen line: a part of a row of the document, or padding below the
/// last row.
pub struct Piece {
    /// The row of the document that the fragment is a part of.
    pub row: int,
    /// The column of the row at which the fragment starts.
    pub start: int,
    /// The column of the row before which the fragment ends.
    pub end: int,
    /// Whether the fragment is not the first of its row.
    pub continuation: bool,
    /// Whether the screen line lies below the last row of the document.
    pub padding: bool,
}

/// One screen line, as `compute_visible_rows` hands it out.
#[derive(Clone, Copy, Debug, PartialEq, Eq, Structural)]
pub struct Fragment {
    /// The row of the document that the fragment is a part of.
    pub row: usize,
    /// The column of the row at which the fragment starts.
    pub start: usize,
    /// The column of the row before which the fragment ends.
    pub end: usize,
    /// Whether the fragment is not the first of its row, so that the marker
    /// is shown before it.
    pub is_continuation: bool,
    /// Whether the screen line lies below the last row of the document.
    pub is_padding: bool,
}

impl View for Fragment {
    type V = Piece;

    open spec fn view(&self) -> Piece {
        Piece {
            row: self.row as int,
            start: self.start as int,
            end: self.end as int,
            continuation: self.is_continuation,
            padding: self.is_padding,
        }
    }
}

/// How many characters a fragment behind the first holds: the width less
/// the marker, but at least one.
pub open spec fn continuation_budget(wrap_width: nat) -> nat {
    if wrap_width > WRAP_PREFIX_LEN {
        (wrap_width - WRAP_PREFIX_LEN) as nat
    } else {
        1
    }
}

/// The number of fragments of a row of `len` characters: one, and one more
/// for each continuation budget, whole or in part, that the row is longer
/// than the width.
pub open spec fn fragment_count(len: nat, wrap_width: nat) -> nat {
    if len <= wrap_width {
        1
    } else {
        let budget = continuation_budget(wrap_width);
        (1 + ((len - wrap_width) + budget - 1) / (budget as int)) as nat
    }
}

/// The column before which fragment `k` of a row of `len` characters ends.
pub open spec fn fragment_end(len: nat, wrap_width: nat, k: nat) -> nat {
    let reach = wrap_width + k * continuation_budget(wrap_width);
    if reach < len {
        reach
    } else {
        len
    }
}

/// The column at which fragment `k` of a row of `len` characters starts.
pub open spec fn fragment_start(len: nat, wrap_width: nat, k: nat) -> nat {
    if k == 0 {
        0
    } else {
        fragment_end(len, wrap_width, (k - 1) as nat)
    }
}

/// The number of characters that the first `k` fragments of a row hold
/// together, markers not counted.
pub open spec fn covered(len: nat, wrap_width: nat, k: nat) -> nat
    decreases k,
{
    if k == 0 {
        0
    } else {
        let last = (k - 1) as nat;
        (covered(len, wrap_width, last) + fragment_end(len, wrap_width, last) - fragment_start(
            len,
            wrap_width,
            last,
        )) as nat
    }
}

/// The number of screen lines that the rows from `top` up to, not
/// including, `row` take.
pub open spec fn rows_above(s: Seq<char>, top: nat, row: nat, wrap_width: nat) -> nat
    decreases row,
{
    if row <= top {
        0
    } else {
        let above = (row - 1) as nat;
        rows_above(s, top, above, wrap_width) + fragment_count(line_length(s, above), wrap_width)
    }
}

/// Screen line `i` of a view whose first line starts row `row`.
pub open spec fn piece_at(s: Seq<char>, row: nat, wrap_width: nat, i: nat) -> Piece
    decreases i,
{
    if row >= line_count(s) {
        Piece { row: 0, start: 0, end: 0, continuation: false, padding: true }
    } else {
        let len = line_length(s, row);
        let n = fragment_count(len, wrap_width);
        if i < n {
            Piece {
                row: row as int,
                start: fragment_start(len, wrap_width, i) as int,
                end: fragment_end(len, wrap_width, i) as int,
                continuation: i > 0,
                padding: false,
            }
        } else if n == 0 {
            Piece { row: 0, start: 0, end: 0, continuation: false, padding: true }
        } else {
            piece_at(s, row + 1, wrap_width, (i - n) as nat)
        }
    }
}

/// The fragment of its row that holds column `col`, counted from 0: columns
/// up to the width are divided by the width, those beyond by the
/// continuation budget.
pub open spec fn cursor_fragment(col: nat, wrap_width: nat) -> nat {
    if col < wrap_width {
        0
    } else {
        (1 + (col - wrap_width) / (continuation_budget(wrap_width) as int)) as nat
    }
}

/// The screen column of column `col` of a row: its place within its
/// fragment, behind the marker where the fragment has one.
pub open spec fn cursor_column(col: nat, wrap_width: nat) -> nat {
    if col < wrap_width {
        col
    } else {
        (WRAP_PREFIX_LEN + (col - wrap_width) % (continuation_budget(wrap_width) as int)) as nat
    }
}

/// The screen line of the cursor at the valid place `(row, col)`, counted
/// from the line that starts row `top`.
pub open spec fn cursor_line(s: Seq<char>, row: nat, col: nat, top: nat, wrap_width: nat) -> nat {
    rows_above(s, top, row, wrap_width) + cursor_fragment(col, wrap_width)
}

/// The first row seen after the view has followed the cursor to row `row`:
/// a cursor above the view becomes its first row, one below becomes its last.
pub open spec fn scrolled(row: nat, top: nat, height: nat) -> int {
    if row < top {
        row as int
    } else if row >= top + height {
        row - height + 1
    } else {
        top as int
    }
}

/// The number of digits of `n` in base ten.
pub open spec fn decimal_digits(n: nat) -> nat
    decreases n,
{
    if n < 10 {
        1
    } else {
        1 + decimal_digits(n / 10)
    }
}

/// The width of the margin that holds the row numbers: none where they are
/// not shown, else the digits of the number of rows with a space and a bar.
pub open spec fn gutter(show: bool, rows: nat) -> nat {
    if show {
        decimal_digits(rows) + 2
    } else {
        0
    }
}

/// What rounding up a division gives: the least number of budgets that hold
/// `d`.
pub proof fn lemma_ceil(d: nat, c: nat)
    requires
        c >= 1,
    ensures
        ((d + c - 1) / (c as int)) * c >= d,
        d > 0 ==> ((d + c - 1) / (c as int) - 1) * c < d,
        d > 0 ==> (d + c - 1) / (c as int) >= 1,
        (d + c - 1) / (c as int) <= d,
        (d + c - 1) / (c as int) >= 0,
{
    let q = (d + c - 1) / (c as int);
    let r = (d + c - 1) % (c as int);
    assert((d + c - 1) == q * c + r && 0 <= r < c) by (nonlinear_arith)
        requires
            c >= 1,
            q == (d + c - 1) / (c as int),
            r == (d + c - 1) % (c as int),
    ;
    assert((q - 1) * c == q * c - c) by (nonlinear_arith);
    assert(q <= d) by (nonlinear_arith)
        requires
            c >= 1,
            d >= 0,
            (d + c - 1) == q * c + r,
            0 <= r < c,
    ;
    assert(q >= 0) by (nonlinear_arith)
        requires
            c >= 1,
            d >= 0,
            (d + c - 1) == q * c + r,
            0 <= r < c,
    ;
    assert(d > 0 ==> q >= 1) by (nonlinear_arith)
        requires
            c >= 1,
            q * c >= d,
    ;
}

/// The last fragment of a row, and no earlier one, reaches the end of the
/// row.
pub proof fn lemma_fragment_reach(len: nat, wrap_width: nat, k: nat)
    ensures
        fragment_count(len, wrap_width) >= 1,
        wrap_width >= 1 && len >= 1 ==> fragment_count(len, wrap_width) <= len,
        fragment_count(len, wrap_width) <= len + 1,
        k + 1 >= fragment_count(len, wrap_width) <==> fragment_end(len, wrap_width, k) >= len,
        fragment_start(len, wrap_width, k) <= fragment_end(len, wrap_width, k) <= len,
{
    let c = continuation_budget(wrap_width);
    if len > wrap_width {
        let d = (len - wrap_width) as nat;
        lemma_ceil(d, c);
        let q = (d + c - 1) / (c as int);
        if k >= q {
            assert(k * c >= q * c) by (nonlinear_arith)
                requires
                    k >= q,
                    c >= 1,
            ;
        } else {
            assert(k * c <= (q - 1) * c) by (nonlinear_arith)
                requires
                    k <= q - 1,
                    c >= 1,
            ;
        }
    }
    if k > 0 {
        assert((k - 1) * c <= k * c) by (nonlinear_arith)
            requires
                c >= 1,
        ;
    }
}

/// The first `k` fragments of a row hold the characters before the end of
/// the last of them.
pub proof fn lemma_covered(len: nat, wrap_width: nat, k: nat)
    requires
        k >= 1,
    ensures
        covered(len, wrap_width, k) == fragment_end(len, wrap_width, (k - 1) as nat),
    decreases k,
{
    if k > 1 {
        lemma_covered(len, wrap_width, (k - 1) as nat);
    } else {
        assert(covered(len, wrap_width, 0) == 0);
    }
}

/// For every width, the fragments of a row hold together as many characters
/// as the row has: wrapping loses none and shows none twice.
pub proof fn lemma_wrap_covers_row(len: nat, wrap_width: nat)
    ensures
        covered(len, wrap_width, fragment_count(len, wrap_width)) == len,
{
    let n = fragment_count(len, wrap_width);
    lemma_fragment_reach(len, wrap_width, (n - 1) as nat);
    lemma_covered(len, wrap_width, n);
}

/// Behind the screen lines of the rows from `top` up to `row`, the view
/// goes on as a view that starts at `row`.
pub proof fn lemma_piece_shift(s: Seq<char>, top: nat, row: nat, wrap_width: nat, m: nat)
    requires
        top <= row,
        row <= line_count(s) || row == top,
    ensures
        piece_at(s, top, wrap_width, rows_above(s, top, row, wrap_width) + m) == piece_at(
            s,
            row,
            wrap_width,
            m,
        ),
    decreases row,
{
    if row > top {
        let above = (row - 1) as nat;
        let n = fragment_count(line_length(s, above), wrap_width);
        lemma_piece_shift(s, top, above, wrap_width, n + m);
    }
}

/// Where a fragment ends short of its row, the next one holds one
/// continuation budget more, or what is left of the row.
pub proof fn lemma_fragment_step(len: nat, wrap_width: nat, k: nat)
    requires
        k >= 1,
    ensures
        fragment_end(len, wrap_width, 0) == if len <= wrap_width {
            len
        } else {
            wrap_width
        },
        fragment_end(len, wrap_width, (k - 1) as nat) < len ==> fragment_end(len, wrap_width, k)
            == if len - fragment_end(len, wrap_width, (k - 1) as nat) <= continuation_budget(
            wrap_width,
        ) {
            len
        } else {
            fragment_end(len, wrap_width, (k - 1) as nat) + continuation_budget(wrap_width)
        },
{
    let c = continuation_budget(wrap_width);
    assert(0 * c == 0) by (nonlinear_arith);
    assert((k - 1) * c + c == k * c) by (nonlinear_arith);
}

/// The number of fragments of a row of `len` characters on a screen that
/// is `wrap_width` columns wide.
pub fn count_fragments(len: usize, wrap_width: usize) -> (n: usize)
    requires
        wrap_width >= 1 || len < usize::MAX,
    ensures
        n == fragment_count(len as nat, wrap_width as nat),
{
    if len <= wrap_width {
        1
    } else {
        let budget: usize = if wrap_width > WRAP_PREFIX_LEN {
            wrap_width - WRAP_PREFIX_LEN
        } else {
            1
        };
        let rest = len - wrap_width;
        let whole = rest / budget;
        let part = rest % budget;
        proof {
            assert(rest == whole * budget + part && (whole + 1) * budget == whole * budget
                + budget) by (nonlinear_arith)
                requires
                    budget > 0,
                    whole == rest / budget,
                    part == rest % budget,
            ;
            if part > 0 {
                lemma_fundamental_div_mod_converse(
                    rest + budget - 1,
                    budget as int,
                    whole + 1,
                    part - 1,
                );
            } else {
                lemma_fundamental_div_mod_converse(
                    rest + budget - 1,
                    budget as int,
                    whole as int,
                    budget - 1,
                );
            }
        }
        if part > 0 {
            whole + 2
        } else {
            whole + 1
        }
    }
}

/// The screen lines of a view of `height` lines whose first line starts
/// row `top_row`: the fragments of that row and of those that follow, in
/// order, as far as they fit, and padding below the last row.
pub fn compute_visible_rows(doc: &Document, top_row: usize, height: usize, wrap_width: usize) -> (out:
    Vec<Fragment>)
    ensures
        out@.len() == height,
        forall|i: int|
            0 <= i < height ==> (#[trigger] out@[i])@ == piece_at(
                doc@.text,
                top_row as nat,
                wrap_width as nat,
                i as nat,
            ),
{
    let ghost s = doc@.text;
    let ghost w = wrap_width as nat;
    let ghost top = top_row as nat;
    let rows = doc.len();
    let budget: usize = if wrap_width > WRAP_PREFIX_LEN {
        wrap_width - WRAP_PREFIX_LEN
    } else {
        1
    };
    let mut out: Vec<Fragment> = Vec::new();
    let mut row = top_row;
    while out.len() < height && row < rows
        invariant
            s == doc@.text,
            w == wrap_width,
            top == top_row,
            rows == line_count(s),
            budget == continuation_budget(w),
            top_row <= row,
            row <= rows || row == top_row,
            out.len() <= height,
            out.len() < height ==> out.len() == rows_above(s, top, row as nat, w),
            forall|i: int| 0 <= i < out.len() ==> (#[trigger] out@[i])@ == piece_at(s, top, w, i as nat),
        decreases rows - row,
    {
        let len = doc.line_length(row);
        let ghost base = out.len() as nat;
        let ghost n = fragment_count(len as nat, w);
        let mut start: usize = 0;
        let mut k: usize = 0;
        let mut more = true;
        while more
            invariant
                s == doc@.text,
                w == wrap_width,
                top == top_row,
                rows == line_count(s),
                budget == continuation_budget(w),
                top_row <= row < rows,
                len == line_length(s, row as nat),
                n == fragment_count(len as nat, w),
                base == rows_above(s, top, row as nat, w),
                out.len() <= height,
                out.len() == base + k,
                k <= n,
                more ==> out.len() < height && k < n && start == fragment_start(len as nat, w, k as nat),
                !more ==> k == n || out.len() == height,
                forall|i: int| 0 <= i < out.len() ==> (#[trigger] out@[i])@ == piece_at(s, top, w, i as nat),
            decreases (n - k) + if more { 1int } else { 0int },
        {
            let limit = if k == 0 { wrap_width } else { budget };
            let end = if len - start <= limit { len } else { start + limit };
            proof {
                lemma_fragment_reach(len as nat, w, k as nat);
                lemma_fragment_step(len as nat, w, if k > 0 { k as nat } else { 1 });
                lemma_piece_shift(s, top, row as nat, w, k as nat);
            }
            out.push(Fragment { row, start, end, is_continuation: k > 0, is_padding: false });
            k += 1;
            start = end;
            more = start < len && out.len() < height;
        }
        row += 1;
    }
    let ghost base = out.len() as nat;
    while out.len() < height
        invariant
            top == top_row,
            top_row <= row,
            row <= line_count(s) || row == top_row,
            base <= out.len() <= height,
            base < height ==> row >= line_count(s),
            base < height ==> base == rows_above(s, top, row as nat, w),
            forall|i: int| 0 <= i < out.len() ==> (#[trigger] out@[i])@ == piece_at(s, top, w, i as nat),
        decreases height - out.len(),
    {
        proof {
            lemma_piece_shift(s, top, row as nat, w, (out.len() - base) as nat);
        }
        out.push(Fragment { row: 0, start: 0, end: 0, is_continuation: false, is_padding: true });
    }
    out
}

/// Where the cursor at `pos` appears in a view whose first line starts row
/// `top_row`: `y` is the screen line, counted from the first, and `x` the
/// column within it. The position is clamped first. The rows between the top
/// and the cursor count with all their fragments, the cursor's own row with
/// the fragments before the one that holds the cursor. A screen without
/// width puts the cursor in its corner.
pub fn project_cursor(doc: &Document, pos: &Position, top_row: usize, wrap_width: usize) -> (p:
    Position)
    ensures
        wrap_width == 0 ==> p.x == 0 && p.y == 0,
        p.x <= wrap_width + 1,
        wrap_width > 0 ==> p.x == cursor_column(
            clamp_col(doc@.text, clamp_row(doc@.text, pos.y as nat), pos.x as nat),
            wrap_width as nat,
        ) && p.y == cursor_line(
            doc@.text,
            clamp_row(doc@.text, pos.y as nat),
            clamp_col(doc@.text, clamp_row(doc@.text, pos.y as nat), pos.x as nat),
            top_row as nat,
            wrap_width as nat,
        ),
{
    if wrap_width == 0 {
        return Position { x: 0, y: 0 };
    }
    let ghost s = doc@.text;
    let ghost w = wrap_width as nat;
    let ghost top = top_row as nat;
    let at = doc.clamp_to_line(pos.y, pos.x);
    let rows = doc.len();
    let chars = doc.len_chars();
    let budget: usize = if wrap_width > WRAP_PREFIX_LEN {
        wrap_width - WRAP_PREFIX_LEN
    } else {
        1
    };
    let mut lines: usize = 0;
    let mut row = top_row;
    proof {
        lemma_line_start_bounds(s, top);
    }
    while row < at.y
        invariant
            s == doc@.text,
            w == wrap_width,
            w >= 1,
            top == top_row,
            rows == line_count(s),
            chars == s.len(),
            at.y <= rows,
            top_row <= row,
            row <= at.y || row == top_row,
            lines == rows_above(s, top, row as nat, w),
            row < rows ==> lines <= line_start(s, row as nat) - line_start(s, top),
            row < rows ==> lines < line_start(s, row as nat) - line_start(s, top) || lines <= row
                - top,
            0 <= line_start(s, top) <= s.len(),
        decreases at.y - row,
    {
        let len = doc.line_length(row);
        proof {
            lemma_line_start_bounds(s, row as nat);
            lemma_line_start_feeds(s, row as nat);
        }
        let n = count_fragments(len, wrap_width);
        lines = lines + n;
        row = row + 1;
    }
    proof {
        lemma_line_start_bounds(s, at.y as nat);
        if at.y >= rows {
            lemma_line_start_past_end(s, at.y as nat);
        }
    }
    if at.x < wrap_width {
        Position { x: at.x, y: lines }
    } else {
        let beyond = at.x - wrap_width;
        Position { x: WRAP_PREFIX_LEN + beyond % budget, y: lines + 1 + beyond / budget }
    }
}

/// The first row seen after the view, `visible_height` rows high, has
/// followed the cursor to row `row`. Only rows count: how many screen lines
/// a wrapped row takes plays no part.
pub fn scroll(row: usize, top_row: usize, visible_height: usize) -> (new_top: usize)
    requires
        visible_height > 0 || row < usize::MAX,
    ensures
        new_top == scrolled(row as nat, top_row as nat, visible_height as nat),
{
    if row < top_row {
        row
    } else if visible_height == 0 {
        row + 1
    } else if row - top_row >= visible_height {
        row - (visible_height - 1)
    } else {
        top_row
    }
}

/// The width of the margin for the row numbers of a document of `rows`
/// rows.
pub fn gutter_width(show_line_numbers: bool, rows: usize) -> (width: usize)
    ensures
        width == gutter(show_line_numbers, rows as nat),
{
    if !show_line_numbers {
        return 0;
    }
    let mut digits: usize = 1;
    let mut n = rows;
    while n >= 10
        invariant
            digits >= 1,
            9 * (digits - 1) <= rows - n,
            decimal_digits(rows as nat) == digits - 1 + decimal_digits(n as nat),
        decreases n,
    {
        n = n / 10;
        digits += 1;
    }
    digits + 2
}

} // verus!
