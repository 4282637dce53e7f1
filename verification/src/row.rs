//! One row of text with the highlighting of each of its characters.
//!
//! A row that starts with a header marker is a header throughout. A bullet
//! (`-`, `*` or `+` before a space) and a number before a full stop and a
//! space are list markers. A stretch between two pairs of stars is bold, one
//! between two single stars is italic where nothing else has marked it.

use vstd::prelude::*;
use vstd::std_specs::convert::FromSpecImpl;
use vstd::string::StrSliceExecFns;
use vstd::utf8::encode_utf8;
use crate::chars::{from_chars, to_chars};
use crate::highlighting::Type;

verus! {

/// Whether `c` is a numeric character, as Unicode classes it.
pub uninterp spec fn is_numeric_char(c: char) -> bool;

/// `char::is_numeric`: whether Unicode classes `c` as a number.
#[verifier::external_body]
fn char_is_numeric(c: char) -> (b: bool)
    ensures
        b == is_numeric_char(c),
{
    c.is_numeric()
}

/// The index of the first star of `c` at or behind `from`, or the length of
/// `c` where there is none.
pub open spec fn next_star(c: Seq<char>, from: int) -> int
    decreases c.len() - from,
{
    if from < 0 || from >= c.len() {
        c.len() as int
    } else if c[from] == '*' {
        from
    } else {
        next_star(c, from + 1)
    }
}

/// The index of the first pair of stars of `c` at or behind `from`, or the
/// length of `c` where there is none.
pub open spec fn next_pair(c: Seq<char>, from: int) -> int
    decreases c.len() - from,
{
    if from < 0 || from + 1 >= c.len() {
        c.len() as int
    } else if c[from] == '*' && c[from + 1] == '*' {
        from
    } else {
        next_pair(c, from + 1)
    }
}

/// `hl` with the characters from `from` up to, not including, `to` marked
/// bold.
pub open spec fn mark_bold(hl: Seq<Type>, from: int, to: int) -> Seq<Type> {
    Seq::new(hl.len(), |j: int| if from <= j < to { Type::Bold } else { hl[j] })
}

/// `hl` with the characters from `from` up to, not including, `to` marked
/// italic where they have no mark yet.
pub open spec fn mark_italic(hl: Seq<Type>, from: int, to: int) -> Seq<Type> {
    Seq::new(
        hl.len(),
        |j: int| if from <= j < to && hl[j] == Type::Plain { Type::Italic } else { hl[j] },
    )
}

/// The marks of a row before bold and italic stretches are looked for.
/// `numeric_first` tells whether the first character is numeric.
pub open spec fn block_marks(c: Seq<char>, numeric_first: bool) -> Seq<Type> {
    let header = c.len() > 0 && c[0] == '#';
    let bullet = c.len() >= 2 && (c[0] == '-' || c[0] == '*' || c[0] == '+') && c[1] == ' ';
    let numbered = c.len() > 2 && numeric_first && c[1] == '.' && c[2] == ' ';
    Seq::new(
        c.len(),
        |j: int| if numbered && j < 2 {
            Type::List
        } else if bullet && j == 0 {
            Type::List
        } else if header {
            Type::Header
        } else {
            Type::Plain
        },
    )
}

/// `hl` with the bold and italic stretches of `c` marked that start at or
/// behind `i`. A pair of stars opens a bold stretch, which the next pair
/// closes; a single star opens an italic stretch, which the next star closes.
/// Behind a stretch that nothing closes no further stretch is marked.
pub open spec fn inline_marks(c: Seq<char>, hl: Seq<Type>, i: int) -> Seq<Type>
    decreases c.len() - i,
{
    if i < 0 || i >= c.len() {
        hl
    } else if c[i] == '*' && i + 1 < c.len() && c[i + 1] == '*' {
        let k = next_pair(c, i + 2);
        if i + 2 <= k && k + 1 < c.len() {
            inline_marks(c, mark_bold(hl, i, k + 2), k + 2)
        } else {
            hl
        }
    } else if c[i] == '*' {
        let k = next_star(c, i + 1);
        if i + 1 <= k < c.len() {
            inline_marks(c, mark_italic(hl, i, k + 1), k + 1)
        } else {
            hl
        }
    } else {
        inline_marks(c, hl, i + 1)
    }
}

/// The highlighting of the row `c`.
pub open spec fn highlights(c: Seq<char>, numeric_first: bool) -> Seq<Type> {
    inline_marks(c, block_marks(c, numeric_first), 0)
}

/// Finds the first star of `chars` at or behind `from`.
fn find_star(chars: &Vec<char>, from: usize) -> (k: usize)
    requires
        from <= chars.len(),
    ensures
        k == next_star(chars@, from as int),
        from <= k <= chars.len(),
{
    let mut k = from;
    while k < chars.len() && chars[k] != '*'
        invariant
            from <= k <= chars.len(),
            next_star(chars@, from as int) == next_star(chars@, k as int),
        decreases chars.len() - k,
    {
        k += 1;
    }
    k
}

/// Finds the first pair of stars of `chars` at or behind `from`.
fn find_pair(chars: &Vec<char>, from: usize) -> (k: usize)
    requires
        from <= chars.len(),
    ensures
        k == next_pair(chars@, from as int),
        from <= k <= chars.len(),
        k < chars.len() ==> k + 1 < chars.len(),
{
    let n = chars.len();
    let mut k = from;
    while k < n && n - k > 1 && !(chars[k] == '*' && chars[k + 1] == '*')
        invariant
            n == chars.len(),
            from <= k <= n,
            next_pair(chars@, from as int) == next_pair(chars@, k as int),
        decreases n - k,
    {
        k += 1;
    }
    if k < n && n - k > 1 {
        k
    } else {
        n
    }
}

/// The highlighting of each character of a row. `numeric_first` tells
/// whether the first character of the row is numeric.
pub fn highlight_chars(chars: &Vec<char>, numeric_first: bool) -> (hl: Vec<Type>)
    ensures
        hl@ == highlights(chars@, numeric_first),
{
    let n = chars.len();
    let header = n > 0 && chars[0] == '#';
    let bullet = n >= 2 && (chars[0] == '-' || chars[0] == '*' || chars[0] == '+') && chars[1]
        == ' ';
    let numbered = n > 2 && numeric_first && chars[1] == '.' && chars[2] == ' ';
    let mut hl: Vec<Type> = Vec::new();
    let mut j: usize = 0;
    while j < n
        invariant
            j <= n,
            n == chars.len(),
            hl@ == block_marks(chars@, numeric_first).take(j as int),
            header == (n > 0 && chars@[0] == '#'),
            bullet == (n >= 2 && (chars@[0] == '-' || chars@[0] == '*' || chars@[0] == '+')
                && chars@[1] == ' '),
            numbered == (n > 2 && numeric_first && chars@[1] == '.' && chars@[2] == ' '),
        decreases n - j,
    {
        let mark = if numbered && j < 2 {
            Type::List
        } else if bullet && j == 0 {
            Type::List
        } else if header {
            Type::Header
        } else {
            Type::Plain
        };
        hl.push(mark);
        j += 1;
    }
    assert(hl@ =~= block_marks(chars@, numeric_first));
    let mut i: usize = 0;
    while i < n
        invariant
            i <= n,
            n == chars.len(),
            hl@.len() == n,
            highlights(chars@, numeric_first) == inline_marks(chars@, hl@, i as int),
        decreases n - i,
    {
        if chars[i] == '*' && n - i > 1 && chars[i + 1] == '*' {
            let k = find_pair(chars, i + 2);
            if k < n {
                let ghost before = hl@;
                let mut j = i;
                while j < k + 2
                    invariant
                        i <= j <= k + 2 <= n,
                        hl@.len() == n,
                        before.len() == n,
                        hl@ == mark_bold(before, i as int, j as int),
                    decreases k + 2 - j,
                {
                    hl.set(j, Type::Bold);
                    j += 1;
                }
                i = k + 2;
            } else {
                i = n;
            }
        } else if chars[i] == '*' {
            let k = find_star(chars, i + 1);
            if k < n {
                let ghost before = hl@;
                let mut j = i;
                while j < k + 1
                    invariant
                        i <= j <= k + 1 <= n,
                        hl@.len() == n,
                        before.len() == n,
                        hl@ == mark_italic(before, i as int, j as int),
                    decreases k + 1 - j,
                {
                    if hl[j] == Type::Plain {
                        hl.set(j, Type::Italic);
                    }
                    j += 1;
                }
                i = k + 1;
            } else {
                i = n;
            }
        } else {
            i += 1;
        }
    }
    hl
}

/// Whether the first character of `c` is numeric.
pub open spec fn starts_numeric(c: Seq<char>) -> bool {
    c.len() > 0 && is_numeric_char(c[0])
}

/// A row of text: its characters, and for each of them how it is
/// highlighted.
pub struct Row {
    chars: Vec<char>,
    highlighting: Vec<Type>,
}

impl View for Row {
    type V = Seq<char>;

    closed spec fn view(&self) -> Seq<char> {
        self.chars@
    }
}

impl Row {
    /// The highlighting that the row holds for its characters.
    pub closed spec fn marks(&self) -> Seq<Type> {
        self.highlighting@
    }

    /// Whether the highlighting that the row holds is that of its
    /// characters.
    pub open spec fn is_highlighted(&self) -> bool {
        self.marks() == highlights(self@, starts_numeric(self@))
    }

    /// The highlighting of each character.
    pub fn highlighting(&self) -> (marks: &Vec<Type>)
        ensures
            marks@ == self.marks(),
    {
        &self.highlighting
    }

    /// The row of the characters `chars`, highlighted.
    pub fn from_chars(chars: Vec<char>) -> (row: Row)
        ensures
            row@ == chars@,
            row.is_highlighted(),
    {
        let mut row = Row { chars, highlighting: Vec::new() };
        row.highlight();
        row
    }

    /// The characters from column `start` up to, not including, `end`. An
    /// `end` behind the row is taken as the end of the row, and a `start`
    /// behind `end` as `end`.
    pub fn render(&self, start: usize, end: usize) -> (s: String)
        ensures
            s@ == self@.subrange(
                if start <= end && start <= self@.len() {
                    start as int
                } else if end <= self@.len() {
                    end as int
                } else {
                    self@.len() as int
                },
                if end <= self@.len() {
                    end as int
                } else {
                    self@.len() as int
                },
            ),
    {
        let n = self.chars.len();
        let end = if end <= n { end } else { n };
        let start = if start <= end { start } else { end };
        let mut part: Vec<char> = Vec::new();
        let mut i = start;
        while i < end
            invariant
                start <= i <= end <= self.chars.len(),
                part@ == self.chars@.subrange(start as int, i as int),
            decreases end - i,
        {
            part.push(self.chars[i]);
            i += 1;
        }
        from_chars(&part)
    }

    /// The number of characters of the row.
    pub fn len(&self) -> (n: usize)
        ensures
            n == self@.len(),
    {
        self.chars.len()
    }

    /// Puts `c` before column `at`, or at the end of the row where `at` lies
    /// behind it, and highlights the row anew.
    pub fn insert(&mut self, at: usize, c: char)
        ensures
            at < old(self)@.len() ==> final(self)@ == old(self)@.insert(at as int, c),
            at >= old(self)@.len() ==> final(self)@ == old(self)@.push(c),
            final(self).is_highlighted(),
    {
        if at >= self.chars.len() {
            self.chars.push(c);
        } else {
            self.chars.insert(at, c);
        }
        self.highlight();
    }

    /// Takes out the character at column `at`, if the row has one there,
    /// and highlights the row anew.
    pub fn delete(&mut self, at: usize)
        ensures
            at < old(self)@.len() ==> final(self)@ == old(self)@.remove(at as int),
            at >= old(self)@.len() ==> final(self)@ == old(self)@,
            final(self).is_highlighted(),
    {
        if at < self.chars.len() {
            self.chars.remove(at);
        }
        self.highlight();
    }

    /// Adds the characters of `new` at the end of the row, and highlights
    /// the row anew.
    pub fn append(&mut self, new: &Row)
        ensures
            final(self)@ == old(self)@ + new@,
            final(self).is_highlighted(),
    {
        let mut i: usize = 0;
        while i < new.chars.len()
            invariant
                i <= new.chars.len(),
                self.chars@ == old(self).chars@ + new.chars@.take(i as int),
            decreases new.chars.len() - i,
        {
            self.chars.push(new.chars[i]);
            i += 1;
        }
        self.highlight();
    }

    /// Cuts the row before column `at`, or at its end where `at` lies behind
    /// it: the row keeps what stands before the cut, and what stands behind
    /// it is handed out as a row of its own. Both are highlighted anew.
    pub fn split(&mut self, at: usize) -> (rest: Row)
        ensures
            at <= old(self)@.len() ==> final(self)@ == old(self)@.subrange(0, at as int) && rest@
                == old(self)@.subrange(at as int, old(self)@.len() as int),
            at > old(self)@.len() ==> final(self)@ == old(self)@ && rest@ == Seq::<char>::empty(),
            final(self).is_highlighted(),
            rest.is_highlighted(),
    {
        let n = self.chars.len();
        let cut = if at <= n { at } else { n };
        let remainder = self.chars.split_off(cut);
        self.highlight();
        Row::from_chars(remainder)
    }

    /// The row's characters as bytes, in UTF-8.
    pub fn as_bytes(&self) -> (bytes: Vec<u8>)
        ensures
            bytes@ == encode_utf8(self@),
    {
        let s = from_chars(&self.chars);
        s.as_str().as_bytes_vec()
    }

    /// Works out the highlighting of the row from its characters.
    pub fn highlight(&mut self)
        ensures
            final(self)@ == old(self)@,
            final(self).is_highlighted(),
    {
        let numeric_first = if self.chars.len() > 0 {
            char_is_numeric(self.chars[0])
        } else {
            false
        };
        self.highlighting = highlight_chars(&self.chars, numeric_first);
    }
}

impl<'a> FromSpecImpl<&'a str> for Row {
    open spec fn obeys_from_spec() -> bool {
        false
    }

    open spec fn from_spec(v: &'a str) -> Row {
        arbitrary()
    }
}

impl<'a> From<&'a str> for Row {
    /// The row of the characters of `slice`, highlighted.
    fn from(slice: &'a str) -> (row: Row)
        ensures
            row@ == slice@,
            row.is_highlighted(),
    {
        Row::from_chars(to_chars(slice))
    }
}

} // verus!
