//! Cutting a line of text into fields and words, and reading a number.

use vstd::prelude::*;
use crate::chars::{is_space, is_whitespace};

verus! {

/// The fields of `s` that the separator `sep` parts: one more than `s`
/// holds separators, some of them empty perhaps.
pub open spec fn split_on(s: Seq<char>, sep: char) -> Seq<Seq<char>>
    decreases s.len(),
{
    if s.len() == 0 {
        seq![Seq::<char>::empty()]
    } else {
        let before = split_on(s.drop_last(), sep);
        if s.last() == sep {
            before.push(Seq::<char>::empty())
        } else {
            before.drop_last().push(before.last().push(s.last()))
        }
    }
}

/// The words of `s`: its longest stretches without white space.
pub open spec fn words(s: Seq<char>) -> Seq<Seq<char>>
    decreases s.len(),
{
    if s.len() == 0 {
        Seq::<Seq<char>>::empty()
    } else {
        let before = words(s.drop_last());
        if is_space(s.last()) {
            before
        } else if s.len() >= 2 && !is_space(s[s.len() - 2]) && before.len() > 0 {
            before.drop_last().push(before.last().push(s.last()))
        } else {
            before.push(seq![s.last()])
        }
    }
}

/// Whether `c` is one of the digits `0` to `9`.
pub open spec fn is_digit(c: char) -> bool {
    '0' <= c <= '9'
}

/// The value of the digit `c`.
pub open spec fn digit_value(c: char) -> nat {
    (c as nat - '0' as nat) as nat
}

/// Whether `s` holds digits only.
pub open spec fn all_digits(s: Seq<char>) -> bool {
    forall|i: int| 0 <= i < s.len() ==> is_digit(#[trigger] s[i])
}

/// The number that the digits `s` write in base ten.
pub open spec fn number_of(s: Seq<char>) -> nat
    decreases s.len(),
{
    if s.len() == 0 {
        0
    } else {
        number_of(s.drop_last()) * 10 + digit_value(s.last())
    }
}

/// The digits of a number written as `s`: `s` itself, without the plus sign
/// that may stand before them.
pub open spec fn unsigned(s: Seq<char>) -> Seq<char> {
    if s.len() > 0 && s[0] == '+' {
        s.drop_first()
    } else {
        s
    }
}

/// The number that `s` writes, if it writes one that the machine can hold:
/// at least one digit, with a plus sign before them or without.
pub open spec fn parse_number(s: Seq<char>) -> Option<nat> {
    let digits = unsigned(s);
    if digits.len() > 0 && all_digits(digits) && number_of(digits) <= usize::MAX {
        Some(number_of(digits))
    } else {
        None
    }
}

/// The texts of a vector of fields.
pub open spec fn fields_view(fields: Seq<Vec<char>>) -> Seq<Seq<char>> {
    fields.map_values(|f: Vec<char>| f@)
}

/// More digits never write a smaller number.
pub proof fn lemma_number_grows(s: Seq<char>, k: int)
    requires
        0 <= k <= s.len(),
    ensures
        number_of(s.take(k)) <= number_of(s),
    decreases s.len() - k,
{
    if k < s.len() {
        lemma_number_grows(s, k + 1);
        assert(s.take(k + 1).drop_last() =~= s.take(k));
    } else {
        assert(s.take(k) =~= s);
    }
}

/// Cuts `text` into the fields that `sep` parts.
pub fn split_fields(text: &Vec<char>, sep: char) -> (fields: Vec<Vec<char>>)
    ensures
        fields_view(fields@) == split_on(text@, sep),
{
    let mut done: Vec<Vec<char>> = Vec::new();
    let mut current: Vec<char> = Vec::new();
    let mut i: usize = 0;
    while i < text.len()
        invariant
            i <= text.len(),
            split_on(text@.take(i as int), sep) == fields_view(done@).push(current@),
        decreases text.len() - i,
    {
        assert(text@.take(i + 1).drop_last() =~= text@.take(i as int));
        if text[i] == sep {
            done.push(current);
            current = Vec::new();
        } else {
            current.push(text[i]);
        }
        i += 1;
    }
    assert(text@.take(text.len() as int) =~= text@);
    done.push(current);
    done
}

/// Cuts `text` into its words.
pub fn split_words(text: &Vec<char>) -> (found: Vec<Vec<char>>)
    ensures
        fields_view(found@) == words(text@),
{
    let mut done: Vec<Vec<char>> = Vec::new();
    let mut current: Vec<char> = Vec::new();
    let mut in_word = false;
    let mut i: usize = 0;
    while i < text.len()
        invariant
            i <= text.len(),
            in_word == (i > 0 && !is_space(text@[i - 1])),
            in_word ==> words(text@.take(i as int)) == fields_view(done@).push(current@),
            !in_word ==> words(text@.take(i as int)) == fields_view(done@),
        decreases text.len() - i,
    {
        assert(text@.take(i + 1).drop_last() =~= text@.take(i as int));
        if is_whitespace(text[i]) {
            if in_word {
                done.push(current);
                current = Vec::new();
            }
            in_word = false;
        } else {
            if !in_word {
                current = Vec::new();
            }
            current.push(text[i]);
            in_word = true;
        }
        i += 1;
    }
    assert(text@.take(text.len() as int) =~= text@);
    if in_word {
        done.push(current);
    }
    done
}

/// Reads the number that `text` writes.
pub fn read_number(text: &Vec<char>) -> (value: Option<usize>)
    ensures
        match value {
            Some(n) => parse_number(text@) == Some(n as nat),
            None => parse_number(text@) is None,
        },
{
    let n = text.len();
    let first: usize = if n > 0 && text[0] == '+' { 1 } else { 0 };
    let ghost digits = unsigned(text@);
    if first == n {
        return None;
    }
    let mut value: usize = 0;
    let mut i: usize = first;
    while i < n
        invariant
            first <= i <= n,
            n == text.len(),
            digits == text@.subrange(first as int, n as int),
            digits == unsigned(text@),
            all_digits(digits.take(i - first)),
            value == number_of(digits.take(i - first)),
        decreases n - i,
    {
        let c = text[i];
        assert(digits[i - first] == c);
        assert(digits.take(i - first + 1).drop_last() =~= digits.take(i - first));
        if !('0' <= c && c <= '9') {
            return None;
        }
        let d: usize = (c as u32 - '0' as u32) as usize;
        proof {
            lemma_number_grows(digits, i - first + 1);
        }
        if value > (usize::MAX - d) / 10 {
            return None;
        }
        value = value * 10 + d;
        i += 1;
    }
    assert(digits.take(n - first) =~= digits);
    Some(value)
}

} // verus!
