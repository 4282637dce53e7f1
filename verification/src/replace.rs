//! Replacing every occurrence of one text in another.
//!
//! Occurrences are found from the left and do not overlap: behind an
//! occurrence the search goes on at the first character that follows it. An
//! empty target occurs once before every character and once at the end.

use vstd::prelude::*;

verus! {

/// Whether `target` stands in `text` at index `i`.
pub open spec fn matches_at(text: Seq<char>, target: Seq<char>, i: int) -> bool {
    &&& 0 <= i
    &&& i + target.len() <= text.len()
    &&& text.subrange(i, i + target.len()) == target
}

/// The number of occurrences of `target` that a search of `text` from index
/// `i` on finds.
pub open spec fn count_from(text: Seq<char>, target: Seq<char>, i: int) -> nat
    decreases text.len() - i,
{
    if i < 0 || i > text.len() {
        0
    } else if target.len() == 0 {
        (text.len() - i + 1) as nat
    } else if i == text.len() {
        0
    } else if matches_at(text, target, i) {
        1 + count_from(text, target, i + target.len())
    } else {
        count_from(text, target, i + 1)
    }
}

/// The characters of `text` from index `i` on, with `replacement` in place
/// of every occurrence of `target`.
pub open spec fn replace_from(
    text: Seq<char>,
    target: Seq<char>,
    replacement: Seq<char>,
    i: int,
) -> Seq<char>
    decreases text.len() - i,
{
    if i < 0 || i > text.len() {
        Seq::empty()
    } else if i == text.len() {
        if target.len() == 0 {
            replacement
        } else {
            Seq::empty()
        }
    } else if target.len() == 0 {
        replacement + seq![text[i]] + replace_from(text, target, replacement, i + 1)
    } else if matches_at(text, target, i) {
        replacement + replace_from(text, target, replacement, i + target.len())
    } else {
        seq![text[i]] + replace_from(text, target, replacement, i + 1)
    }
}

/// The number of occurrences of `target` in `text`.
pub open spec fn count_matches(text: Seq<char>, target: Seq<char>) -> nat {
    count_from(text, target, 0)
}

/// `text` with `replacement` in place of every occurrence of `target`.
pub open spec fn replace_all(text: Seq<char>, target: Seq<char>, replacement: Seq<char>) -> Seq<
    char,
> {
    replace_from(text, target, replacement, 0)
}

/// Tells whether `target` stands in `text` at index `i`.
pub fn occurs_at(text: &Vec<char>, target: &Vec<char>, i: usize) -> (found: bool)
    ensures
        found == matches_at(text@, target@, i as int),
{
    if i > text.len() || target.len() > text.len() - i {
        return false;
    }
    let mut k: usize = 0;
    while k < target.len()
        invariant
            k <= target.len(),
            i + target.len() <= text.len(),
            forall|j: int| 0 <= j < k ==> text@[i + j] == target@[j],
        decreases target.len() - k,
    {
        if text[i + k] != target[k] {
            return false;
        }
        k += 1;
    }
    assert(text@.subrange(i as int, i + target.len()) =~= target@);
    true
}

/// Appends the characters of `part` to `out`.
pub fn append_chars(out: &mut Vec<char>, part: &Vec<char>)
    ensures
        final(out)@ == old(out)@ + part@,
{
    let mut k: usize = 0;
    while k < part.len()
        invariant
            k <= part.len(),
            out@ == old(out)@ + part@.take(k as int),
        decreases part.len() - k,
    {
        out.push(part[k]);
        k += 1;
    }
}

/// Replaces every occurrence of `target` in `text` by `replacement`, and
/// counts them.
pub fn replace_chars(text: &Vec<char>, target: &Vec<char>, replacement: &Vec<char>) -> (res: (
    Vec<char>,
    usize,
))
    requires
        target@.len() > 0 || text@.len() < usize::MAX,
    ensures
        res.0@ == replace_all(text@, target@, replacement@),
        res.1 == count_matches(text@, target@),
{
    let mut out: Vec<char> = Vec::new();
    let mut count: usize = 0;
    let mut i: usize = 0;
    if target.len() == 0 {
        while i < text.len()
            invariant
                i <= text.len(),
                target@.len() == 0,
                count == i,
                replace_all(text@, target@, replacement@) == out@ + replace_from(
                    text@,
                    target@,
                    replacement@,
                    i as int,
                ),
            decreases text.len() - i,
        {
            append_chars(&mut out, replacement);
            out.push(text[i]);
            i += 1;
            count += 1;
        }
        append_chars(&mut out, replacement);
        return (out, count + 1);
    }
    while i < text.len()
        invariant
            i <= text.len(),
            target@.len() > 0,
            count <= i,
            count_matches(text@, target@) == count + count_from(text@, target@, i as int),
            replace_all(text@, target@, replacement@) == out@ + replace_from(
                text@,
                target@,
                replacement@,
                i as int,
            ),
        decreases text.len() - i,
    {
        if occurs_at(text, target, i) {
            append_chars(&mut out, replacement);
            i += target.len();
            count += 1;
        } else {
            out.push(text[i]);
            i += 1;
        }
    }
    (out, count)
}

} // verus!
