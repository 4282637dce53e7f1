use vellum::document::Document;
use vellum::position::Position;
use vellum::search::{find_in_line, find_next};

fn doc(text: &str) -> Document {
    Document::open("notes.md", Ok(text.as_bytes().to_vec())).unwrap()
}

fn at(x: usize, y: usize) -> Position {
    Position { x, y }
}

fn chars(s: &str) -> Vec<char> {
    s.chars().collect()
}

#[test]
fn find_in_line_gives_first_column_from_start() {
    assert_eq!(find_in_line(&chars("abcabc"), &chars("bc"), 0), Some(1));
    assert_eq!(find_in_line(&chars("abcabc"), &chars("bc"), 1), Some(1));
    assert_eq!(find_in_line(&chars("abcabc"), &chars("bc"), 2), Some(4));
    assert_eq!(find_in_line(&chars("abcabc"), &chars("bc"), 5), None);
    assert_eq!(find_in_line(&chars("abcabc"), &chars("x"), 0), None);
    assert_eq!(find_in_line(&chars("abc"), &chars("abcd"), 0), None);
    assert_eq!(find_in_line(&chars("abc"), &chars(""), 3), Some(3));
    assert_eq!(find_in_line(&chars("abc"), &chars(""), 4), None);
    assert_eq!(find_in_line(&chars("日本語"), &chars("語"), 0), Some(2));
}

#[test]
fn find_next_starts_in_the_row_of_the_cursor() {
    let d = doc("x one\ntwo x\nx");
    assert_eq!(find_next(&d, "x", &at(1, 1)), Some(at(4, 1)));
    assert_eq!(find_next(&d, "x", &at(4, 1)), Some(at(0, 2)));
    assert_eq!(find_next(&d, "x", &at(0, 2)), Some(at(0, 0)));
    assert_eq!(find_next(&d, "x", &at(0, 0)), Some(at(4, 1)));
}

#[test]
fn find_next_in_start_row_counts_only_what_lies_behind() {
    let d = doc("ab ab ab\nzz");
    assert_eq!(find_next(&d, "ab", &at(0, 0)), Some(at(3, 0)));
    assert_eq!(find_next(&d, "ab", &at(3, 0)), Some(at(6, 0)));
    assert_eq!(find_next(&d, "ab", &at(6, 0)), None);
    assert_eq!(find_next(&d, "ab", &at(0, 1)), Some(at(0, 0)));
}

#[test]
fn find_next_wraps_to_the_first_row() {
    let d = doc("needle\nb\nc");
    assert_eq!(find_next(&d, "needle", &at(0, 2)), Some(at(0, 0)));
    assert_eq!(find_next(&d, "needle", &at(0, 1)), Some(at(0, 0)));
}

#[test]
fn find_next_reports_not_found() {
    let d = doc("a\nb\nc");
    assert_eq!(find_next(&d, "z", &at(0, 0)), None);
    assert_eq!(find_next(&d, "z", &at(0, 3)), None);
    assert_eq!(find_next(&d, "z", &at(7, 9)), None);
    assert_eq!(find_next(&d, "a\nb", &at(0, 2)), None);
}

#[test]
fn find_next_from_a_row_past_the_end_starts_at_the_top() {
    let d = doc("a\nb x\nc");
    assert_eq!(find_next(&d, "x", &at(0, 3)), Some(at(2, 1)));
    assert_eq!(find_next(&d, "x", &at(5, 100)), Some(at(2, 1)));
    assert_eq!(find_next(&d, "a", &at(usize::MAX, usize::MAX)), Some(at(0, 0)));
}

#[test]
fn find_next_locates_single_occurrence_from_everywhere() {
    let d = doc("aaa\nbbb\ncXc\nddd\n");
    let target = at(1, 2);
    for y in 0..=d.len() {
        for x in 0..=3 {
            if y == target.y && x >= target.x {
                assert_eq!(find_next(&d, "X", &at(x, y)), None);
            } else {
                assert_eq!(find_next(&d, "X", &at(x, y)), Some(target));
            }
        }
    }
}

#[test]
fn find_next_counts_columns_in_characters() {
    let d = doc("日本語 x");
    assert_eq!(find_next(&d, "x", &at(0, 0)), Some(at(4, 0)));
}
