use vellum::chars::{from_chars, is_control, is_whitespace, to_chars};
use vellum::parse::{read_number, split_fields, split_words};
use vellum::replace::{append_chars, occurs_at, replace_chars};
use vellum::textfmt::{
    append_spaces, decimal_chars, digit, pad_left_chars, truncate_chars,
};

fn chars(s: &str) -> Vec<char> {
    s.chars().collect()
}

fn strings(fields: Vec<Vec<char>>) -> Vec<String> {
    fields.iter().map(|f| f.iter().collect()).collect()
}

#[test]
fn chars_and_strings_convert_both_ways() {
    assert_eq!(to_chars("aé日"), vec!['a', 'é', '日']);
    assert_eq!(to_chars(""), Vec::<char>::new());
    assert_eq!(from_chars(&vec!['a', 'é', '日']), "aé日");
    assert_eq!(from_chars(&vec![]), "");
}

#[test]
fn white_space_is_what_unicode_says() {
    for c in ['\t', '\n', '\u{b}', '\u{c}', '\r', ' ', '\u{85}', '\u{a0}', '\u{1680}', '\u{2000}',
        '\u{2005}', '\u{200a}', '\u{2028}', '\u{2029}', '\u{202f}', '\u{205f}', '\u{3000}']
    {
        assert!(is_whitespace(c));
    }
    for c in ['a', '0', '#', '\u{8}', '\u{e}', '\u{200b}', '\u{180e}', '\u{feff}'] {
        assert!(!is_whitespace(c));
    }
    for code in 0..0x3100u32 {
        if let Some(c) = char::from_u32(code) {
            assert_eq!(is_whitespace(c), c.is_whitespace());
            assert_eq!(is_control(c), c.is_control());
        }
    }
}

#[test]
fn occurs_at_compares_in_place() {
    assert!(occurs_at(&chars("abcd"), &chars("bc"), 1));
    assert!(!occurs_at(&chars("abcd"), &chars("bc"), 0));
    assert!(!occurs_at(&chars("abcd"), &chars("cde"), 2));
    assert!(occurs_at(&chars("abcd"), &chars(""), 4));
    assert!(!occurs_at(&chars("abcd"), &chars(""), 5));
    assert!(!occurs_at(&chars("abcd"), &chars("a"), usize::MAX));
}

#[test]
fn append_chars_adds_at_the_end() {
    let mut out = chars("ab");
    append_chars(&mut out, &chars("cd"));
    assert_eq!(out, chars("abcd"));
    append_chars(&mut out, &chars(""));
    assert_eq!(out, chars("abcd"));
}

#[test]
fn replace_chars_replaces_from_the_left() {
    assert_eq!(replace_chars(&chars("abab"), &chars("ab"), &chars("x")), (chars("xx"), 2));
    assert_eq!(replace_chars(&chars("aaa"), &chars("aa"), &chars("b")), (chars("ba"), 1));
    assert_eq!(replace_chars(&chars("abc"), &chars("abcd"), &chars("x")), (chars("abc"), 0));
    assert_eq!(replace_chars(&chars(""), &chars("a"), &chars("x")), (chars(""), 0));
    assert_eq!(replace_chars(&chars(""), &chars(""), &chars("x")), (chars("x"), 1));
    assert_eq!(replace_chars(&chars("ab"), &chars(""), &chars("-")), (chars("-a-b-"), 3));
    assert_eq!(replace_chars(&chars("a.b"), &chars("."), &chars("")), (chars("ab"), 1));
    for (text, target, with) in [("aXbXXc", "X", "yy"), ("abcabc", "bc", ""), ("aaaa", "a", "aa")] {
        let (out, count) = replace_chars(&chars(text), &chars(target), &chars(with));
        assert_eq!(out.iter().collect::<String>(), text.replace(target, with));
        assert_eq!(count, text.matches(target).count());
    }
}

#[test]
fn digits_and_numbers_are_written_in_base_ten() {
    assert_eq!(digit(0), '0');
    assert_eq!(digit(7), '7');
    assert_eq!(digit(9), '9');
    assert_eq!(decimal_chars(0), chars("0"));
    assert_eq!(decimal_chars(9), chars("9"));
    assert_eq!(decimal_chars(10), chars("10"));
    assert_eq!(decimal_chars(1234567890), chars("1234567890"));
    assert_eq!(decimal_chars(u64::MAX as u128 + 1), chars("18446744073709551616"));
}

#[test]
fn padding_and_truncation() {
    assert_eq!(pad_left_chars(&chars("7"), 3), chars("  7"));
    assert_eq!(pad_left_chars(&chars("1234"), 3), chars("1234"));
    assert_eq!(pad_left_chars(&chars(""), 2), chars("  "));
    assert_eq!(pad_left_chars(&chars("ab"), 0), chars("ab"));
    let mut out = chars("a");
    append_spaces(&mut out, 3);
    assert_eq!(out, chars("a   "));
    let mut text = chars("abcdef");
    truncate_chars(&mut text, 4);
    assert_eq!(text, chars("abcd"));
    truncate_chars(&mut text, 9);
    assert_eq!(text, chars("abcd"));
    truncate_chars(&mut text, 0);
    assert_eq!(text, chars(""));
}

#[test]
fn fields_are_parted_by_the_separator() {
    assert_eq!(strings(split_fields(&chars("s/a/b"), '/')), vec!["s", "a", "b"]);
    assert_eq!(strings(split_fields(&chars("s//"), '/')), vec!["s", "", ""]);
    assert_eq!(strings(split_fields(&chars(""), '/')), vec![""]);
    assert_eq!(strings(split_fields(&chars("/"), '/')), vec!["", ""]);
    assert_eq!(strings(split_fields(&chars("a b/c d"), '/')), vec!["a b", "c d"]);
    for text in ["a/b/c/", "//x//", "no separator"] {
        let expected: Vec<String> = text.split('/').map(|s| s.to_string()).collect();
        assert_eq!(strings(split_fields(&chars(text), '/')), expected);
    }
}

#[test]
fn words_are_parted_by_white_space() {
    assert_eq!(strings(split_words(&chars("head 2"))), vec!["head", "2"]);
    assert_eq!(strings(split_words(&chars("  a \t b\u{a0}c  "))), vec!["a", "b", "c"]);
    assert_eq!(strings(split_words(&chars(""))), Vec::<String>::new());
    assert_eq!(strings(split_words(&chars(" \n "))), Vec::<String>::new());
    for text in ["one", " one two  three ", "a\tb\nc\rd", "x "] {
        let expected: Vec<String> = text.split_whitespace().map(|s| s.to_string()).collect();
        assert_eq!(strings(split_words(&chars(text))), expected);
    }
}

#[test]
fn numbers_are_read_as_the_machine_holds_them() {
    assert_eq!(read_number(&chars("0")), Some(0));
    assert_eq!(read_number(&chars("42")), Some(42));
    assert_eq!(read_number(&chars("+42")), Some(42));
    assert_eq!(read_number(&chars("007")), Some(7));
    assert_eq!(read_number(&chars("")), None);
    assert_eq!(read_number(&chars("+")), None);
    assert_eq!(read_number(&chars("-1")), None);
    assert_eq!(read_number(&chars("4 2")), None);
    assert_eq!(read_number(&chars("4a")), None);
    assert_eq!(read_number(&chars("++4")), None);
    assert_eq!(read_number(&chars("٣")), None);
    let max = usize::MAX.to_string();
    assert_eq!(read_number(&chars(&max)), Some(usize::MAX));
    let mut over = max.clone();
    over.push('0');
    assert_eq!(read_number(&chars(&over)), None);
    let next = (usize::MAX as u128 + 1).to_string();
    assert_eq!(read_number(&chars(&next)), None);
    for text in ["12", "+0", "99999999999999999999999999", "1x", " 1"] {
        assert_eq!(read_number(&chars(text)), text.parse::<usize>().ok());
    }
}
