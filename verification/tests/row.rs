use vellum::highlighting::{Color, Type};
use vellum::row::{highlight_chars, Row};

fn marks(text: &str) -> Vec<Type> {
    Row::from(text).highlighting().clone()
}

fn plain(n: usize) -> Vec<Type> {
    vec![Type::Plain; n]
}

#[test]
fn row_from_str_keeps_characters() {
    let row = Row::from("héllo");
    assert_eq!(row.len(), 5);
    assert_eq!(row.render(0, 5), "héllo");
    assert_eq!(row.highlighting().len(), 5);
    let empty = Row::from("");
    assert_eq!(empty.len(), 0);
    assert_eq!(empty.highlighting().len(), 0);
}

#[test]
fn row_from_chars_keeps_characters() {
    let row = Row::from_chars(vec!['#', 'a']);
    assert_eq!(row.render(0, 2), "#a");
    assert_eq!(row.highlighting(), &vec![Type::Header, Type::Header]);
}

#[test]
fn render_clamps_its_range() {
    let row = Row::from("abcdef");
    assert_eq!(row.render(1, 4), "bcd");
    assert_eq!(row.render(0, 100), "abcdef");
    assert_eq!(row.render(4, 2), "");
    assert_eq!(row.render(9, 12), "");
    assert_eq!(row.render(3, 3), "");
    assert_eq!(row.render(5, usize::MAX), "f");
}

#[test]
fn insert_puts_character_at_column_or_end() {
    let mut row = Row::from("ac");
    row.insert(1, 'b');
    assert_eq!(row.render(0, 9), "abc");
    row.insert(0, '#');
    assert_eq!(row.render(0, 9), "#abc");
    assert_eq!(row.highlighting(), &vec![Type::Header; 4]);
    row.insert(99, '!');
    assert_eq!(row.render(0, 9), "#abc!");
    row.insert(5, '?');
    assert_eq!(row.render(0, 9), "#abc!?");
    assert_eq!(row.len(), 6);
}

#[test]
fn delete_takes_character_out_if_there_is_one() {
    let mut row = Row::from("#abc");
    row.delete(0);
    assert_eq!(row.render(0, 9), "abc");
    assert_eq!(row.highlighting(), &plain(3));
    row.delete(3);
    assert_eq!(row.render(0, 9), "abc");
    row.delete(2);
    assert_eq!(row.render(0, 9), "ab");
    row.delete(usize::MAX);
    assert_eq!(row.render(0, 9), "ab");
}

#[test]
fn append_joins_rows() {
    let mut row = Row::from("*a");
    row.append(&Row::from("b*"));
    assert_eq!(row.render(0, 9), "*ab*");
    assert_eq!(row.highlighting(), &vec![Type::Italic; 4]);
    row.append(&Row::from(""));
    assert_eq!(row.len(), 4);
}

#[test]
fn split_cuts_row_in_two() {
    let mut row = Row::from("# head**x**");
    let rest = row.split(6);
    assert_eq!(row.render(0, 99), "# head");
    assert_eq!(rest.render(0, 99), "**x**");
    assert_eq!(row.highlighting(), &vec![Type::Header; 6]);
    assert_eq!(rest.highlighting(), &vec![Type::Bold; 5]);
    let mut whole = Row::from("abc");
    let nothing = whole.split(50);
    assert_eq!(whole.render(0, 99), "abc");
    assert_eq!(nothing.len(), 0);
    let all = whole.split(0);
    assert_eq!(whole.len(), 0);
    assert_eq!(all.render(0, 99), "abc");
}

#[test]
fn as_bytes_encodes_utf8() {
    assert_eq!(Row::from("abc").as_bytes(), b"abc".to_vec());
    assert_eq!(Row::from("é日").as_bytes(), "é日".as_bytes().to_vec());
    assert_eq!(Row::from("").as_bytes(), Vec::<u8>::new());
}

#[test]
fn highlight_recomputes_marks() {
    let mut row = Row::from("**b**");
    row.highlight();
    assert_eq!(row.highlighting(), &vec![Type::Bold; 5]);
}

#[test]
fn plain_text_has_no_marks() {
    assert_eq!(marks("hello world"), plain(11));
    assert_eq!(marks(""), plain(0));
}

#[test]
fn header_marks_the_whole_row() {
    assert_eq!(marks("# T"), vec![Type::Header; 3]);
    assert_eq!(marks("#"), vec![Type::Header]);
    assert_eq!(marks(" # T"), plain(4));
    assert_eq!(marks("#é日"), vec![Type::Header; 3]);
}

#[test]
fn bullets_mark_their_first_character() {
    for bullet in ["- x", "+ x"] {
        assert_eq!(marks(bullet), vec![Type::List, Type::Plain, Type::Plain]);
    }
    assert_eq!(marks("* x"), vec![Type::List, Type::Plain, Type::Plain]);
    assert_eq!(marks("-x"), plain(2));
    assert_eq!(marks("- "), vec![Type::List, Type::Plain]);
}

#[test]
fn numbered_items_mark_number_and_stop() {
    assert_eq!(marks("1. x"), vec![Type::List, Type::List, Type::Plain, Type::Plain]);
    assert_eq!(marks("٣. x"), vec![Type::List, Type::List, Type::Plain, Type::Plain]);
    assert_eq!(marks("a. x"), plain(4));
    assert_eq!(marks("1."), plain(2));
    assert_eq!(marks("1.x"), plain(3));
    assert_eq!(marks("1. "), vec![Type::List, Type::List, Type::Plain]);
}

#[test]
fn numeric_first_is_taken_as_given() {
    let chars: Vec<char> = "a. x".chars().collect();
    assert_eq!(
        highlight_chars(&chars, true),
        vec![Type::List, Type::List, Type::Plain, Type::Plain]
    );
    let digits: Vec<char> = "1. x".chars().collect();
    assert_eq!(highlight_chars(&digits, false), plain(4));
}

#[test]
fn bold_marks_from_pair_to_pair() {
    assert_eq!(
        marks("a **b** c"),
        vec![
            Type::Plain,
            Type::Plain,
            Type::Bold,
            Type::Bold,
            Type::Bold,
            Type::Bold,
            Type::Bold,
            Type::Plain,
            Type::Plain
        ]
    );
    assert_eq!(marks("****"), vec![Type::Bold; 4]);
    assert_eq!(marks("***a**"), vec![Type::Bold; 6]);
}

#[test]
fn italic_marks_from_star_to_star() {
    assert_eq!(
        marks("a *b* c"),
        vec![
            Type::Plain,
            Type::Plain,
            Type::Italic,
            Type::Italic,
            Type::Italic,
            Type::Plain,
            Type::Plain
        ]
    );
    assert_eq!(marks("*a*b*c*"), {
        let mut m = vec![Type::Italic; 3];
        m.push(Type::Plain);
        m.extend(vec![Type::Italic; 3]);
        m
    });
}

#[test]
fn unclosed_stretch_ends_the_marking() {
    assert_eq!(marks("**a *b*"), plain(7));
    assert_eq!(marks("**a*b*"), plain(6));
    assert_eq!(marks("a*"), plain(2));
    assert_eq!(marks("**"), plain(2));
    assert_eq!(marks("***"), plain(3));
    assert_eq!(marks("*a* *b"), {
        let mut m = vec![Type::Italic; 3];
        m.extend(vec![Type::Plain; 3]);
        m
    });
}

#[test]
fn a_star_closes_the_italic_stretch_even_before_another_star() {
    assert_eq!(marks("*a **b**"), {
        let mut m = vec![Type::Italic; 7];
        m.push(Type::Plain);
        m
    });
}

#[test]
fn bold_overrides_and_italic_yields() {
    assert_eq!(marks("# **b**"), {
        let mut m = vec![Type::Header; 2];
        m.extend(vec![Type::Bold; 5]);
        m
    });
    assert_eq!(marks("# *i*"), vec![Type::Header; 5]);
    assert_eq!(marks("* *i*"), {
        let mut m = vec![Type::List, Type::Italic, Type::Italic];
        m.extend(vec![Type::Plain; 2]);
        m
    });
}

#[test]
fn every_kind_has_its_colour() {
    assert_eq!(Type::Plain.to_color(), Color::White);
    assert_eq!(Type::Number.to_color(), Color::Cyan);
    assert_eq!(Type::Match.to_color(), Color::Green);
    assert_eq!(Type::String.to_color(), Color::Magenta);
    assert_eq!(Type::Comment.to_color(), Color::DarkGrey);
    assert_eq!(Type::Header.to_color(), Color::Blue);
    assert_eq!(Type::Bold.to_color(), Color::White);
    assert_eq!(Type::Italic.to_color(), Color::Yellow);
    assert_eq!(Type::List.to_color(), Color::Cyan);
}
