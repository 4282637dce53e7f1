//! The kinds of highlighting that a character of a row can have, and the
//! colour that each is drawn in.

use vstd::prelude::*;

verus! {

/// How a character is highlighted.
#[derive(PartialEq, Eq, Clone, Copy, Debug, Structural)]
pub enum Type {
    Plain,
    Number,
    Match,
    String,
    Comment,
    Header,
    Bold,
    Italic,
    List,
}

/// A colour of the terminal.
#[derive(PartialEq, Eq, Clone, Copy, Debug, Structural)]
pub enum Color {
    Reset,
    Black,
    DarkGrey,
    Blue,
    Green,
    Cyan,
    Magenta,
    Yellow,
    White,
}

impl Type {
    /// The colour for each kind of highlighting.
    pub open spec fn color(self) -> Color {
        match self {
            Type::Number => Color::Cyan,
            Type::Match => Color::Green,
            Type::String => Color::Magenta,
            Type::Comment => Color::DarkGrey,
            Type::Header => Color::Blue,
            Type::Bold => Color::White,
            Type::Italic => Color::Yellow,
            Type::List => Color::Cyan,
            Type::Plain => Color::White,
        }
    }

    /// The colour that a character with this highlighting is drawn in.
    pub fn to_color(self) -> (color: Color)
        ensures
            color == self.color(),
    {
        match self {
            Type::Number => Color::Cyan,
            Type::Match => Color::Green,
            Type::String => Color::Magenta,
            Type::Comment => Color::DarkGrey,
            Type::Header => Color::Blue,
            Type::Bold => Color::White,
            Type::Italic => Color::Yellow,
            Type::List => Color::Cyan,
            _ => Color::White,
        }
    }
}

} // verus!
