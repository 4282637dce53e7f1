//! A cursor that moves over the bare screen, for a screen that shows no
//! document: the arrows and the keys `w`, `a`, `s` and `d` move it by one
//! cell, and the edges of the screen stop it.

use vstd::prelude::*;
use crate::editor::{Key, KeyCode};
use crate::position::{Position, Size};

verus! {

/// A cursor on a screen, and whether the user asked to leave.
#[derive(Clone, Copy, Debug)]
pub struct FreeCursor {
    pub should_quit: bool,
    pub terminal_size: Size,
    pub cursor_position: Position,
}

/// The greatest coordinate on a screen that is `cells` cells long.
pub open spec fn last_cell(cells: u16) -> nat {
    if cells > 0 {
        (cells - 1) as nat
    } else {
        0
    }
}

/// Where a key brings the cursor at `at` on a screen of the size `size`.
pub open spec fn moved_on_screen(at: Position, size: Size, key: Key) -> Position {
    if key.code == KeyCode::Char('q') && key.control {
        at
    } else if key.code == KeyCode::Up || key.code == KeyCode::Char('w') {
        Position { y: if at.y > 0 { (at.y - 1) as usize } else { at.y }, ..at }
    } else if key.code == KeyCode::Down || key.code == KeyCode::Char('s') {
        Position { y: if at.y < last_cell(size.height) { (at.y + 1) as usize } else { at.y }, ..at }
    } else if key.code == KeyCode::Left || key.code == KeyCode::Char('a') {
        Position { x: if at.x > 0 { (at.x - 1) as usize } else { at.x }, ..at }
    } else if key.code == KeyCode::Right || key.code == KeyCode::Char('d') {
        Position { x: if at.x < last_cell(size.width) { (at.x + 1) as usize } else { at.x }, ..at }
    } else {
        at
    }
}

impl FreeCursor {
    /// A cursor in the corner of a screen of the size `size`.
    pub fn new(size: Size) -> (cursor: FreeCursor)
        ensures
            cursor.should_quit == false,
            cursor.terminal_size == size,
            cursor.cursor_position == (Position { x: 0, y: 0 }),
    {
        FreeCursor { should_quit: false, terminal_size: size, cursor_position: Position { x: 0, y: 0 } }
    }

    /// Takes a key: the control key with `q` asks to leave, a movement key
    /// moves the cursor by one cell unless it stands at that edge of the
    /// screen, and every other key does nothing.
    pub fn process_cursor_movement(&mut self, key: Key)
        ensures
            final(self).terminal_size == old(self).terminal_size,
            final(self).should_quit == (old(self).should_quit || (key.code == KeyCode::Char('q')
                && key.control)),
            final(self).cursor_position == moved_on_screen(
                old(self).cursor_position,
                old(self).terminal_size,
                key,
            ),
    {
        let last_row: usize = if self.terminal_size.height > 0 {
            (self.terminal_size.height - 1) as usize
        } else {
            0
        };
        let last_col: usize = if self.terminal_size.width > 0 {
            (self.terminal_size.width - 1) as usize
        } else {
            0
        };
        let at = self.cursor_position;
        match key.code {
            KeyCode::Char(c) => {
                if c == 'q' && key.control {
                    self.should_quit = true;
                } else if c == 'w' {
                    if at.y > 0 {
                        self.cursor_position = Position { x: at.x, y: at.y - 1 };
                    }
                } else if c == 's' {
                    if at.y < last_row {
                        self.cursor_position = Position { x: at.x, y: at.y + 1 };
                    }
                } else if c == 'a' {
                    if at.x > 0 {
                        self.cursor_position = Position { x: at.x - 1, y: at.y };
                    }
                } else if c == 'd' {
                    if at.x < last_col {
                        self.cursor_position = Position { x: at.x + 1, y: at.y };
                    }
                }
            },
            KeyCode::Up => {
                if at.y > 0 {
                    self.cursor_position = Position { x: at.x, y: at.y - 1 };
                }
            },
            KeyCode::Down => {
                if at.y < last_row {
                    self.cursor_position = Position { x: at.x, y: at.y + 1 };
                }
            },
            KeyCode::Left => {
                if at.x > 0 {
                    self.cursor_position = Position { x: at.x - 1, y: at.y };
                }
            },
            KeyCode::Right => {
                if at.x < last_col {
                    self.cursor_position = Position { x: at.x + 1, y: at.y };
                }
            },
            _ => {},
        }
    }
}

} // verus!
