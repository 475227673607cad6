//! What each key does to the view.

use vstd::prelude::*;

verus! {

/// A key as the view tells keys apart.
#[derive(Clone, Copy, Debug, PartialEq, Eq, Structural)]
pub enum Key {
    Esc,
    Char(char),
    Down,
    Up,
    Right,
    Left,
    PageDown,
    PageUp,
    Other,
}

/// What the view does in answer to a key.
#[derive(Clone, Copy, Debug, PartialEq, Eq, Structural)]
pub enum Action {
    Quit,
    /// Scroll down by so many rows.
    Forward(usize),
    /// Scroll up by so many rows.
    Backward(usize),
    /// Scroll right by so many columns.
    Right(usize),
    /// Scroll left by so many columns.
    Left(usize),
    /// Go to the last row.
    End,
    /// Go to the first row.
    Begin,
    Ignore,
}

/// Columns moved by one press of a horizontal arrow key.
pub const HORIZONTAL_STEP: usize = 8;

/// The action for a key: Esc, `q` and Ctrl-C quit; the arrows scroll by a
/// row or by `HORIZONTAL_STEP` columns; the page keys by half a page; `G`
/// and `g` go to the last and the first row.
pub fn key_action(key: Key, control: bool, page_size: u16) -> (r: Action)
    ensures
        r == match key {
            Key::Esc => Action::Quit,
            Key::Char(c) => if c == 'q' || ((c == 'c' || c == 'C') && control) {
                Action::Quit
            } else if c == 'G' {
                Action::End
            } else if c == 'g' {
                Action::Begin
            } else {
                Action::Ignore
            },
            Key::Down => Action::Forward(1),
            Key::Up => Action::Backward(1),
            Key::Right => Action::Right(HORIZONTAL_STEP),
            Key::Left => Action::Left(HORIZONTAL_STEP),
            Key::PageDown => Action::Forward((page_size / 2) as usize),
            Key::PageUp => Action::Backward((page_size / 2) as usize),
            Key::Other => Action::Ignore,
        },
{
    match key {
        Key::Esc => Action::Quit,
        Key::Char(c) => {
            if c == 'q' {
                Action::Quit
            } else if c == 'c' || c == 'C' {
                if control {
                    Action::Quit
                } else {
                    Action::Ignore
                }
            } else if c == 'G' {
                Action::End
            } else if c == 'g' {
                Action::Begin
            } else {
                Action::Ignore
            }
        },
        Key::Down => Action::Forward(1),
        Key::Up => Action::Backward(1),
        Key::Right => Action::Right(HORIZONTAL_STEP),
        Key::Left => Action::Left(HORIZONTAL_STEP),
        Key::PageDown => Action::Forward((page_size / 2) as usize),
        Key::PageUp => Action::Backward((page_size / 2) as usize),
        Key::Other => Action::Ignore,
    }
}

} // verus!
