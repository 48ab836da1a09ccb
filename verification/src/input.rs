use vstd::prelude::*;

use crate::action::Action;
use crate::action::Mode;

verus! {

/// What the mapper reads out of one terminal event: the pressed key, with
/// every key it does not distinguish (function keys, arrows, mouse and
/// resize events, ...) collapsed into `Other`.
#[derive(Clone, Copy, PartialEq, Eq, Structural, Debug)]
pub enum Key {
    Char(char),
    Esc,
    Backspace,
    Enter,
    Other,
}

/// The modal key grammar: which action, if any, a key produces in a mode.
///
/// Normal mode binds `q` to quit, `h`/`j`/`k`/`l` to the four moves and `i`
/// to entering Insert mode. Insert mode binds every character key to
/// inserting that character, Esc to returning to Normal mode, Backspace to
/// removing a character and Enter to splitting the line. Every other key is
/// meaningless in its mode and resolves to `None`.
pub open spec fn resolve_key(key: Key, mode: Mode) -> Option<Action> {
    match mode {
        Mode::Normal => match key {
            Key::Char(c) => if c == 'q' {
                Some(Action::Quit)
            } else if c == 'h' {
                Some(Action::MoveLeft)
            } else if c == 'j' {
                Some(Action::MoveDown)
            } else if c == 'k' {
                Some(Action::MoveUp)
            } else if c == 'l' {
                Some(Action::MoveRight)
            } else if c == 'i' {
                Some(Action::ChangeMode(Mode::Insert))
            } else {
                None
            },
            _ => None,
        },
        Mode::Insert => match key {
            Key::Char(c) => Some(Action::InsertChar(c)),
            Key::Esc => Some(Action::ChangeMode(Mode::Normal)),
            Key::Backspace => Some(Action::RemoveChar),
            Key::Enter => Some(Action::NewLine),
            Key::Other => None,
        },
    }
}

/// Pure resolution of one key event against the current mode; keys that are
/// not meaningful in the mode are discarded silently.
pub fn handle_event(key: Key, mode: &Mode) -> (action: Option<Action>)
    ensures
        action == resolve_key(key, *mode),
{
    match mode {
        Mode::Normal => match key {
            Key::Char(c) => if c == 'q' {
                Some(Action::Quit)
            } else if c == 'h' {
                Some(Action::MoveLeft)
            } else if c == 'j' {
                Some(Action::MoveDown)
            } else if c == 'k' {
                Some(Action::MoveUp)
            } else if c == 'l' {
                Some(Action::MoveRight)
            } else if c == 'i' {
                Some(Action::ChangeMode(Mode::Insert))
            } else {
                None
            },
            _ => None,
        },
        Mode::Insert => match key {
            Key::Char(c) => Some(Action::InsertChar(c)),
            Key::Esc => Some(Action::ChangeMode(Mode::Normal)),
            Key::Backspace => Some(Action::RemoveChar),
            Key::Enter => Some(Action::NewLine),
            Key::Other => None,
        },
    }
}

/// Whether the key given at the quit prompt confirms writing the buffer
/// back to the file: only the character `w` does.
pub fn confirms_save(key: Key) -> (save: bool)
    ensures
        save == (key == Key::Char('w')),
{
    match key {
        Key::Char(c) => c == 'w',
        _ => false,
    }
}

} // verus!
