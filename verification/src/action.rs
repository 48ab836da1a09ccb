use vstd::prelude::*;

verus! {

/// The modal-editing state: Normal interprets keys as navigation commands,
/// Insert interprets them as literal text entry.
#[derive(Clone, Copy, PartialEq, Eq, Structural, Debug)]
pub enum Mode {
    Normal,
    Insert,
}

/// One instruction for the dispatcher, produced by interpreting a single key
/// under the current mode and consumed exactly once.
#[derive(Clone, Copy, PartialEq, Eq, Structural, Debug)]
pub enum Action {
    Quit,
    MoveUp,
    MoveDown,
    MoveLeft,
    MoveRight,
    InsertChar(char),
    RemoveChar,
    NewLine,
    ChangeMode(Mode),
}

} // verus!
