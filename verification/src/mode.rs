//! The small enumerations the editor state machine is built from: the active
//! mode, the keys a handler can see, the sticky target column, and the kinds
//! of `:`-command.

use vstd::prelude::*;

verus! {

/// The editor's mode: exactly one is active at any time, and it decides how a
/// keystroke is interpreted.
#[derive(Clone, Copy, PartialEq, Eq, Structural, Debug)]
pub enum Mode {
    Normal,
    Insert,
    Command,
}

/// A keystroke as the state machine sees it. Anything the editor does not
/// react to arrives as `Other`.
#[derive(Clone, Copy, PartialEq, Eq, Structural, Debug)]
pub enum Key {
    Char(char),
    Backspace,
    Enter,
    Esc,
    Other,
}

/// The sticky target column used by vertical movement: either a concrete
/// column, or "pinned to the end of every line" (set by `$`, `A` and `G`).
#[derive(Clone, Copy, PartialEq, Eq, Structural, Debug)]
pub enum Target {
    Col(usize),
    End,
}

/// The mathematical counterpart of `Target`, with an unbounded column.
pub enum TargetV {
    Col(int),
    End,
}

impl View for Target {
    type V = TargetV;

    open spec fn view(&self) -> TargetV {
        match *self {
            Target::Col(c) => TargetV::Col(c as int),
            Target::End => TargetV::End,
        }
    }
}

/// What a committed `:`-command asks for.
#[derive(Clone, Copy, PartialEq, Eq, Structural, Debug)]
pub enum CmdKind {
    Quit,
    Write,
    WriteQuit,
    Unknown,
}

} // verus!
