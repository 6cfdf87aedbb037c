//! A modal text editor core: a line buffer, a cursor with a sticky target
//! column, a viewport, and a Normal/Insert/Command mode state machine.
//!
//! The library holds the whole editing state machine; terminal rendering and
//! file input/output live outside it and exchange plain values (character
//! vectors, line vectors, booleans) with it.

pub mod app;
pub mod laws;
pub mod mode;
pub mod text;

pub use mode::CmdKind;
pub use mode::Key;
pub use mode::Mode;
pub use mode::Target;
