//! The modes of the modal user interface.
use vstd::prelude::*;

verus! {

/// Modal states of the interface.
#[derive(Debug, Clone, Copy, PartialEq, Eq, Structural)]
pub enum Mode {
    Normal,
    Insert,
    Command,
}

impl Mode {
    /// The name shown in the status bar.
    pub fn name(&self) -> (r: &'static str)
        ensures
            r@ == match self {
                Mode::Normal => "NORMAL"@,
                Mode::Insert => "INSERT"@,
                Mode::Command => "COMMAND"@,
            },
    {
        match self {
            Mode::Normal => "NORMAL",
            Mode::Insert => "INSERT",
            Mode::Command => "COMMAND",
        }
    }

    /// Whether the text cursor is shown: only while typing.
    pub fn shows_cursor(&self) -> (r: bool)
        ensures
            r == (*self == Mode::Insert || *self == Mode::Command),
    {
        match self {
            Mode::Normal => false,
            Mode::Insert => true,
            Mode::Command => true,
        }
    }

    /// The key hints for this mode.
    pub fn help_text(&self) -> (r: &'static str)
        ensures
            r@ == match self {
                Mode::Normal => "i:Insert | ::Command | ^Q:Quit"@,
                Mode::Insert => "ESC:Normal | ↵:Send | ^W:Clear"@,
                Mode::Command => "ESC:Cancel | ↵:Execute"@,
            },
    {
        match self {
            Mode::Normal => "i:Insert | ::Command | ^Q:Quit",
            Mode::Insert => "ESC:Normal | ↵:Send | ^W:Clear",
            Mode::Command => "ESC:Cancel | ↵:Execute",
        }
    }
}

} // verus!
