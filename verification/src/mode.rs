//! The editing modes.

use vstd::prelude::*;
use vstd::string::StringExecFns;

verus! {

/// The mode that decides what a keystroke means.
#[derive(Clone, Copy, Debug, PartialEq, Eq, Structural)]
pub enum Mode {
    Normal,
    Insert,
    Meta,
    Visual,
}

impl Mode {
    /// Enters insert mode.
    pub fn insert(&mut self)
        ensures
            *final(self) == Mode::Insert,
    {
        *self = Mode::Insert;
    }

    /// Enters normal mode.
    pub fn normal(&mut self)
        ensures
            *final(self) == Mode::Normal,
    {
        *self = Mode::Normal;
    }

    /// The name of the mode in lower case.
    pub open spec fn name(self) -> Seq<char> {
        match self {
            Mode::Normal => "normal"@,
            Mode::Insert => "insert"@,
            Mode::Meta => "meta"@,
            Mode::Visual => "visual"@,
        }
    }

    /// The name of the mode in lower case.
    pub fn to_string(&self) -> (s: String)
        ensures
            s@ == self.name(),
    {
        match self {
            Mode::Normal => String::from_str("normal"),
            Mode::Insert => String::from_str("insert"),
            Mode::Meta => String::from_str("meta"),
            Mode::Visual => String::from_str("visual"),
        }
    }
}

} // verus!
