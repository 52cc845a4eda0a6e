//! What a menu entry does when it is chosen.
use vstd::prelude::*;

verus! {

/// The action behind a menu entry.
#[derive(Clone, Debug, PartialEq, Eq)]
pub enum Command {
    /// A group placeholder: nothing to run.
    Placeholder,
    /// A script given by its own text.
    Raw(String),
    /// A script to be read from a path relative to a base directory.
    LocalFile(String),
}

impl Command {
    /// An equal, independent copy of this command.
    pub fn duplicate(&self) -> (r: Command)
        ensures
            r == *self,
    {
        match self {
            Command::Placeholder => Command::Placeholder,
            Command::Raw(s) => Command::Raw(s.clone()),
            Command::LocalFile(s) => Command::LocalFile(s.clone()),
        }
    }
}

} // verus!
