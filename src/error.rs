//! The three kinds of failure a command or an event can end in.
use vstd::prelude::*;

verus! {

/// What went wrong, tagged by who should hear about it.
#[derive(Debug, PartialEq, Eq)]
pub enum Error {
    /// The invoker's input or permissions are at fault; shown to them as is.
    User(String),
    /// The command is not one this dispatcher knows; holds its full name.
    UnknownCommand(String),
    /// A fault of the relay or its store; the detail is for the log only.
    Internal(String),
}

pub type Result<T> = core::result::Result<T, Error>;

/// Shown for an unknown command.
pub open spec fn unknown_command_text() -> Seq<char> {
    "You sent an unimplemented command. Please file an issue."@
}

/// Shown for an internal fault, whatever its detail.
pub open spec fn internal_text() -> Seq<char> {
    "There was an error processing your command."@
}

impl Error {
    /// The text the invoker sees.
    pub open spec fn spec_message(&self) -> Seq<char> {
        match self {
            Error::User(s) => s@,
            Error::UnknownCommand(_) => unknown_command_text(),
            Error::Internal(_) => internal_text(),
        }
    }

    /// Renders the error for the invoker: a user error verbatim, the other two
    /// kinds as a fixed notice that hides the detail.
    pub fn message(&self) -> (r: String)
        ensures
            r@ == self.spec_message(),
    {
        match self {
            Error::User(s) => s.clone(),
            Error::UnknownCommand(_) => {
                proof { reveal_strlit("You sent an unimplemented command. Please file an issue."); }
                String::from_str("You sent an unimplemented command. Please file an issue.")
            },
            Error::Internal(_) => {
                proof { reveal_strlit("There was an error processing your command."); }
                String::from_str("There was an error processing your command.")
            },
        }
    }

    /// Whether this error is a fault that should be logged.
    pub fn is_internal(&self) -> (r: bool)
        ensures
            r == (self is Internal),
    {
        match self {
            Error::Internal(_) => true,
            _ => false,
        }
    }
}

} // verus!
