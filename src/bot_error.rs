//! Errors of the library.

use vstd::prelude::*;

verus! {

/// What went wrong while answering a command or refreshing a leaderboard.
#[derive(Debug)]
pub enum BotError {
    /// A message meant for the user, such as the reason a stat could not be computed.
    Error(String),
    /// A request did not reach its service or the service answered with a failure.
    Transport(String),
    /// A response body did not have the expected shape.
    Decode(String),
    /// A service answered that the thing asked for does not exist.
    NotFound(String),
    /// An input was malformed.
    Validation(String),
}

pub type BotResult<T> = Result<T, BotError>;

impl BotError {
    /// The text shown to the user for this error.
    pub open spec fn message_spec(&self) -> Seq<char> {
        match self {
            BotError::Error(m) => m@,
            BotError::Transport(m) => m@,
            BotError::Decode(m) => m@,
            BotError::NotFound(m) => m@,
            BotError::Validation(m) => m@,
        }
    }

    pub fn message(&self) -> (r: String)
        ensures
            r@ == self.message_spec(),
    {
        match self {
            BotError::Error(m) => m.clone(),
            BotError::Transport(m) => m.clone(),
            BotError::Decode(m) => m.clone(),
            BotError::NotFound(m) => m.clone(),
            BotError::Validation(m) => m.clone(),
        }
    }
}

} // verus!
