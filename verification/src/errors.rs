//! The ways in which a command can fail.

use vstd::prelude::*;
use vstd::string::*;

verus! {

/// A failure in the data layer that carries no detail.
#[derive(Debug, Clone, Copy, PartialEq, Eq, Structural)]
pub struct DataError;

/// What went wrong.
#[derive(Debug, Clone, Copy, PartialEq, Eq, Structural)]
pub enum ErrorKind {
    /// A text did not yield a date.
    ParseError,
    /// A user id has no record.
    NotFoundError,
    /// A record lacks the field that the command works on.
    FieldWasEmptyError,
    /// The underlying storage failed.
    StorageError,
    /// The command has no behaviour yet.
    NotImplemented,
}

/// A failure, with the sentence that the bot says about it.
#[derive(Debug, Clone, PartialEq, Eq)]
pub struct BotError {
    pub kind: ErrorKind,
    pub message: String,
}

/// `outcome` is the failure of the kind `kind` that says `message`.
pub open spec fn failed<T>(outcome: Result<T, BotError>, kind: ErrorKind, message: Seq<char>) -> bool {
    outcome matches Err(e) && e.kind == kind && e.message@ == message
}

impl BotError {
    /// A failure of the given kind with the given sentence.
    pub fn new(kind: ErrorKind, message: &str) -> (e: BotError)
        ensures
            e.kind == kind,
            e.message@ == message@,
    {
        BotError { kind, message: String::from_str(message) }
    }

    /// The sentence, as the bot sends it.
    pub fn to_string(&self) -> (text: String)
        ensures
            text@ == self.message@,
    {
        self.message.clone()
    }
}

} // verus!
