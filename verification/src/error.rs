use vstd::prelude::*;

use crate::id::IdError;
use crate::text::{concat2, owned};

verus! {

/// Errors of the core library.
#[derive(Debug, Clone, PartialEq, Eq)]
pub enum CoreError {
    DirectoryResolution,
    Io(String),
    Database(String),
    Json(String),
    Crypto(String),
    InvalidId(IdError),
    InvalidCommandSpec(String),
    ParserNotFound(String),
    Regex(String),
    NotFound(String),
    Conflict(String),
    Import(String),
    MasterNotSet,
    MasterAlreadySet,
    MasterVerificationFailed,
    DecryptionFailed,
    InvalidSetting(String),
    CommandExecution(String),
}

/// The message text carried by an error, if it has one.
pub open spec fn error_text(e: CoreError) -> Option<Seq<char>> {
    match e {
        CoreError::Io(m) => Some(m@),
        CoreError::Database(m) => Some(m@),
        CoreError::Json(m) => Some(m@),
        CoreError::Crypto(m) => Some(m@),
        CoreError::InvalidCommandSpec(m) => Some(m@),
        CoreError::ParserNotFound(m) => Some(m@),
        CoreError::Regex(m) => Some(m@),
        CoreError::NotFound(m) => Some(m@),
        CoreError::Conflict(m) => Some(m@),
        CoreError::Import(m) => Some(m@),
        CoreError::InvalidSetting(m) => Some(m@),
        CoreError::CommandExecution(m) => Some(m@),
        _ => None,
    }
}


/// How an identifier error is printed (`{:?}`): the variant's name.
pub open spec fn id_error_name(e: IdError) -> Seq<char> {
    match e {
        IdError::Empty => "Empty"@,
        IdError::TooShort => "TooShort"@,
        IdError::TooLong => "TooLong"@,
        IdError::InvalidFormat => "InvalidFormat"@,
        IdError::Reserved => "Reserved"@,
    }
}

/// The message an error is shown with.
pub open spec fn core_error_message(e: CoreError) -> Seq<char> {
    match e {
        CoreError::DirectoryResolution => "failed to resolve application directories"@,
        CoreError::Io(m) => "I/O error: "@ + m@,
        CoreError::Database(m) => "database error: "@ + m@,
        CoreError::Json(m) => "json error: "@ + m@,
        CoreError::Crypto(m) => "crypto error: "@ + m@,
        CoreError::InvalidId(i) => "invalid id: "@ + id_error_name(i),
        CoreError::InvalidCommandSpec(m) => "invalid command spec: "@ + m@,
        CoreError::ParserNotFound(m) => "parser not found: "@ + m@,
        CoreError::Regex(m) => "regex error: "@ + m@,
        CoreError::NotFound(m) => "unknown profile: "@ + m@,
        CoreError::Conflict(m) => "conflict: "@ + m@,
        CoreError::Import(m) => "import error: "@ + m@,
        CoreError::MasterNotSet => "master password not set"@,
        CoreError::MasterAlreadySet => "master password already set"@,
        CoreError::MasterVerificationFailed => "master password verification failed"@,
        CoreError::DecryptionFailed => "decryption failed"@,
        CoreError::InvalidSetting(m) => "invalid setting: "@ + m@,
        CoreError::CommandExecution(m) => "command execution failed: "@ + m@,
    }
}

/// The name of an identifier error (its `Debug` form).
pub fn id_error_text(e: IdError) -> (r: &'static str)
    ensures
        r@ == id_error_name(e),
{
    match e {
        IdError::Empty => "Empty",
        IdError::TooShort => "TooShort",
        IdError::TooLong => "TooLong",
        IdError::InvalidFormat => "InvalidFormat",
        IdError::Reserved => "Reserved",
    }
}

impl CoreError {
    /// The message the error is shown with (`Display`).
    pub fn to_text(&self) -> (r: String)
        ensures
            r@ == core_error_message(*self),
    {
        match self {
            CoreError::DirectoryResolution => owned("failed to resolve application directories"),
            CoreError::Io(m) => concat2("I/O error: ", m.as_str()),
            CoreError::Database(m) => concat2("database error: ", m.as_str()),
            CoreError::Json(m) => concat2("json error: ", m.as_str()),
            CoreError::Crypto(m) => concat2("crypto error: ", m.as_str()),
            CoreError::InvalidId(i) => concat2("invalid id: ", id_error_text(*i)),
            CoreError::InvalidCommandSpec(m) => concat2("invalid command spec: ", m.as_str()),
            CoreError::ParserNotFound(m) => concat2("parser not found: ", m.as_str()),
            CoreError::Regex(m) => concat2("regex error: ", m.as_str()),
            CoreError::NotFound(m) => concat2("unknown profile: ", m.as_str()),
            CoreError::Conflict(m) => concat2("conflict: ", m.as_str()),
            CoreError::Import(m) => concat2("import error: ", m.as_str()),
            CoreError::MasterNotSet => owned("master password not set"),
            CoreError::MasterAlreadySet => owned("master password already set"),
            CoreError::MasterVerificationFailed => owned("master password verification failed"),
            CoreError::DecryptionFailed => owned("decryption failed"),
            CoreError::InvalidSetting(m) => concat2("invalid setting: ", m.as_str()),
            CoreError::CommandExecution(m) => concat2("command execution failed: ", m.as_str()),
        }
    }
}

} // verus!
