//! What can go wrong, and the messages that say so.
use vstd::prelude::*;

verus! {

/// An input that a rule refuses.
#[derive(Debug)]
pub enum ValidationError {
    InvalidInput(String),
}

/// A record that the store does not have.
#[derive(Debug)]
pub enum DatabaseError {
    NotFound(String),
}

/// An error of the taxonomy service, or of the store behind it.
#[derive(Debug)]
pub enum Error {
    Validation(ValidationError),
    Database(DatabaseError),
    /// Any other failure of the store.
    Unexpected(String),
}

impl Error {
    /// The error refuses an input, with this message.
    pub open spec fn is_invalid_input(self, message: Seq<char>) -> bool {
        self matches Error::Validation(ValidationError::InvalidInput(text)) && text@ == message
    }

    /// The error says that a record is missing, with this message.
    pub open spec fn is_not_found(self, message: Seq<char>) -> bool {
        self matches Error::Database(DatabaseError::NotFound(text)) && text@ == message
    }

    pub fn invalid_input(message: String) -> (error: Error)
        ensures
            error.is_invalid_input(message@),
    {
        Error::Validation(ValidationError::InvalidInput(message))
    }

    pub fn not_found(message: &str) -> (error: Error)
        ensures
            error.is_not_found(message@),
    {
        Error::Database(DatabaseError::NotFound(message.to_string()))
    }

    /// The message of the error.
    pub open spec fn text(self) -> Seq<char> {
        match self {
            Error::Validation(ValidationError::InvalidInput(text)) => text@,
            Error::Database(DatabaseError::NotFound(text)) => text@,
            Error::Unexpected(text) => text@,
        }
    }

    /// The message of the error.
    pub fn message(&self) -> (message: &str)
        ensures
            message@ == self.text(),
    {
        match self {
            Error::Validation(ValidationError::InvalidInput(text)) => text.as_str(),
            Error::Database(DatabaseError::NotFound(text)) => text.as_str(),
            Error::Unexpected(text) => text.as_str(),
        }
    }
}

/// An error of a tool, with the message that the agent is shown.
#[derive(Debug)]
pub enum AiError {
    ToolExecutionFailed(String),
}

impl AiError {
    /// The message of the error.
    pub open spec fn text(self) -> Seq<char> {
        match self {
            AiError::ToolExecutionFailed(text) => text@,
        }
    }

    /// The message of the error.
    pub fn message(&self) -> (message: &str)
        ensures
            message@ == self.text(),
    {
        match self {
            AiError::ToolExecutionFailed(text) => text.as_str(),
        }
    }
}

/// An error refuses an input exactly where it is a validation error with that
/// message, and reports a missing record exactly where it is a database error with
/// that message.
pub proof fn law_errors_are_told_apart(error: Error, message: Seq<char>)
    ensures
        error.is_invalid_input(message) ==> (error matches Error::Validation(
            ValidationError::InvalidInput(text),
        ) && text@ == message),
        error.is_not_found(message) ==> (error matches Error::Database(
            DatabaseError::NotFound(text),
        ) && text@ == message),
        error.is_invalid_input(message) ==> error.text() == message && !error.is_not_found(
            message,
        ),
        error.is_not_found(message) ==> error.text() == message,
{
}

/// An error says the text that it was made with, whatever its kind.
pub proof fn law_errors_say_their_text(text: String)
    ensures
        Error::Validation(ValidationError::InvalidInput(text)).text() == text@,
        Error::Database(DatabaseError::NotFound(text)).text() == text@,
        Error::Unexpected(text).text() == text@,
        AiError::ToolExecutionFailed(text).text() == text@,
        Error::Validation(ValidationError::InvalidInput(text)).is_invalid_input(text@),
        Error::Database(DatabaseError::NotFound(text)).is_not_found(text@),
{
}

} // verus!
