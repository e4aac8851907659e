//! The error type shared by every conversion.

use vstd::prelude::*;
use vstd::string::StringExecFns;
use crate::condition::DECODE_ERROR;

verus! {

/// An error: a condition code and an optional diagnostic message.
#[derive(Debug, PartialEq, Eq)]
pub struct AmqpError {
    condition: String,
    description: Option<String>,
}

/// The mathematical model of an [`AmqpError`].
pub struct ErrorView {
    pub condition: Seq<char>,
    pub description: Option<Seq<char>>,
}

/// The model of a decode error that carries `message`.
pub open spec fn decode_failure(message: Seq<char>) -> ErrorView {
    ErrorView { condition: DECODE_ERROR@, description: Some(message) }
}

/// The text of an optional string slice.
pub open spec fn optional_text(text: Option<&str>) -> Option<Seq<char>> {
    match text {
        Some(t) => Some(t@),
        None => None,
    }
}

/// How an error reads as one line: the condition, then a colon and the
/// message where there is one.
pub open spec fn rendered(e: ErrorView) -> Seq<char> {
    match e.description {
        Some(d) => e.condition + ": "@ + d,
        None => e.condition,
    }
}

impl View for AmqpError {
    type V = ErrorView;

    closed spec fn view(&self) -> ErrorView {
        ErrorView {
            condition: self.condition@,
            description: match self.description {
                Some(d) => Some(d@),
                None => None,
            },
        }
    }
}

impl DeepView for AmqpError {
    type V = ErrorView;

    open spec fn deep_view(&self) -> ErrorView {
        self@
    }
}

impl AmqpError {
    /// An error with an explicit condition code and message.
    pub fn amqp_error(condition: &str, description: Option<&str>) -> (e: AmqpError)
        ensures
            e@ == (ErrorView { condition: condition@, description: optional_text(description) }),
    {
        let description = match description {
            Some(d) => Some(String::from_str(d)),
            None => None,
        };
        AmqpError { condition: String::from_str(condition), description }
    }

    /// A decode error with the given message.
    pub fn decode_error(description: Option<&str>) -> (e: AmqpError)
        ensures
            e@ == (ErrorView { condition: DECODE_ERROR@, description: optional_text(description) }),
    {
        AmqpError::amqp_error(DECODE_ERROR, description)
    }

    /// The condition code.
    pub fn condition(&self) -> (c: &str)
        ensures
            c@ == self@.condition,
    {
        self.condition.as_str()
    }

    /// The diagnostic message, if there is one.
    pub fn description(&self) -> (d: Option<&str>)
        ensures
            optional_text(d) == self@.description,
    {
        match &self.description {
            Some(d) => Some(d.as_str()),
            None => None,
        }
    }

    /// The error as one line of text.
    pub fn to_string(&self) -> (line: String)
        ensures
            line@ == rendered(self@),
    {
        let line = self.condition.clone();
        match &self.description {
            Some(d) => line.concat(": ").concat(d.as_str()),
            None => line,
        }
    }
}

impl Clone for AmqpError {
    fn clone(&self) -> (e: AmqpError)
        ensures
            e@ == self@,
    {
        let description = match &self.description {
            Some(d) => Some(d.clone()),
            None => None,
        };
        AmqpError { condition: self.condition.clone(), description }
    }
}

} // verus!
