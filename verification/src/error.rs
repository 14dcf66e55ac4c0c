//! The errors that translation and execution report.
use vstd::prelude::*;

use crate::text::cat2;

verus! {

/// What went wrong, with the message that says how.
#[derive(Debug)]
pub enum MiddlewareError {
    Config(String),
    Parse(String),
    Translation(String),
    Execution(String),
}

/// The mathematical counterpart of [`MiddlewareError`].
pub enum Failure {
    Config(Seq<char>),
    Parse(Seq<char>),
    Translation(Seq<char>),
    Execution(Seq<char>),
}

impl View for MiddlewareError {
    type V = Failure;

    open spec fn view(&self) -> Failure {
        match self {
            MiddlewareError::Config(m) => Failure::Config(m@),
            MiddlewareError::Parse(m) => Failure::Parse(m@),
            MiddlewareError::Translation(m) => Failure::Translation(m@),
            MiddlewareError::Execution(m) => Failure::Execution(m@),
        }
    }
}

/// The text an error is shown as.
pub open spec fn failure_message(f: Failure) -> Seq<char> {
    match f {
        Failure::Config(m) => "configuration error: "@ + m,
        Failure::Parse(m) => "parse error: "@ + m,
        Failure::Translation(m) => "translation error: "@ + m,
        Failure::Execution(m) => "execution error: "@ + m,
    }
}

impl MiddlewareError {
    /// The text shown to a user: the kind of the error, then its message.
    pub fn to_string(&self) -> (r: String)
        ensures
            r@ == failure_message(self@),
    {
        match self {
            MiddlewareError::Config(m) => cat2("configuration error: ", m.as_str()),
            MiddlewareError::Parse(m) => cat2("parse error: ", m.as_str()),
            MiddlewareError::Translation(m) => cat2("translation error: ", m.as_str()),
            MiddlewareError::Execution(m) => cat2("execution error: ", m.as_str()),
        }
    }
}

/// A translation error with a fixed message.
pub fn translation_error(message: &str) -> (r: MiddlewareError)
    ensures
        r@ == Failure::Translation(message@),
{
    MiddlewareError::Translation(message.to_string())
}

} // verus!
