//! Errors that end a compilation, and the message-carrying error of a run.
use vstd::prelude::*;
use crate::parser::ParseError;

verus! {

/// Why a source text cannot be compiled.
#[derive(Debug, PartialEq, Eq, Structural, Clone, Copy)]
pub enum CompileError {
    /// The text does not follow the grammar.
    Parse(ParseError),
    /// The left side of an assignment is not a variable.
    AssignToNonVariable,
}

/// A failure of a whole run, as one human-readable message.
#[derive(Debug)]
pub struct MyError {
    pub message: String,
}

impl MyError {
    pub fn new(message: String) -> (r: MyError)
        ensures
            r.message == message,
    {
        MyError { message }
    }
}

} // verus!
