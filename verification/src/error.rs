//! The error kinds a judging run distinguishes: a failed execution, a failed
//! compile, and an invalid user-supplied option.

use vstd::prelude::*;

verus! {

/// An execution that could not be carried out.
#[derive(Clone, Debug)]
pub struct ExecuteError;

impl ExecuteError {
    /// A short human-readable description.
    pub fn describe(&self) -> (r: String)
        ensures
            r@ == "Execution error."@,
    {
        String::from_str("Execution error.")
    }
}

/// A compilation that could not be carried out.
#[derive(Clone, Debug)]
pub struct CompileError;

impl CompileError {
    /// A short human-readable description.
    pub fn describe(&self) -> (r: String)
        ensures
            r@ == "Compile error."@,
    {
        String::from_str("Compile error.")
    }
}

/// An error in the user's options. The run cannot be continued; the message
/// names what was wrong.
#[derive(Clone, Debug)]
pub struct OptionError {
    pub message: String,
}

impl OptionError {
    /// A short human-readable description, naming the offending option.
    pub fn describe(&self) -> (r: String)
        ensures
            r@ == "Option error: "@ + self.message@,
    {
        String::from_str("Option error: ").concat(self.message.as_str())
    }
}

} // verus!
