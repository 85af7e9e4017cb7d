//! Error definitions.

use vstd::prelude::*;

verus! {

/// An error surfaced to the caller, carrying a human-readable description
/// and, optionally, the description of the underlying cause.
#[derive(Debug)]
pub struct AskmeError {
    pub description: String,
    pub cause: Option<String>,
}

impl AskmeError {
    /// Builds an error from a description and an optional cause.
    pub fn new(description: String, cause: Option<String>) -> (r: AskmeError)
        ensures
            r.description == description,
            r.cause == cause,
    {
        AskmeError { description, cause }
    }

    /// The human-readable description of this error.
    pub fn message(&self) -> (r: &String)
        ensures
            r == &self.description,
    {
        &self.description
    }
}

} // verus!
