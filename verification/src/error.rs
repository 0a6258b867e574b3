//! Error types of the library.

use vstd::prelude::*;

verus! {

/// An error raised while building or validating documentation.
#[derive(Debug)]
pub enum BuildError {
    /// A validation rule failed.
    ValidationError(String),
    /// A parse step failed.
    ParseError(String),
}

impl BuildError {
    /// The error message.
    pub fn message(&self) -> (r: &String)
        ensures
            r@ == match self {
                BuildError::ValidationError(m) => m@,
                BuildError::ParseError(m) => m@,
            },
    {
        match self {
            BuildError::ValidationError(m) => m,
            BuildError::ParseError(m) => m,
        }
    }
}

} // verus!
