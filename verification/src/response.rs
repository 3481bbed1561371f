//! Errors the pages report.
use vstd::prelude::*;

verus! {

/// An error the website reports to the visitor.
#[derive(Debug, Clone)]
pub enum Error {
    /// Something went wrong on our side.
    Other(String),
    /// What was asked for does not exist.
    NotFound(String),
    /// The visitor asked for something that makes no sense.
    User(String),
}

} // verus!
