//! The ways in which locating the store or searching it can fail.

use vstd::prelude::*;

verus! {

/// Why no folders were produced.
#[derive(Debug, PartialEq, Eq)]
pub enum Failure {
    /// None of the candidate files could be read; `tried` holds their paths
    /// in the order in which they were tried.
    FileUnavailable { tried: Vec<String> },
    /// A candidate file was read but is not a bookmark document.
    DecodeError,
    /// The document holds no folder called `name`.
    NoMatch { name: String },
}

} // verus!
