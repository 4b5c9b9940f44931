//! The library's error vocabulary.
//!
//! A scan either walks the whole tree and returns the complete result, or
//! fails wholesale with one of these; no partial results survive a failure.

use vstd::prelude::*;

verus! {

/// A typed failure of the library.
#[derive(Clone, Debug)]
pub enum ScError {
    /// An invalid or missing root path, or another bad configuration value.
    Config(String),
    /// A project that was asked for does not exist.
    ProjectNotFound(String),
    /// The directory walk could not continue; carries the walker's message.
    Traversal(String),
}

} // verus!
