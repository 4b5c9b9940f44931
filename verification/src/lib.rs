//! A small library for discovering software projects under a root directory.
//!
//! The heart of the library is a verified scanner: given a snapshot of a
//! depth-first directory walk (a sequence of entries with their depths), it
//! classifies each visited directory by the marker files found directly
//! inside it and prunes the subtrees of already-classified git repositories.
//! All filesystem reading stays outside the library; callers hand the walk
//! in as plain values.

pub mod config;
pub mod detectors;
pub mod errors;
pub mod laws;
pub mod scanner;
pub mod types;
pub mod walk;

pub use types::ProjectInfo;
pub use types::ProjectType;
