//! The scanner's configuration: the root path under which projects live.
//!
//! How the value is obtained (a config file, an interactive first run) is
//! the caller's business; the library only needs the path itself.

use vstd::prelude::*;

verus! {

/// The configuration handed to a [`crate::scanner::ProjectManager`].
#[derive(Clone, Debug)]
pub struct Config {
    /// The root directory to scan for projects.
    pub projects_path: String,
}

impl Config {
    /// A configuration for the given root directory.
    pub fn new(projects_path: String) -> (c: Config)
        ensures
            c.projects_path@ == projects_path@,
    {
        Config { projects_path }
    }
}

} // verus!
