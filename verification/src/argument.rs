//! The configuration of one run.

use vstd::prelude::*;

verus! {

/// What a run was asked to do: which sweepers to enable, whether to log
/// at debug level, and the root path of the subtree to clean.
#[derive(Debug)]
pub struct Argument {
    /// Remove Maven `target` directories.
    pub maven: bool,
    /// Remove IDEA project files.
    pub idea: bool,
    /// Raise the log level to debug.
    pub debug: bool,
    /// The root to clean.
    pub path: String,
}

} // verus!
