//! The run's resolved command-line options.

use vstd::prelude::*;

verus! {

/// What one invocation was asked to do.  Exactly one of `rev` and `root`
/// is set: either history is bounded by a last-release revision, or the
/// walk covers the whole history.
pub struct Opts {
    /// Last release revision, excluded from attribution together with
    /// everything it reaches.
    pub rev: Option<String>,
    /// Walk from the beginning of revision history instead.
    pub root: bool,
    /// Path to the commit-classifier script.
    pub generator: String,
    /// Apply changelog and version changes instead of printing a dry run.
    pub execute: bool,
}

impl Opts {
    /// The boundary revision, or `None` for a walk from the root.
    pub fn since_rev(&self) -> (r: Option<String>)
        requires
            self.rev is Some || self.root,
        ensures
            self.rev is Some ==> r == self.rev,
            self.rev is None ==> r is None,
    {
        if let Some(rev) = &self.rev {
            Some(rev.clone())
        } else {
            None
        }
    }
}

} // verus!
