//! Release bookkeeping for a multi-package workspace.
//!
//! The crate attributes commits to the packages whose source trees they
//! touch, turns each package's per-run classifier verdict into a seeded
//! bump level, and spreads bump obligations across nested and dependent
//! packages until the assignment is internally consistent.  It also
//! renders changelog entries, inserts them after a stable marker line,
//! and formats the dry-run report.

pub mod attribute;
pub mod bump;
pub mod changelog;
pub mod graph;
pub mod options;
pub mod propagate;
pub mod report;
pub mod status;

use vstd::prelude::*;

verus! {

} // verus!
