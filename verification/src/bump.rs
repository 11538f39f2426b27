//! The bump level value type and semantic-version arithmetic.

use vstd::prelude::*;

verus! {

/// How far a package's version must be raised for the next release.
///
/// The ordering is total: `Unchanged < Patch < Minor < Major`.
#[derive(Clone, Copy, Debug, PartialEq, Eq, Structural)]
pub enum Bump {
    Unchanged,
    Patch,
    Minor,
    Major,
}

/// A semantic version, reduced to its three numeric components.
#[derive(Clone, Copy, Debug, PartialEq, Eq, Structural)]
pub struct SemVer {
    pub major: u64,
    pub minor: u64,
    pub patch: u64,
}

/// Position of a bump level in the total order `Unchanged < Patch < Minor < Major`.
pub open spec fn level(b: Bump) -> int {
    match b {
        Bump::Unchanged => 0,
        Bump::Patch => 1,
        Bump::Minor => 2,
        Bump::Major => 3,
    }
}

/// Whether applying `b` to `v` stays within the machine's integer range.
pub open spec fn can_apply(b: Bump, v: SemVer) -> bool {
    match b {
        Bump::Unchanged => true,
        Bump::Patch => v.patch < u64::MAX,
        Bump::Minor => v.minor < u64::MAX,
        Bump::Major => v.major < u64::MAX,
    }
}

/// The version that applying bump level `b` to `v` yields.
pub open spec fn apply_spec(b: Bump, v: SemVer) -> SemVer {
    match b {
        Bump::Unchanged => v,
        Bump::Patch => SemVer { major: v.major, minor: v.minor, patch: (v.patch + 1) as u64 },
        Bump::Minor => SemVer { major: v.major, minor: (v.minor + 1) as u64, patch: 0 },
        Bump::Major => SemVer { major: (v.major + 1) as u64, minor: 0, patch: 0 },
    }
}

/// The bump level a raw classifier value stands for, if it is well formed.
pub open spec fn from_raw_spec(raw: u64) -> Option<Bump> {
    if raw == 0 {
        Some(Bump::Unchanged)
    } else if raw == 1 {
        Some(Bump::Patch)
    } else if raw == 2 {
        Some(Bump::Minor)
    } else if raw == 3 {
        Some(Bump::Major)
    } else {
        None
    }
}

impl Bump {
    /// The level as a machine integer, for run-time comparisons.
    pub fn rank(self) -> (r: u8)
        ensures
            r as int == level(self),
    {
        match self {
            Bump::Unchanged => 0,
            Bump::Patch => 1,
            Bump::Minor => 2,
            Bump::Major => 3,
        }
    }

    /// Applies this bump level to a version: `Unchanged` keeps it, `Patch`
    /// increments the patch component, `Minor` increments the minor
    /// component and resets patch, `Major` increments the major component
    /// and resets minor and patch.
    pub fn apply(self, v: SemVer) -> (r: SemVer)
        requires
            can_apply(self, v),
        ensures
            r == apply_spec(self, v),
    {
        match self {
            Bump::Unchanged => v,
            Bump::Patch => SemVer { major: v.major, minor: v.minor, patch: v.patch + 1 },
            Bump::Minor => SemVer { major: v.major, minor: v.minor + 1, patch: 0 },
            Bump::Major => SemVer { major: v.major + 1, minor: 0, patch: 0 },
        }
    }

    /// Decodes the classifier's raw bump value; any value above `3` is
    /// a malformed verdict and yields `None`.
    pub fn from_raw(raw: u64) -> (r: Option<Bump>)
        ensures
            r == from_raw_spec(raw),
    {
        if raw == 0 {
            Some(Bump::Unchanged)
        } else if raw == 1 {
            Some(Bump::Patch)
        } else if raw == 2 {
            Some(Bump::Minor)
        } else if raw == 3 {
            Some(Bump::Major)
        } else {
            None
        }
    }
}

impl SemVer {
    /// Builds a version from its three components.
    pub fn new(major: u64, minor: u64, patch: u64) -> (r: SemVer)
        ensures
            r == (SemVer { major, minor, patch }),
    {
        SemVer { major, minor, patch }
    }
}

} // verus!
