//! Per-package run state: changelog text, bump level and bump reasons.

use vstd::prelude::*;
use vstd::string::StringExecFns;

use crate::bump::{apply_spec, can_apply, from_raw_spec, level, Bump, SemVer};

verus! {

/// The classifier's answer for one package: free-form changelog text and
/// a raw requested bump value.
pub struct ClassifierVerdict {
    pub changelog: Vec<u8>,
    pub raw_bump: u64,
}

/// Mutable per-package state for one run, created at graph-build time and
/// kept parallel to the graph's package list.
pub struct PackageStatus {
    /// Accumulated changelog text; empty until the package is classified.
    pub changelog: Vec<u8>,
    /// Current bump level; never lowered once propagation begins.
    pub bump: Bump,
    /// Ordered human-readable reasons for each escalation.
    pub bump_reasons: Vec<String>,
    /// The package's version at the start of the run.
    pub version: SemVer,
}

/// The readable name of a bump level, as it appears in bump reasons and
/// in the dry-run report.
pub open spec fn bump_label_view(b: Bump) -> Seq<char> {
    match b {
        Bump::Unchanged => ("Unchanged")@,
        Bump::Patch => ("Patch")@,
        Bump::Minor => ("Minor")@,
        Bump::Major => ("Major")@,
    }
}

/// The reason recorded when the classifier itself asks for a bump.
pub open spec fn classifier_reason_view(b: Bump) -> Seq<char> {
    ("changelog classifier decided to bump to ")@ + bump_label_view(b)
}

/// Run-time rendering of [`bump_label_view`].
pub fn bump_label(b: Bump) -> (r: &'static str)
    ensures
        r@ == bump_label_view(b),
{
    match b {
        Bump::Unchanged => "Unchanged",
        Bump::Patch => "Patch",
        Bump::Minor => "Minor",
        Bump::Major => "Major",
    }
}

impl PackageStatus {
    /// The initial status of a package: empty changelog, no bump, no
    /// reasons.
    pub fn new(version: SemVer) -> (r: PackageStatus)
        ensures
            r.changelog@ == Seq::<u8>::empty(),
            r.bump == Bump::Unchanged,
            r.bump_reasons@ == Seq::<String>::empty(),
            r.version == version,
    {
        PackageStatus { changelog: Vec::new(), bump: Bump::Unchanged, bump_reasons: Vec::new(), version }
    }

    /// The version the package will be released as, given its final bump.
    pub fn final_version(&self) -> (r: SemVer)
        requires
            can_apply(self.bump, self.version),
        ensures
            r == apply_spec(self.bump, self.version),
    {
        self.bump.apply(self.version)
    }

    /// Stores the verdict's changelog, seeds the bump level, and when the
    /// seeded level is above `Unchanged` pushes one reason for it.  A raw
    /// bump outside the four levels is malformed: nothing is stored and
    /// `false` comes back.
    pub fn seed_verdict(&mut self, verdict: ClassifierVerdict) -> (ok: bool)
        ensures
            ok <==> from_raw_spec(verdict.raw_bump) is Some,
            !ok ==> *final(self) == *old(self),
            ok ==> {
                &&& final(self).changelog == verdict.changelog
                &&& Some(final(self).bump) == from_raw_spec(verdict.raw_bump)
                &&& final(self).version == old(self).version
                &&& if level(final(self).bump) > 0 {
                    exists|reason: String|
                        final(self).bump_reasons@ == old(self).bump_reasons@.push(reason)
                            && reason@ == classifier_reason_view(final(self).bump)
                } else {
                    final(self).bump_reasons == old(self).bump_reasons
                }
            },
    {
        let bump = match Bump::from_raw(verdict.raw_bump) {
            Some(b) => b,
            Option::None => {
                return false;
            },
        };
        self.changelog = verdict.changelog;
        self.bump = bump;
        if bump.rank() > 0 {
            let mut reason = String::from_str("changelog classifier decided to bump to ");
            reason.append(bump_label(bump));
            let ghost r = reason;
            self.bump_reasons.push(reason);
            proof {
                assert(self.bump_reasons@ == old(self).bump_reasons@.push(r));
            }
        }
        true
    }
}

} // verus!
