//! The workspace's packages with their nested-containment pairs and
//! direct-dependency relation.

use vstd::prelude::*;

use crate::bump::SemVer;

verus! {

/// One workspace package: identity is its index in the graph's package list.
pub struct Package {
    pub name: String,
    pub version: SemVer,
    /// Workspace-relative source directory, as path bytes without a
    /// trailing separator.
    pub dir: Vec<u8>,
    /// Indices of the packages this one directly depends on.
    pub deps: Vec<usize>,
}

/// Whether path `p` is a component-wise prefix of path `q`, so that a file
/// at `q` lies in the directory `p`.  The empty path is a prefix of every
/// path, and every path is a prefix of itself.
pub open spec fn path_prefix(p: Seq<u8>, q: Seq<u8>) -> bool {
    ||| p.len() == 0
    ||| (p.len() <= q.len() && (forall|j: int| 0 <= j < p.len() ==> q[j] == p[j]) && (p.len()
        == q.len() || q[p.len() as int] == 47u8))
}

/// Whether every dependency edge points at a package of the list.
pub open spec fn deps_valid(pkgs: Seq<Package>) -> bool {
    forall|i: int, k: int|
        0 <= i < pkgs.len() && 0 <= k < pkgs[i].deps@.len() ==> (#[trigger] pkgs[i].deps@[k])
            < pkgs.len()
}

/// Whether package `j`'s source directory lies strictly inside package
/// `i`'s, in the sense that two distinct packages share a directory prefix.
pub open spec fn nested_rel(pkgs: Seq<Package>, i: int, j: int) -> bool {
    0 <= i < pkgs.len() && 0 <= j < pkgs.len() && i != j && path_prefix(pkgs[i].dir@, pkgs[j].dir@)
}

/// The package set with its two derived relations: nested-containment
/// pairs and a nested flag per package.
pub struct PackageGraph {
    pub packages: Vec<Package>,
    /// Every ordered pair (outer, inner) with inner nested in outer.
    pub nested_pairs: Vec<(usize, usize)>,
    /// `nested[j]` holds exactly when some other package contains `j`.
    pub nested: Vec<bool>,
}

impl PackageGraph {
    /// The derived relations agree with the package directories, and every
    /// dependency edge is in range.
    pub open spec fn wf(self) -> bool {
        &&& deps_valid(self.packages@)
        &&& self.nested@.len() == self.packages@.len()
        &&& forall|k: int|
            0 <= k < self.nested_pairs@.len() ==> nested_rel(
                self.packages@,
                (#[trigger] self.nested_pairs@[k]).0 as int,
                self.nested_pairs@[k].1 as int,
            )
        &&& forall|i: int, j: int|
            #![trigger nested_rel(self.packages@, i, j)]
            0 <= i < self.packages@.len() && 0 <= j < self.packages@.len() ==> (nested_rel(
                self.packages@,
                i,
                j,
            ) <==> self.nested_pairs@.contains((i as usize, j as usize)))
        &&& forall|j: int|
            0 <= j < self.packages@.len() ==> ((#[trigger] self.nested@[j]) <==> exists|i: int|
                nested_rel(self.packages@, i, j))
    }

    /// Builds the graph from the workspace package set, computing nested
    /// pairs and nested flags from the directory paths.  Returns `None`
    /// exactly when some dependency edge references an unknown package.
    pub fn new(packages: Vec<Package>) -> (r: Option<PackageGraph>)
        ensures
            r is Some <==> deps_valid(packages@),
            r is Some ==> r.unwrap().wf() && r.unwrap().packages == packages,
    {
        let n = packages.len();
        let mut i: usize = 0;
        while i < n
            invariant
                n == packages@.len(),
                forall|i2: int, k: int|
                    0 <= i2 < i && 0 <= k < packages@[i2].deps@.len() ==> (
                    #[trigger] packages@[i2].deps@[k]) < n,
            decreases n - i,
        {
            let mut k: usize = 0;
            let ndeps = packages[i].deps.len();
            while k < ndeps
                invariant
                    n == packages@.len(),
                    i < n,
                    ndeps == packages@[i as int].deps@.len(),
                    forall|k2: int|
                        0 <= k2 < k ==> (#[trigger] packages@[i as int].deps@[k2]) < n,
                decreases ndeps - k,
            {
                if packages[i].deps[k] >= n {
                    return None;
                }
                k += 1;
            }
            i += 1;
        }
        assert(deps_valid(packages@));

        let mut nested_pairs: Vec<(usize, usize)> = Vec::new();
        let mut i: usize = 0;
        while i < n
            invariant
                n == packages@.len(),
                forall|k: int|
                    0 <= k < nested_pairs@.len() ==> nested_rel(
                        packages@,
                        (#[trigger] nested_pairs@[k]).0 as int,
                        nested_pairs@[k].1 as int,
                    ),
                forall|i2: int, j2: int|
                    #![trigger nested_rel(packages@, i2, j2)]
                    0 <= i2 < i && 0 <= j2 < n ==> (nested_rel(packages@, i2, j2)
                        <==> nested_pairs@.contains((i2 as usize, j2 as usize))),
                forall|k: int|
                    0 <= k < nested_pairs@.len() ==> (#[trigger] nested_pairs@[k]).0 < i,
            decreases n - i,
        {
            let mut j: usize = 0;
            while j < n
                invariant
                    n == packages@.len(),
                    i < n,
                    forall|k: int|
                        0 <= k < nested_pairs@.len() ==> nested_rel(
                            packages@,
                            (#[trigger] nested_pairs@[k]).0 as int,
                            nested_pairs@[k].1 as int,
                        ),
                    forall|i2: int, j2: int|
                        #![trigger nested_rel(packages@, i2, j2)]
                        0 <= i2 < i && 0 <= j2 < n ==> (nested_rel(packages@, i2, j2)
                            <==> nested_pairs@.contains((i2 as usize, j2 as usize))),
                    forall|j2: int|
                        #![trigger nested_rel(packages@, i as int, j2)]
                        0 <= j2 < j ==> (nested_rel(packages@, i as int, j2)
                            <==> nested_pairs@.contains((i, j2 as usize))),
                    forall|k: int|
                        0 <= k < nested_pairs@.len() ==> ((#[trigger] nested_pairs@[k]).0 < i || (
                        nested_pairs@[k].0 == i && nested_pairs@[k].1 < j)),
                decreases n - j,
            {
                if j != i && is_path_prefix(&packages[i].dir, &packages[j].dir) {
                    let ghost old_pairs = nested_pairs@;
                    nested_pairs.push((i, j));
                    proof {
                        assert(nested_rel(packages@, i as int, j as int));
                        assert forall|p: (usize, usize)| #[trigger]
                            nested_pairs@.contains(p) <==> (old_pairs.contains(p) || p == (
                            i,
                            j,
                        )) by {
                            if old_pairs.contains(p) {
                                let k = choose|k: int|
                                    0 <= k < old_pairs.len() && old_pairs[k] == p;
                                assert(nested_pairs@[k] == p);
                            }
                            if p == (i, j) {
                                assert(nested_pairs@[nested_pairs@.len() - 1] == p);
                            }
                            if nested_pairs@.contains(p) {
                                let k = choose|k: int|
                                    0 <= k < nested_pairs@.len() && nested_pairs@[k] == p;
                                if k < old_pairs.len() {
                                    assert(old_pairs[k] == p);
                                }
                            }
                        }
                    }
                } else {
                    proof {
                        assert(!nested_rel(packages@, i as int, j as int));
                    }
                }
                j += 1;
            }
            i += 1;
        }

        let mut nested: Vec<bool> = Vec::new();
        let mut j: usize = 0;
        while j < n
            invariant
                n == packages@.len(),
                nested@.len() == j,
                j <= n,
                forall|j2: int|
                    0 <= j2 < j ==> ((#[trigger] nested@[j2]) <==> exists|i2: int|
                        nested_rel(packages@, i2, j2)),
            decreases n - j,
        {
            let mut found = false;
            let mut i: usize = 0;
            while i < n
                invariant
                    n == packages@.len(),
                    j < n,
                    found <==> exists|i2: int| 0 <= i2 < i && nested_rel(packages@, i2, j as int),
                decreases n - i,
            {
                if i != j && is_path_prefix(&packages[i].dir, &packages[j].dir) {
                    found = true;
                    proof {
                        assert(nested_rel(packages@, i as int, j as int));
                    }
                } else {
                    proof {
                        assert(!nested_rel(packages@, i as int, j as int));
                    }
                }
                i += 1;
            }
            nested.push(found);
            j += 1;
        }

        Some(PackageGraph { packages, nested_pairs, nested })
    }

    /// Whether package `j` is contained in some other package, so that its
    /// changelog and bump are derived purely by propagation.
    pub fn is_nested(&self, j: usize) -> (r: bool)
        requires
            self.wf(),
            j < self.packages@.len(),
        ensures
            r == self.nested@[j as int],
    {
        self.nested[j]
    }

    /// Whether package `d` directly depends on package `p`.
    pub fn depends_on(&self, d: usize, p: usize) -> (r: bool)
        requires
            d < self.packages@.len(),
        ensures
            r == self.packages@[d as int].deps@.contains(p),
    {
        let deps = &self.packages[d].deps;
        let mut k: usize = 0;
        while k < deps.len()
            invariant
                deps@ == self.packages@[d as int].deps@,
                forall|k2: int| 0 <= k2 < k ==> deps@[k2] != p,
            decreases deps@.len() - k,
        {
            if deps[k] == p {
                return true;
            }
            k += 1;
        }
        false
    }
}

/// Run-time check of [`path_prefix`].
pub fn is_path_prefix(p: &Vec<u8>, q: &Vec<u8>) -> (r: bool)
    ensures
        r == path_prefix(p@, q@),
{
    if p.len() == 0 {
        return true;
    }
    if p.len() > q.len() {
        return false;
    }
    let mut j: usize = 0;
    while j < p.len()
        invariant
            p@.len() <= q@.len(),
            j <= p@.len(),
            forall|j2: int| 0 <= j2 < j ==> q@[j2] == p@[j2],
        decreases p@.len() - j,
    {
        if q[j] != p[j] {
            return false;
        }
        j += 1;
    }
    if p.len() == q.len() {
        true
    } else {
        q[p.len()] == 47u8
    }
}

} // verus!
