//! Attributing commits to the packages whose source trees they touch.

use vstd::prelude::*;

use crate::graph::path_prefix;

verus! {

/// Metadata of one commit, as the classifier sees it.
#[derive(Debug, PartialEq, Eq)]
pub struct CommitRecord {
    pub id: String,
    pub author_name: String,
    pub author_email: String,
    pub message: String,
}

impl Clone for CommitRecord {
    fn clone(&self) -> (r: Self)
        ensures
            r == *self,
    {
        CommitRecord {
            id: self.id.clone(),
            author_name: self.author_name.clone(),
            author_email: self.author_email.clone(),
            message: self.message.clone(),
        }
    }
}

/// One commit of the bounded history walk together with every file path
/// (old or new side of a parent diff) that it changes.
pub struct ChangedCommit {
    pub record: CommitRecord,
    pub paths: Vec<Vec<u8>>,
}

/// Whether the commit changes at least one file under the directory `dir`.
pub open spec fn touches(c: ChangedCommit, dir: Seq<u8>) -> bool {
    exists|k: int| 0 <= k < c.paths@.len() && path_prefix(dir, (#[trigger] c.paths@[k])@)
}

/// The records of the first `i` commits that touch `dir`, in input order.
pub open spec fn attributed_prefix(commits: Seq<ChangedCommit>, dir: Seq<u8>, i: int) -> Seq<
    CommitRecord,
>
    decreases i,
{
    if i <= 0 {
        Seq::empty()
    } else {
        attributed_prefix(commits, dir, i - 1) + if touches(commits[i - 1], dir) {
            seq![commits[i - 1].record]
        } else {
            Seq::empty()
        }
    }
}

/// The ordered records of every commit of the walk that touches `dir`.
pub open spec fn attributed(commits: Seq<ChangedCommit>, dir: Seq<u8>) -> Seq<CommitRecord> {
    attributed_prefix(commits, dir, commits.len() as int)
}

/// How often `r` occurs in `s`.
pub open spec fn occurrences(s: Seq<CommitRecord>, r: CommitRecord) -> nat
    decreases s.len(),
{
    if s.len() == 0 {
        0
    } else {
        occurrences(s.drop_last(), r) + if s.last() == r {
            1nat
        } else {
            0nat
        }
    }
}

/// Run-time check of [`touches`].
pub fn commit_touches(c: &ChangedCommit, dir: &Vec<u8>) -> (r: bool)
    ensures
        r == touches(*c, dir@),
{
    let mut k: usize = 0;
    while k < c.paths.len()
        invariant
            forall|k2: int| 0 <= k2 < k ==> !path_prefix(dir@, (#[trigger] c.paths@[k2])@),
        decreases c.paths@.len() - k,
    {
        if crate::graph::is_path_prefix(dir, &c.paths[k]) {
            return true;
        }
        k += 1;
    }
    false
}

/// Returns, in walk order, the record of every commit whose changes touch
/// the package directory `dir`.  A commit relevant to several packages is
/// independently included for each of them; attribution is per package,
/// not exclusive.
pub fn attribute(commits: &Vec<ChangedCommit>, dir: &Vec<u8>) -> (r: Vec<CommitRecord>)
    ensures
        r@ == attributed(commits@, dir@),
{
    let mut r: Vec<CommitRecord> = Vec::new();
    let mut i: usize = 0;
    while i < commits.len()
        invariant
            i <= commits@.len(),
            r@ == attributed_prefix(commits@, dir@, i as int),
        decreases commits@.len() - i,
    {
        if commit_touches(&commits[i], dir) {
            r.push(commits[i].record.clone());
        }
        i += 1;
    }
    r
}

/// Commit attribution is exact: a commit that touches no file under the
/// package directory never appears in the package's list, and one that
/// touches at least one file under it appears exactly once, provided the
/// walk hands each commit over once (pairwise distinct records).
pub proof fn lemma_attribution_membership(commits: Seq<ChangedCommit>, dir: Seq<u8>, i: int)
    requires
        0 <= i < commits.len(),
        forall|a: int, b: int|
            0 <= a < b < commits.len() ==> (#[trigger] commits[a]).record != (
            #[trigger] commits[b]).record,
    ensures
        occurrences(attributed(commits, dir), commits[i].record) == if touches(commits[i], dir) {
            1nat
        } else {
            0nat
        },
        attributed(commits, dir).contains(commits[i].record) <==> touches(commits[i], dir),
{
    lemma_occurrences_prefix(commits, dir, i, commits.len() as int);
    lemma_occurrences_contains(attributed(commits, dir), commits[i].record);
}

/// Attribution invents nothing: every record of the result belongs to a
/// commit of the walk that touches the directory.  In particular, a commit
/// that the boundary revision excluded from the walk can appear in no
/// package's attributed list.
pub proof fn lemma_attribution_source(commits: Seq<ChangedCommit>, dir: Seq<u8>, r: CommitRecord)
    requires
        attributed(commits, dir).contains(r),
    ensures
        exists|i: int| 0 <= i < commits.len() && (#[trigger] commits[i]).record == r && touches(
            commits[i],
            dir,
        ),
{
    lemma_attribution_source_prefix(commits, dir, r, commits.len() as int);
}

proof fn lemma_attribution_source_prefix(
    commits: Seq<ChangedCommit>,
    dir: Seq<u8>,
    r: CommitRecord,
    m: int,
)
    requires
        0 <= m <= commits.len(),
        attributed_prefix(commits, dir, m).contains(r),
    ensures
        exists|i: int| 0 <= i < m && (#[trigger] commits[i]).record == r && touches(
            commits[i],
            dir,
        ),
    decreases m,
{
    let pre = attributed_prefix(commits, dir, m - 1);
    let whole = attributed_prefix(commits, dir, m);
    if m > 0 {
        if touches(commits[m - 1], dir) {
            let k = choose|k: int| 0 <= k < whole.len() && whole[k] == r;
            if k < pre.len() {
                assert(pre[k] == r);
                assert(pre.contains(r));
                lemma_attribution_source_prefix(commits, dir, r, m - 1);
            } else {
                assert(whole[k] == commits[m - 1].record);
            }
        } else {
            assert(whole =~= pre);
            lemma_attribution_source_prefix(commits, dir, r, m - 1);
        }
    }
}

proof fn lemma_occurrences_prefix(commits: Seq<ChangedCommit>, dir: Seq<u8>, i: int, m: int)
    requires
        0 <= i < commits.len(),
        0 <= m <= commits.len(),
        forall|a: int, b: int|
            0 <= a < b < commits.len() ==> (#[trigger] commits[a]).record != (
            #[trigger] commits[b]).record,
    ensures
        occurrences(attributed_prefix(commits, dir, m), commits[i].record) == if i < m && touches(
            commits[i],
            dir,
        ) {
            1nat
        } else {
            0nat
        },
    decreases m,
{
    if m > 0 {
        lemma_occurrences_prefix(commits, dir, i, m - 1);
        let pre = attributed_prefix(commits, dir, m - 1);
        let whole = attributed_prefix(commits, dir, m);
        if touches(commits[m - 1], dir) {
            assert(whole == pre + seq![commits[m - 1].record]);
            assert(whole.drop_last() =~= pre);
            assert(whole.last() == commits[m - 1].record);
            if i != m - 1 {
                assert(commits[i].record != commits[m - 1].record);
            }
        } else {
            assert(whole =~= pre);
        }
    }
}

proof fn lemma_occurrences_contains(s: Seq<CommitRecord>, r: CommitRecord)
    ensures
        s.contains(r) <==> occurrences(s, r) > 0,
    decreases s.len(),
{
    if s.len() > 0 {
        lemma_occurrences_contains(s.drop_last(), r);
        if s.contains(r) {
            let k = choose|k: int| 0 <= k < s.len() && s[k] == r;
            if k < s.len() - 1 {
                assert(s.drop_last()[k] == r);
            }
        }
        if s.drop_last().contains(r) {
            let k = choose|k: int| 0 <= k < s.drop_last().len() && s.drop_last()[k] == r;
            assert(s[k] == r);
        }
    }
}

} // verus!
