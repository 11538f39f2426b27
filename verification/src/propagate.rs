//! The fixed-point reconciliation of per-package bump levels across
//! nested-containment pairs and dependency edges.

use vstd::prelude::*;
use vstd::string::StringExecFns;

use crate::bump::{level, Bump};
use crate::graph::PackageGraph;
use crate::status::PackageStatus;

verus! {

/// The bump levels of a status list, in package order.
pub open spec fn bumps_of(s: Seq<PackageStatus>) -> Seq<Bump> {
    s.map_values(|st: PackageStatus| st.bump)
}

/// How far a level still is from `Major`; the propagation loop's ranking
/// function.
pub open spec fn gap(b: Bump) -> nat {
    match b {
        Bump::Unchanged => 3,
        Bump::Patch => 2,
        Bump::Minor => 1,
        Bump::Major => 0,
    }
}

/// Total remaining distance of an assignment from all-`Major`; strictly
/// shrinks on every changing pass.
pub open spec fn potential(s: Seq<Bump>) -> nat
    decreases s.len(),
{
    if s.len() == 0 {
        0
    } else {
        potential(s.drop_last()) + gap(s.last())
    }
}

/// `a` is pointwise at least `b`.
pub open spec fn dominates(a: Seq<Bump>, b: Seq<Bump>) -> bool {
    a.len() == b.len() && forall|i: int| 0 <= i < a.len() ==> level(b[i]) <= level(#[trigger] a[i])
}

/// `a` is a prefix of `b`.
pub open spec fn seq_prefix<T>(a: Seq<T>, b: Seq<T>) -> bool {
    a.len() <= b.len() && forall|i: int| 0 <= i < a.len() ==> a[i] == #[trigger] b[i]
}

/// The two sides of nested pair `k` carry equal bumps.
pub open spec fn pair_eq(g: PackageGraph, bumps: Seq<Bump>, k: int) -> bool {
    bumps[g.nested_pairs@[k].0 as int] == bumps[g.nested_pairs@[k].1 as int]
}

/// If `d` directly depends on `p` and `p` has any bump, `d` has at least a
/// `Patch`-level bump.
pub open spec fn dep_ok(g: PackageGraph, bumps: Seq<Bump>, p: int, d: int) -> bool {
    (g.packages@[d].deps@.contains(p as usize) && level(bumps[p]) > 0) ==> level(bumps[d]) >= 1
}

/// A graph-consistent assignment: every nested pair is equal and every
/// dependency edge from a bumped package forces at least `Patch` on the
/// dependent.  A pass of the propagation loop changes nothing if and only
/// if this holds.
pub open spec fn stable_bumps(g: PackageGraph, bumps: Seq<Bump>) -> bool {
    &&& bumps.len() == g.packages@.len()
    &&& forall|k: int| 0 <= k < g.nested_pairs@.len() ==> #[trigger] pair_eq(g, bumps, k)
    &&& forall|p: int, d: int|
        0 <= p < bumps.len() && 0 <= d < bumps.len() ==> #[trigger] dep_ok(g, bumps, p, d)
}

/// `t` is a stable assignment lying above the seeded one: the propagation
/// result must stay below every such `t`.
pub open spec fn stable_above(g: PackageGraph, t: Seq<Bump>, base: Seq<Bump>) -> bool {
    stable_bumps(g, t) && dominates(t, base)
}

/// What the propagation loop never touches, and how it may move the rest:
/// changelogs and versions are untouched, reasons are only appended, and
/// bump levels never go down.
pub open spec fn frame_ok(old_s: Seq<PackageStatus>, new_s: Seq<PackageStatus>) -> bool {
    &&& new_s.len() == old_s.len()
    &&& forall|i: int|
        0 <= i < new_s.len() ==> {
            &&& (#[trigger] new_s[i]).changelog == old_s[i].changelog
            &&& new_s[i].version == old_s[i].version
            &&& seq_prefix(old_s[i].bump_reasons@, new_s[i].bump_reasons@)
            &&& level(old_s[i].bump) <= level(new_s[i].bump)
        }
}

/// The reason recorded when a nested pair is equalized.
pub open spec fn nested_reason_view() -> Seq<char> {
    ("nested packages should have equal bump")@
}

/// The reason recorded when a dependency of `name` forces a bump.
pub open spec fn dep_reason_view(name: Seq<char>) -> Seq<char> {
    ("dependency (")@ + name + (") had bump")@
}

/// Every reason the propagation loop itself appends: either the nested
/// equality text or the dependency text naming some package of the graph.
pub open spec fn reason_wf(g: PackageGraph, r: String) -> bool {
    r@ == nested_reason_view() || exists|p: int|
        0 <= p < g.packages@.len() && r@ == dep_reason_view(g.packages@[p].name@)
}

/// Reasons appended between `old_s` and `new_s` all carry a propagation
/// rule's text.
pub open spec fn new_reasons_wf(g: PackageGraph, old_s: Seq<PackageStatus>, new_s: Seq<PackageStatus>) -> bool {
    forall|i: int, idx: int|
        0 <= i < new_s.len() && 0 <= idx < new_s[i].bump_reasons@.len() && (i
            >= old_s.len() || idx >= old_s[i].bump_reasons@.len()) ==> #[trigger] reason_wf(
            g,
            new_s[i].bump_reasons@[idx],
        )
}

/// In a stable assignment, nested packages carry equal bumps: whenever
/// package `j`'s directory lies inside package `i`'s, their levels agree.
pub proof fn lemma_nested_equal_bumps(g: PackageGraph, bumps: Seq<Bump>, i: usize, j: usize)
    requires
        g.wf(),
        stable_bumps(g, bumps),
        crate::graph::nested_rel(g.packages@, i as int, j as int),
    ensures
        bumps[i as int] == bumps[j as int],
{
    assert(g.nested_pairs@.contains((i, j)));
    let k = choose|k: int| 0 <= k < g.nested_pairs@.len() && g.nested_pairs@[k] == (i, j);
    assert(pair_eq(g, bumps, k));
}

/// In a stable assignment, every dependent of a bumped package is itself
/// bumped to at least `Patch`.
pub proof fn lemma_dependent_bumped(g: PackageGraph, bumps: Seq<Bump>, p: usize, d: usize)
    requires
        g.wf(),
        stable_bumps(g, bumps),
        p < bumps.len(),
        d < bumps.len(),
        g.packages@[d as int].deps@.contains(p),
        level(bumps[p as int]) > 0,
    ensures
        level(bumps[d as int]) >= 1,
{
    assert(dep_ok(g, bumps, p as int, d as int));
}

proof fn lemma_level_gap(x: Bump, y: Bump)
    ensures
        level(x) <= level(y) ==> gap(y) <= gap(x),
        level(x) < level(y) ==> gap(y) < gap(x),
{
}

/// Raising levels pointwise lowers the potential, strictly so if some
/// level strictly rises.
proof fn lemma_potential_dominates(lower: Seq<Bump>, upper: Seq<Bump>)
    requires
        dominates(upper, lower),
    ensures
        potential(upper) <= potential(lower),
        (exists|i: int| 0 <= i < lower.len() && level(lower[i]) < level(#[trigger] upper[i]))
            ==> potential(upper) < potential(lower),
    decreases lower.len(),
{
    if lower.len() == 0 {
    } else {
        let la = lower.drop_last();
        let ua = upper.drop_last();
        assert(dominates(ua, la)) by {
            assert(forall|i: int| 0 <= i < la.len() ==> la[i] == lower[i] && #[trigger] ua[i] == upper[i]);
        }
        lemma_potential_dominates(la, ua);
        lemma_level_gap(lower.last(), upper.last());
        if exists|i: int| 0 <= i < lower.len() && level(lower[i]) < level(#[trigger] upper[i]) {
            let i = choose|i: int| 0 <= i < lower.len() && level(lower[i]) < level(#[trigger] upper[i]);
            if i == lower.len() - 1 {
                assert(gap(upper.last()) < gap(lower.last()));
            } else {
                assert(level(la[i]) < level(ua[i]));
                assert(potential(ua) < potential(la));
            }
        }
    }
}

/// One full pass of the two propagation rules, in priority order: nested
/// equality (both directions of every pair), then dependency propagation.
/// Returns whether the pass changed anything.
fn one_pass(statuses: &mut Vec<PackageStatus>, g: &PackageGraph) -> (changed: bool)
    requires
        old(statuses)@.len() == g.packages@.len(),
        g.wf(),
    ensures
        frame_ok(old(statuses)@, final(statuses)@),
        changed ==> exists|j: int|
            0 <= j < old(statuses)@.len() && level(old(statuses)@[j].bump) < level(
                #[trigger] final(statuses)@[j].bump,
            ),
        !changed ==> final(statuses)@ == old(statuses)@ && stable_bumps(
            *g,
            bumps_of(final(statuses)@),
        ),
        stable_bumps(*g, bumps_of(old(statuses)@)) ==> !changed,
        new_reasons_wf(*g, old(statuses)@, final(statuses)@),
        forall|t: Seq<Bump>|
            #[trigger] stable_above(*g, t, bumps_of(old(statuses)@)) ==> dominates(
                t,
                bumps_of(final(statuses)@),
            ),
{
    let ghost orig = statuses@;
    let n = statuses.len();
    let mut changed = false;

    let npairs = g.nested_pairs.len();
    let mut k: usize = 0;
    while k < npairs
        invariant
            g.wf(),
            npairs == g.nested_pairs@.len(),
            n == g.packages@.len(),
            statuses@.len() == orig.len() == n,
            frame_ok(orig, statuses@),
            new_reasons_wf(*g, orig, statuses@),
            changed ==> exists|j: int|
                0 <= j < orig.len() && level(orig[j].bump) < level(#[trigger] statuses@[j].bump),
            !changed ==> statuses@ == orig && (forall|k2: int|
                0 <= k2 < k ==> #[trigger] pair_eq(*g, bumps_of(statuses@), k2)),
            stable_bumps(*g, bumps_of(orig)) ==> !changed,
            forall|t: Seq<Bump>|
                #[trigger] stable_above(*g, t, bumps_of(orig)) ==> dominates(
                    t,
                    bumps_of(statuses@),
                ),
        decreases npairs - k,
    {
        let a = g.nested_pairs[k].0;
        let b = g.nested_pairs[k].1;
        proof {
            assert(crate::graph::nested_rel(g.packages@, a as int, b as int));
        }
        let ra = statuses[a].bump.rank();
        let rb = statuses[b].bump.rank();
        if ra != rb {
            let (lo, hi) = if rb < ra {
                (b, a)
            } else {
                (a, b)
            };
            let ghost before = statuses@;
            let nb = statuses[hi].bump;
            let mut st = statuses.remove(lo);
            st.bump = nb;
            st.bump_reasons.push(String::from_str("nested packages should have equal bump"));
            let ghost stg = st;
            statuses.insert(lo, st);
            changed = true;
            proof {
                assert(statuses@ =~= before.update(lo as int, stg));
                assert(forall|i: int|
                    0 <= i < statuses@.len() ==> level(before[i].bump) <= level(
                        #[trigger] statuses@[i].bump,
                    ));
                assert(level(orig[lo as int].bump) < level(statuses@[lo as int].bump));
                assert forall|i: int, idx: int|
                    0 <= i < statuses@.len() && 0 <= idx < statuses@[i].bump_reasons@.len() && (i
                        >= orig.len() || idx >= orig[i].bump_reasons@.len()) implies #[trigger] reason_wf(
                    *g,
                    statuses@[i].bump_reasons@[idx],
                ) by {
                    if i == lo as int {
                        if idx < before[i].bump_reasons@.len() {
                            assert(statuses@[i].bump_reasons@[idx] == before[i].bump_reasons@[idx]);
                            assert(reason_wf(*g, before[i].bump_reasons@[idx]));
                        } else {
                            assert(statuses@[i].bump_reasons@[idx]@ == nested_reason_view());
                        }
                    } else {
                        assert(statuses@[i] == before[i]);
                        assert(reason_wf(*g, before[i].bump_reasons@[idx]));
                    }
                }
                assert(!stable_bumps(*g, bumps_of(orig))) by {
                    if stable_bumps(*g, bumps_of(orig)) {
                        assert(before == orig);
                        assert(pair_eq(*g, bumps_of(orig), k as int));
                        assert(bumps_of(orig)[a as int] == orig[a as int].bump);
                        assert(bumps_of(orig)[b as int] == orig[b as int].bump);
                    }
                }
                assert forall|t: Seq<Bump>| #[trigger]
                    stable_above(*g, t, bumps_of(orig)) implies dominates(
                    t,
                    bumps_of(statuses@),
                ) by {
                    assert(dominates(t, bumps_of(before)));
                    assert(pair_eq(*g, t, k as int));
                    assert(level(t[hi as int]) >= level(before[hi as int].bump));
                    assert(forall|i: int|
                        0 <= i < statuses@.len() ==> level(#[trigger] bumps_of(statuses@)[i])
                            <= level(t[i]));
                }
            }
        } else {
            proof {
                assert(statuses@[a as int].bump == statuses@[b as int].bump);
            }
        }
        k += 1;
    }

    let mut p: usize = 0;
    while p < n
        invariant
            g.wf(),
            n == g.packages@.len(),
            statuses@.len() == orig.len() == n,
            frame_ok(orig, statuses@),
            new_reasons_wf(*g, orig, statuses@),
            changed ==> exists|j: int|
                0 <= j < orig.len() && level(orig[j].bump) < level(#[trigger] statuses@[j].bump),
            !changed ==> statuses@ == orig && (forall|k2: int|
                0 <= k2 < g.nested_pairs@.len() ==> #[trigger] pair_eq(
                    *g,
                    bumps_of(statuses@),
                    k2,
                )) && (forall|p2: int, d2: int|
                0 <= p2 < p && 0 <= d2 < n ==> #[trigger] dep_ok(*g, bumps_of(statuses@), p2, d2)),
            stable_bumps(*g, bumps_of(orig)) ==> !changed,
            forall|t: Seq<Bump>|
                #[trigger] stable_above(*g, t, bumps_of(orig)) ==> dominates(
                    t,
                    bumps_of(statuses@),
                ),
        decreases n - p,
    {
        if statuses[p].bump.rank() > 0 {
            let mut d: usize = 0;
            while d < n
                invariant
                    g.wf(),
                    n == g.packages@.len(),
                    statuses@.len() == orig.len() == n,
                    p < n,
                    level(statuses@[p as int].bump) > 0,
                    frame_ok(orig, statuses@),
                    new_reasons_wf(*g, orig, statuses@),
                    changed ==> exists|j: int|
                        0 <= j < orig.len() && level(orig[j].bump) < level(
                            #[trigger] statuses@[j].bump,
                        ),
                    !changed ==> statuses@ == orig && (forall|k2: int|
                        0 <= k2 < g.nested_pairs@.len() ==> #[trigger] pair_eq(
                            *g,
                            bumps_of(statuses@),
                            k2,
                        )) && (forall|p2: int, d2: int|
                        0 <= p2 < p && 0 <= d2 < n ==> #[trigger] dep_ok(
                            *g,
                            bumps_of(statuses@),
                            p2,
                            d2,
                        )) && (forall|d2: int|
                        0 <= d2 < d ==> #[trigger] dep_ok(*g, bumps_of(statuses@), p as int, d2)),
                    stable_bumps(*g, bumps_of(orig)) ==> !changed,
                    forall|t: Seq<Bump>|
                        #[trigger] stable_above(*g, t, bumps_of(orig)) ==> dominates(
                            t,
                            bumps_of(statuses@),
                        ),
                decreases n - d,
            {
                if g.depends_on(d, p) && statuses[d].bump.rank() < 1 {
                    let ghost before = statuses@;
                    let mut st = statuses.remove(d);
                    st.bump = Bump::Patch;
                    let mut reason = String::from_str("dependency (");
                    reason.append(g.packages[p].name.as_str());
                    reason.append(") had bump");
                    st.bump_reasons.push(reason);
                    let ghost stg = st;
                    statuses.insert(d, st);
                    changed = true;
                    proof {
                        assert(statuses@ =~= before.update(d as int, stg));
                        assert(forall|i: int|
                            0 <= i < statuses@.len() ==> level(before[i].bump) <= level(
                                #[trigger] statuses@[i].bump,
                            ));
                        assert(level(orig[d as int].bump) < level(statuses@[d as int].bump));
                        assert forall|i: int, idx: int|
                            0 <= i < statuses@.len() && 0 <= idx < statuses@[i].bump_reasons@.len()
                                && (i >= orig.len() || idx
                                >= orig[i].bump_reasons@.len()) implies #[trigger] reason_wf(
                            *g,
                            statuses@[i].bump_reasons@[idx],
                        ) by {
                            if i == d as int {
                                if idx < before[i].bump_reasons@.len() {
                                    assert(statuses@[i].bump_reasons@[idx]
                                        == before[i].bump_reasons@[idx]);
                                    assert(reason_wf(*g, before[i].bump_reasons@[idx]));
                                } else {
                                    assert(statuses@[i].bump_reasons@[idx]@ == dep_reason_view(
                                        g.packages@[p as int].name@,
                                    ));
                                }
                            } else {
                                assert(statuses@[i] == before[i]);
                                assert(reason_wf(*g, before[i].bump_reasons@[idx]));
                            }
                        }
                        assert(!stable_bumps(*g, bumps_of(orig))) by {
                            if stable_bumps(*g, bumps_of(orig)) {
                                assert(before == orig);
                                assert(dep_ok(*g, bumps_of(orig), p as int, d as int));
                                assert(bumps_of(orig)[p as int] == orig[p as int].bump);
                                assert(bumps_of(orig)[d as int] == orig[d as int].bump);
                            }
                        }
                        assert forall|t: Seq<Bump>| #[trigger]
                            stable_above(*g, t, bumps_of(orig)) implies dominates(
                            t,
                            bumps_of(statuses@),
                        ) by {
                            assert(dominates(t, bumps_of(before)));
                            assert(dep_ok(*g, t, p as int, d as int));
                            assert(level(t[p as int]) >= level(before[p as int].bump));
                            assert(forall|i: int|
                                0 <= i < statuses@.len() ==> level(
                                    #[trigger] bumps_of(statuses@)[i],
                                ) <= level(t[i]));
                        }
                    }
                } else {
                    proof {
                        assert(dep_ok(*g, bumps_of(statuses@), p as int, d as int));
                    }
                }
                d += 1;
            }
        } else {
            proof {
                assert(forall|d2: int|
                    0 <= d2 < n ==> #[trigger] dep_ok(*g, bumps_of(statuses@), p as int, d2));
            }
        }
        p += 1;
    }
    changed
}

/// Runs propagation passes until a pass makes no change.  The result is
/// the least graph-consistent assignment above the seeded one:
///
/// - no package's bump is ever lowered (monotonicity);
/// - the final assignment is stable: nested pairs are equal, and every
///   dependent of a bumped package is at least at `Patch`;
/// - every stable assignment above the seeded one also lies above the
///   result (the algorithm escalates no further than the rules force);
/// - on an already-stable status list nothing changes at all, reasons
///   included (idempotence);
/// - changelogs and versions are untouched and reasons only appended.
pub fn propagate(statuses: &mut Vec<PackageStatus>, g: &PackageGraph)
    requires
        old(statuses)@.len() == g.packages@.len(),
        g.wf(),
    ensures
        frame_ok(old(statuses)@, final(statuses)@),
        new_reasons_wf(*g, old(statuses)@, final(statuses)@),
        stable_bumps(*g, bumps_of(final(statuses)@)),
        forall|t: Seq<Bump>|
            #[trigger] stable_above(*g, t, bumps_of(old(statuses)@)) ==> dominates(
                t,
                bumps_of(final(statuses)@),
            ),
        stable_bumps(*g, bumps_of(old(statuses)@)) ==> final(statuses)@ == old(statuses)@,
{
    let ghost orig = statuses@;
    let mut done = false;
    while !done
        invariant
            g.wf(),
            statuses@.len() == g.packages@.len(),
            frame_ok(orig, statuses@),
            new_reasons_wf(*g, orig, statuses@),
            done ==> stable_bumps(*g, bumps_of(statuses@)),
            forall|t: Seq<Bump>|
                #[trigger] stable_above(*g, t, bumps_of(orig)) ==> dominates(
                    t,
                    bumps_of(statuses@),
                ),
            stable_bumps(*g, bumps_of(orig)) ==> statuses@ == orig,
        decreases 2 * potential(bumps_of(statuses@)) + if done {
            0int
        } else {
            1int
        },
    {
        let ghost before = statuses@;
        let changed = one_pass(statuses, g);
        if !changed {
            done = true;
        }
        proof {
            assert forall|t: Seq<Bump>| #[trigger]
                stable_above(*g, t, bumps_of(orig)) implies dominates(t, bumps_of(statuses@)) by {
                assert(dominates(t, bumps_of(before)));
                assert(stable_above(*g, t, bumps_of(before)));
            }
            assert forall|i: int, idx: int|
                0 <= i < statuses@.len() && 0 <= idx < statuses@[i].bump_reasons@.len() && (i
                    >= orig.len() || idx >= orig[i].bump_reasons@.len()) implies #[trigger] reason_wf(
                *g,
                statuses@[i].bump_reasons@[idx],
            ) by {
                assert(statuses@[i].changelog == before[i].changelog);
                if idx < before[i].bump_reasons@.len() {
                    assert(seq_prefix(before[i].bump_reasons@, statuses@[i].bump_reasons@));
                    assert(statuses@[i].bump_reasons@[idx] == before[i].bump_reasons@[idx]);
                    assert(reason_wf(*g, before[i].bump_reasons@[idx]));
                } else {
                    assert(reason_wf(*g, statuses@[i].bump_reasons@[idx]));
                }
            }
            assert(frame_ok(orig, statuses@)) by {
                assert(forall|i: int|
                    0 <= i < statuses@.len() ==> level(orig[i].bump) <= level(
                        before[i].bump,
                    ) <= level(#[trigger] statuses@[i].bump));
            }
            if changed {
                assert(dominates(bumps_of(statuses@), bumps_of(before))) by {
                    assert(forall|i: int|
                        0 <= i < statuses@.len() ==> level(#[trigger] bumps_of(before)[i]) <= level(
                            bumps_of(statuses@)[i],
                        ));
                }
                lemma_potential_dominates(bumps_of(before), bumps_of(statuses@));
                let j = choose|j: int|
                    0 <= j < before.len() && level(before[j].bump) < level(
                        #[trigger] statuses@[j].bump,
                    );
                assert(level(bumps_of(before)[j]) < level(bumps_of(statuses@)[j]));
            }
        }
    }
}

} // verus!
