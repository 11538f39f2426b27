use bureaucrate::bump::{Bump, SemVer};
use bureaucrate::graph::{Package, PackageGraph};
use bureaucrate::propagate::propagate;
use bureaucrate::status::PackageStatus;

fn pkg(name: &str, dir: &str, deps: Vec<usize>) -> Package {
    Package {
        name: name.to_owned(),
        version: SemVer::new(0, 1, 0),
        dir: dir.as_bytes().to_vec(),
        deps,
    }
}

fn status(bump: Bump) -> PackageStatus {
    let mut st = PackageStatus::new(SemVer::new(0, 1, 0));
    st.bump = bump;
    st
}

#[test]
fn dependency_bump_escalates_dependent_to_patch() {
    // `core` has no deps and a Minor bump; `cli` depends on `core`.
    let g = PackageGraph::new(vec![pkg("core", "core", vec![]), pkg("cli", "cli", vec![0])])
        .unwrap();
    let mut sts = vec![status(Bump::Minor), status(Bump::Unchanged)];
    propagate(&mut sts, &g);
    assert_eq!(sts[0].bump, Bump::Minor);
    assert_eq!(sts[1].bump, Bump::Patch);
    assert_eq!(sts[1].bump_reasons, vec!["dependency (core) had bump".to_owned()]);
}

#[test]
fn nested_pair_converges_to_equal_bump() {
    let g = PackageGraph::new(vec![
        pkg("outer", "outer", vec![]),
        pkg("inner", "outer/inner", vec![]),
    ])
    .unwrap();
    let mut sts = vec![status(Bump::Patch), status(Bump::Unchanged)];
    propagate(&mut sts, &g);
    assert_eq!(sts[0].bump, Bump::Patch);
    assert_eq!(sts[1].bump, Bump::Patch);
    assert_eq!(sts[1].bump_reasons, vec!["nested packages should have equal bump".to_owned()]);
    assert!(sts[0].bump_reasons.is_empty());
}

#[test]
fn nested_equality_flows_inner_to_outer_too() {
    let g = PackageGraph::new(vec![
        pkg("outer", "outer", vec![]),
        pkg("inner", "outer/inner", vec![]),
    ])
    .unwrap();
    let mut sts = vec![status(Bump::Unchanged), status(Bump::Major)];
    propagate(&mut sts, &g);
    assert_eq!(sts[0].bump, Bump::Major);
    assert_eq!(sts[1].bump, Bump::Major);
    assert_eq!(sts[0].bump_reasons, vec!["nested packages should have equal bump".to_owned()]);
}

#[test]
fn dependency_propagation_never_exceeds_patch() {
    let g = PackageGraph::new(vec![pkg("core", "core", vec![]), pkg("cli", "cli", vec![0])])
        .unwrap();
    let mut sts = vec![status(Bump::Major), status(Bump::Unchanged)];
    propagate(&mut sts, &g);
    assert_eq!(sts[1].bump, Bump::Patch);
}

#[test]
fn propagation_is_monotone() {
    let g = PackageGraph::new(vec![pkg("core", "core", vec![]), pkg("cli", "cli", vec![0])])
        .unwrap();
    let mut sts = vec![status(Bump::Patch), status(Bump::Major)];
    propagate(&mut sts, &g);
    assert_eq!(sts[0].bump, Bump::Patch);
    assert_eq!(sts[1].bump, Bump::Major);
}

#[test]
fn rerunning_on_converged_map_changes_nothing() {
    let g = PackageGraph::new(vec![
        pkg("outer", "outer", vec![]),
        pkg("inner", "outer/inner", vec![]),
        pkg("cli", "cli", vec![0]),
    ])
    .unwrap();
    let mut sts = vec![status(Bump::Minor), status(Bump::Unchanged), status(Bump::Unchanged)];
    propagate(&mut sts, &g);
    let bumps: Vec<Bump> = sts.iter().map(|s| s.bump).collect();
    let reasons: Vec<Vec<String>> = sts.iter().map(|s| s.bump_reasons.clone()).collect();
    propagate(&mut sts, &g);
    let bumps2: Vec<Bump> = sts.iter().map(|s| s.bump).collect();
    let reasons2: Vec<Vec<String>> = sts.iter().map(|s| s.bump_reasons.clone()).collect();
    assert_eq!(bumps, bumps2);
    assert_eq!(reasons, reasons2);
}

#[test]
fn nesting_chains_through_dependencies() {
    // inner is nested in outer; dep depends on inner: a bump on outer
    // reaches dep through the equalized inner.
    let g = PackageGraph::new(vec![
        pkg("outer", "o", vec![]),
        pkg("inner", "o/i", vec![]),
        pkg("dep", "d", vec![1]),
    ])
    .unwrap();
    let mut sts = vec![status(Bump::Minor), status(Bump::Unchanged), status(Bump::Unchanged)];
    propagate(&mut sts, &g);
    assert_eq!(sts[1].bump, Bump::Minor);
    assert_eq!(sts[2].bump, Bump::Patch);
}
