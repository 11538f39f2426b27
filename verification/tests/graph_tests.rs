use bureaucrate::bump::SemVer;
use bureaucrate::graph::{is_path_prefix, Package, PackageGraph};

fn pkg(name: &str, dir: &str, deps: Vec<usize>) -> Package {
    Package {
        name: name.to_owned(),
        version: SemVer::new(0, 1, 0),
        dir: dir.as_bytes().to_vec(),
        deps,
    }
}

#[test]
fn path_prefix_is_component_wise() {
    assert!(is_path_prefix(&b"crates/a".to_vec(), &b"crates/a/src".to_vec()));
    assert!(is_path_prefix(&b"crates/a".to_vec(), &b"crates/a".to_vec()));
    assert!(!is_path_prefix(&b"crates/a".to_vec(), &b"crates/ab".to_vec()));
    assert!(!is_path_prefix(&b"foo".to_vec(), &b"foobar".to_vec()));
    assert!(is_path_prefix(&b"".to_vec(), &b"anything".to_vec()));
}

#[test]
fn nested_detection_finds_inner_packages() {
    let g = PackageGraph::new(vec![
        pkg("outer", "outer", vec![]),
        pkg("inner", "outer/inner", vec![]),
        pkg("other", "other", vec![]),
    ])
    .unwrap();
    assert_eq!(g.nested_pairs, vec![(0, 1)]);
    assert_eq!(g.nested, vec![false, true, false]);
    assert!(!g.is_nested(0));
    assert!(g.is_nested(1));
    assert!(!g.is_nested(2));
}

#[test]
fn sibling_name_prefix_is_not_nesting() {
    let g = PackageGraph::new(vec![pkg("a", "foo", vec![]), pkg("b", "foobar", vec![])]).unwrap();
    assert!(g.nested_pairs.is_empty());
    assert_eq!(g.nested, vec![false, false]);
}

#[test]
fn identical_directories_nest_both_ways() {
    let g = PackageGraph::new(vec![pkg("a", "same", vec![]), pkg("b", "same", vec![])]).unwrap();
    assert_eq!(g.nested_pairs, vec![(0, 1), (1, 0)]);
    assert_eq!(g.nested, vec![true, true]);
}

#[test]
fn unknown_dependency_is_rejected() {
    assert!(PackageGraph::new(vec![pkg("a", "a", vec![5])]).is_none());
    assert!(PackageGraph::new(vec![pkg("a", "a", vec![1]), pkg("b", "b", vec![])]).is_some());
}

#[test]
fn depends_on_queries_direct_edges() {
    let g = PackageGraph::new(vec![pkg("a", "a", vec![1]), pkg("b", "b", vec![])]).unwrap();
    assert!(g.depends_on(0, 1));
    assert!(!g.depends_on(1, 0));
    assert!(!g.depends_on(0, 0));
}
