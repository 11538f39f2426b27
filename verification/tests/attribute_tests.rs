use bureaucrate::attribute::{attribute, commit_touches, ChangedCommit, CommitRecord};

fn commit(id: &str, paths: &[&str]) -> ChangedCommit {
    ChangedCommit {
        record: CommitRecord {
            id: id.to_owned(),
            author_name: "Alex".to_owned(),
            author_email: "alex@example.com".to_owned(),
            message: format!("commit {id}"),
        },
        paths: paths.iter().map(|p| p.as_bytes().to_vec()).collect(),
    }
}

#[test]
fn commit_outside_package_never_appears() {
    let commits = vec![commit("c1", &["other/src/lib.rs"]), commit("c2", &["docs/readme.md"])];
    let r = attribute(&commits, &b"pkg".to_vec());
    assert!(r.is_empty());
}

#[test]
fn touching_commit_appears_exactly_once() {
    let commits = vec![commit("c1", &["pkg/src/lib.rs", "pkg/src/main.rs", "other/x"])];
    let r = attribute(&commits, &b"pkg".to_vec());
    assert_eq!(r.len(), 1);
    assert_eq!(r[0].id, "c1");
}

#[test]
fn attribution_keeps_walk_order() {
    let commits = vec![
        commit("newest", &["pkg/a"]),
        commit("skipped", &["elsewhere/b"]),
        commit("older", &["pkg/c"]),
    ];
    let r = attribute(&commits, &b"pkg".to_vec());
    let ids: Vec<&str> = r.iter().map(|c| c.id.as_str()).collect();
    assert_eq!(ids, vec!["newest", "older"]);
}

#[test]
fn shared_commit_is_attributed_to_each_package() {
    let commits = vec![commit("c1", &["a/file", "b/file"])];
    let ra = attribute(&commits, &b"a".to_vec());
    let rb = attribute(&commits, &b"b".to_vec());
    assert_eq!(ra.len(), 1);
    assert_eq!(rb.len(), 1);
}

#[test]
fn old_and_new_paths_both_count() {
    // A rename out of the package still touches it via the old path.
    let c = commit("c1", &["pkg/old_name.rs", "elsewhere/new_name.rs"]);
    assert!(commit_touches(&c, &b"pkg".to_vec()));
    assert!(commit_touches(&c, &b"elsewhere".to_vec()));
    assert!(!commit_touches(&c, &b"third".to_vec()));
}

#[test]
fn root_commit_changes_are_attributable() {
    // A parentless commit is handed over with its full tree as changed
    // paths and attributes like any other.
    let commits = vec![commit("root", &["pkg/src/lib.rs"])];
    let r = attribute(&commits, &b"pkg".to_vec());
    assert_eq!(r.len(), 1);
}
