use bureaucrate::bump::{Bump, SemVer};
use bureaucrate::options::Opts;
use bureaucrate::status::{ClassifierVerdict, PackageStatus};

#[test]
fn new_status_is_blank() {
    let st = PackageStatus::new(SemVer::new(1, 0, 0));
    assert!(st.changelog.is_empty());
    assert_eq!(st.bump, Bump::Unchanged);
    assert!(st.bump_reasons.is_empty());
}

#[test]
fn seed_sets_changelog_and_bump_with_reason() {
    let mut st = PackageStatus::new(SemVer::new(1, 0, 0));
    let ok = st.seed_verdict(ClassifierVerdict { changelog: b"## Fixed\n".to_vec(), raw_bump: 2 });
    assert!(ok);
    assert_eq!(st.changelog, b"## Fixed\n".to_vec());
    assert_eq!(st.bump, Bump::Minor);
    assert_eq!(st.bump_reasons, vec!["changelog classifier decided to bump to Minor".to_owned()]);
}

#[test]
fn seed_without_bump_records_no_reason() {
    let mut st = PackageStatus::new(SemVer::new(1, 0, 0));
    let ok = st.seed_verdict(ClassifierVerdict { changelog: b"notes".to_vec(), raw_bump: 0 });
    assert!(ok);
    assert_eq!(st.bump, Bump::Unchanged);
    assert!(st.bump_reasons.is_empty());
}

#[test]
fn malformed_raw_bump_is_rejected() {
    let mut st = PackageStatus::new(SemVer::new(1, 0, 0));
    let ok = st.seed_verdict(ClassifierVerdict { changelog: b"notes".to_vec(), raw_bump: 9 });
    assert!(!ok);
    assert!(st.changelog.is_empty());
    assert_eq!(st.bump, Bump::Unchanged);
}

#[test]
fn final_version_applies_bump() {
    let mut st = PackageStatus::new(SemVer::new(1, 2, 3));
    st.bump = Bump::Minor;
    assert_eq!(st.final_version(), SemVer::new(1, 3, 0));
}

#[test]
fn since_rev_returns_boundary_or_root() {
    let with_rev = Opts {
        rev: Some("v1.0.0".to_owned()),
        root: false,
        generator: "gen.jsonnet".to_owned(),
        execute: false,
    };
    assert_eq!(with_rev.since_rev(), Some("v1.0.0".to_owned()));

    let from_root = Opts {
        rev: None,
        root: true,
        generator: "gen.jsonnet".to_owned(),
        execute: false,
    };
    assert_eq!(from_root.since_rev(), None);
}
