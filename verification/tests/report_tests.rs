use bureaucrate::bump::{Bump, SemVer};
use bureaucrate::graph::{Package, PackageGraph};
use bureaucrate::propagate::propagate;
use bureaucrate::report::render_report;
use bureaucrate::status::{ClassifierVerdict, PackageStatus};

fn contains(haystack: &[u8], needle: &str) -> bool {
    haystack.windows(needle.len()).any(|w| w == needle.as_bytes())
}

#[test]
fn report_lists_entries_and_bumps_with_reasons() {
    let g = PackageGraph::new(vec![
        Package {
            name: "core".to_owned(),
            version: SemVer::new(0, 1, 0),
            dir: b"core".to_vec(),
            deps: vec![],
        },
        Package {
            name: "cli".to_owned(),
            version: SemVer::new(0, 2, 0),
            dir: b"cli".to_vec(),
            deps: vec![0],
        },
    ])
    .unwrap();

    let mut sts = vec![
        PackageStatus::new(SemVer::new(0, 1, 0)),
        PackageStatus::new(SemVer::new(0, 2, 0)),
    ];
    assert!(sts[0].seed_verdict(ClassifierVerdict {
        changelog: b"# Added\n\n- new API\n".to_vec(),
        raw_bump: 2,
    }));
    propagate(&mut sts, &g);

    let out = render_report(&g, &sts);
    assert!(contains(&out, "# Changes\n\n"));
    assert!(contains(&out, "## core v0.2.0 (Minor bump)\n\n## Added\n\n- new API\n"));
    assert!(contains(&out, "# Bumps\n\n"));
    assert!(contains(&out, "core `0.1.0` -> `0.2.0`\n\n"));
    assert!(contains(&out, "- changelog classifier decided to bump to Minor\n\n"));
    assert!(contains(&out, "cli `0.2.0` -> `0.2.1`\n\n"));
    assert!(contains(&out, "- dependency (core) had bump\n\n"));
}

#[test]
fn report_skips_blank_changelogs_and_unbumped_packages() {
    let g = PackageGraph::new(vec![Package {
        name: "quiet".to_owned(),
        version: SemVer::new(1, 0, 0),
        dir: b"quiet".to_vec(),
        deps: vec![],
    }])
    .unwrap();
    let sts = vec![PackageStatus::new(SemVer::new(1, 0, 0))];
    let out = render_report(&g, &sts);
    assert!(!contains(&out, "## quiet"));
    assert!(!contains(&out, "quiet `"));
}
