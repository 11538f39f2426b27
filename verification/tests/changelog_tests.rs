use bureaucrate::bump::SemVer;
use bureaucrate::changelog::{
    changelog_marker, find_subsequence, insert_entry, render_entry, shift_headings, trim_bytes,
    u64_to_dec, version_bytes,
};

#[test]
fn marker_is_a_comment_line() {
    assert_eq!(changelog_marker(), b"<!-- bureaucrate goes here -->\n".to_vec());
}

#[test]
fn find_subsequence_returns_first_occurrence() {
    assert_eq!(find_subsequence(&b"abcabc".to_vec(), &b"bc".to_vec()), Some(1));
    assert_eq!(find_subsequence(&b"abc".to_vec(), &b"zz".to_vec()), None);
    assert_eq!(find_subsequence(&b"abc".to_vec(), &b"".to_vec()), Some(0));
}

#[test]
fn insert_preserves_content_around_marker() {
    let marker = changelog_marker();
    let mut existing = b"# Changelog\n\n".to_vec();
    existing.extend_from_slice(&marker);
    existing.extend_from_slice(b"## [v0.1.0] 2020-01-01\n\nold entry\n");
    let entry = b"## [v0.2.0] 2021-01-01\n\nnew entry\n".to_vec();
    let out = insert_entry(&existing, &marker, &entry);

    let mut expected = b"# Changelog\n\n".to_vec();
    expected.extend_from_slice(&marker);
    expected.extend_from_slice(&entry);
    expected.extend_from_slice(b"## [v0.1.0] 2020-01-01\n\nold entry\n");
    assert_eq!(out, expected);
}

#[test]
fn insert_without_marker_prepends_marker_and_entry() {
    let marker = changelog_marker();
    let existing = b"historic text\n".to_vec();
    let entry = b"entry\n".to_vec();
    let out = insert_entry(&existing, &marker, &entry);

    let mut expected = marker.clone();
    expected.extend_from_slice(&entry);
    expected.extend_from_slice(&existing);
    assert_eq!(out, expected);
}

#[test]
fn shift_headings_adds_one_level() {
    let out = shift_headings(&b"# A\nplain\n## B\n#C".to_vec());
    assert_eq!(out, b"## A\nplain\n### B\n##C".to_vec());
}

#[test]
fn shift_headings_only_at_line_starts() {
    let out = shift_headings(&b"a # not heading\n# real".to_vec());
    assert_eq!(out, b"a # not heading\n## real".to_vec());
}

#[test]
fn trim_strips_ascii_whitespace() {
    assert_eq!(trim_bytes(&b" \t\nbody text\r\n ".to_vec()), b"body text".to_vec());
    assert_eq!(trim_bytes(&b" \n\t ".to_vec()), b"".to_vec());
    assert_eq!(trim_bytes(&b"solid".to_vec()), b"solid".to_vec());
}

#[test]
fn decimal_rendering_is_exact() {
    assert_eq!(u64_to_dec(0), b"0".to_vec());
    assert_eq!(u64_to_dec(7), b"7".to_vec());
    assert_eq!(u64_to_dec(1234567890), b"1234567890".to_vec());
    assert_eq!(u64_to_dec(u64::MAX), b"18446744073709551615".to_vec());
}

#[test]
fn version_rendering_is_exact() {
    assert_eq!(version_bytes(SemVer::new(1, 2, 3)), b"1.2.3".to_vec());
    assert_eq!(version_bytes(SemVer::new(0, 10, 0)), b"0.10.0".to_vec());
}

#[test]
fn rendered_entry_has_heading_date_and_shifted_body() {
    let out = render_entry(
        SemVer::new(1, 3, 0),
        &b"2024-05-06".to_vec(),
        &b"\n# Added\n\n- a thing\n".to_vec(),
    );
    assert_eq!(out, b"## [v1.3.0] 2024-05-06\n\n## Added\n\n- a thing\n".to_vec());
}
