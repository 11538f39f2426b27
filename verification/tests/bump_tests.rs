use bureaucrate::bump::{Bump, SemVer};

#[test]
fn apply_major_resets_minor_and_patch() {
    assert_eq!(Bump::Major.apply(SemVer::new(1, 2, 3)), SemVer::new(2, 0, 0));
}

#[test]
fn apply_minor_resets_patch() {
    assert_eq!(Bump::Minor.apply(SemVer::new(1, 2, 3)), SemVer::new(1, 3, 0));
}

#[test]
fn apply_patch_increments_patch() {
    assert_eq!(Bump::Patch.apply(SemVer::new(1, 2, 3)), SemVer::new(1, 2, 4));
}

#[test]
fn apply_unchanged_keeps_version() {
    for v in [SemVer::new(0, 0, 0), SemVer::new(1, 2, 3), SemVer::new(9, 9, 9)] {
        assert_eq!(Bump::Unchanged.apply(v), v);
    }
}

#[test]
fn from_raw_maps_all_levels() {
    assert_eq!(Bump::from_raw(0), Some(Bump::Unchanged));
    assert_eq!(Bump::from_raw(1), Some(Bump::Patch));
    assert_eq!(Bump::from_raw(2), Some(Bump::Minor));
    assert_eq!(Bump::from_raw(3), Some(Bump::Major));
}

#[test]
fn from_raw_rejects_malformed() {
    assert_eq!(Bump::from_raw(4), None);
    assert_eq!(Bump::from_raw(u64::MAX), None);
}

#[test]
fn rank_orders_levels() {
    assert!(Bump::Unchanged.rank() < Bump::Patch.rank());
    assert!(Bump::Patch.rank() < Bump::Minor.rank());
    assert!(Bump::Minor.rank() < Bump::Major.rank());
}
