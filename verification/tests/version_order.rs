use pep440_ranges::Prerelease;
use pep440_ranges::PrereleaseKind;
use pep440_ranges::Version;

fn ver(rel: &[u64]) -> Version {
    Version::new(rel.to_vec())
}

#[test]
fn trailing_zero_segments_compare_equal() {
    assert_eq!(ver(&[1, 0]).compare(&ver(&[1, 0, 0])), 0);
    assert_eq!(ver(&[1, 4]).compare(&ver(&[1, 4, 0, 0])), 0);
    assert_eq!(ver(&[1, 4, 1]).compare(&ver(&[1, 4])), 1);
}

#[test]
fn release_segments_compare_lexicographically() {
    assert_eq!(ver(&[1, 4, 2]).compare(&ver(&[1, 5])), -1);
    assert_eq!(ver(&[2]).compare(&ver(&[1, 9, 9])), 1);
    assert_eq!(ver(&[1, 10]).compare(&ver(&[1, 9])), 1);
}

#[test]
fn epoch_dominates_release() {
    let old = ver(&[2024, 1]);
    let new = ver(&[1, 0]).with_epoch(1);
    assert_eq!(old.compare(&new), -1);
}

#[test]
fn marker_tiers_order_within_one_release() {
    let base = ver(&[1, 0]);
    let dev = ver(&[1, 0]).with_dev(Some(0));
    let alpha = ver(&[1, 0]).with_pre(Some(Prerelease { kind: PrereleaseKind::Alpha, number: 1 }));
    let beta = ver(&[1, 0]).with_pre(Some(Prerelease { kind: PrereleaseKind::Beta, number: 1 }));
    let rc = ver(&[1, 0]).with_pre(Some(Prerelease { kind: PrereleaseKind::Rc, number: 1 }));
    let post = ver(&[1, 0]).with_post(Some(0));
    assert_eq!(dev.compare(&alpha), -1);
    assert_eq!(alpha.compare(&beta), -1);
    assert_eq!(beta.compare(&rc), -1);
    assert_eq!(rc.compare(&base), -1);
    assert_eq!(base.compare(&post), -1);
}

#[test]
fn dev_marker_sorts_below_its_carrier() {
    let post = ver(&[1, 0]).with_post(Some(0));
    let post_dev = ver(&[1, 0]).with_post(Some(0)).with_dev(Some(1));
    let base = ver(&[1, 0]);
    assert_eq!(base.compare(&post_dev), -1);
    assert_eq!(post_dev.compare(&post), -1);

    let alpha = ver(&[1, 0]).with_pre(Some(Prerelease { kind: PrereleaseKind::Alpha, number: 1 }));
    let alpha_dev = alpha.clone().with_dev(Some(0));
    assert_eq!(alpha_dev.compare(&alpha), -1);
}

#[test]
fn synthetic_markers_bracket_the_release() {
    let below = ver(&[1, 0]).with_min(Some(0));
    let above = ver(&[1, 0]).with_max(Some(0));
    let dev = ver(&[1, 0]).with_dev(Some(0));
    let post = ver(&[1, 0]).with_post(Some(99));
    assert_eq!(below.compare(&dev), -1);
    assert_eq!(post.compare(&above), -1);
    assert_eq!(below.compare(&above), -1);
    assert_eq!(ver(&[0, 9]).compare(&below), -1);
    assert_eq!(above.compare(&ver(&[1, 0, 1])), -1);
}

#[test]
fn only_release_drops_markers() {
    let v = ver(&[3, 13])
        .with_pre(Some(Prerelease { kind: PrereleaseKind::Beta, number: 1 }))
        .with_dev(Some(2));
    let reduced = v.only_release();
    assert_eq!(reduced.compare(&ver(&[3, 13])), 0);
    assert!(reduced.pre().is_none());
    assert!(reduced.dev().is_none());
    assert!(reduced.post().is_none());
    assert!(!reduced.any_prerelease());
    assert!(v.any_prerelease());
}

#[test]
fn accessors_report_the_fields() {
    let v = ver(&[1, 2, 3]).with_epoch(4).with_post(Some(5)).with_dev(Some(6));
    assert_eq!(v.epoch(), 4);
    assert_eq!(v.release().as_slice(), &[1, 2, 3]);
    assert_eq!(v.post(), Some(5));
    assert_eq!(v.dev(), Some(6));
    assert!(v.pre().is_none());
    let w = v.duplicate();
    assert_eq!(w.compare(&v), 0);
}
