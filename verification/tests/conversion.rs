use pep440_ranges::Operator;
use pep440_ranges::Prerelease;
use pep440_ranges::PrereleaseKind;
use pep440_ranges::Version;
use pep440_ranges::VersionRangesSpecifier;
use pep440_ranges::VersionRangesSpecifierError;
use pep440_ranges::VersionSpecifier;

fn ver(rel: &[u64]) -> Version {
    Version::new(rel.to_vec())
}

fn strict(op: Operator, v: Version) -> VersionRangesSpecifier {
    VersionRangesSpecifier::from_pep440_specifier(&VersionSpecifier::new(op, v)).unwrap()
}

fn release(op: Operator, v: Version) -> VersionRangesSpecifier {
    VersionRangesSpecifier::from_release_specifier(&VersionSpecifier::new(op, v)).unwrap()
}

#[test]
fn equal_admits_exactly_the_operand() {
    let r = strict(Operator::Equal, ver(&[1, 4]));
    assert!(r.contains(&ver(&[1, 4])));
    assert!(r.contains(&ver(&[1, 4, 0])));
    assert!(!r.contains(&ver(&[1, 4, 1])));
    assert!(!r.contains(&ver(&[1, 4]).with_post(Some(0))));
}

#[test]
fn not_equal_is_the_exact_complement_of_equal() {
    let eq = strict(Operator::Equal, ver(&[1, 4]));
    let ne = strict(Operator::NotEqual, ver(&[1, 4]));
    let samples = [
        ver(&[1, 3, 9]),
        ver(&[1, 4]),
        ver(&[1, 4, 0]),
        ver(&[1, 4, 1]),
        ver(&[1, 4]).with_pre(Some(Prerelease { kind: PrereleaseKind::Alpha, number: 1 })),
        ver(&[1, 4]).with_post(Some(2)),
        ver(&[2, 0]),
    ];
    for x in samples.iter() {
        assert_ne!(eq.contains(x), ne.contains(x));
    }
}

#[test]
fn exact_equal_behaves_as_equality_under_the_order() {
    let r = strict(Operator::ExactEqual, ver(&[1, 4, 2]));
    assert!(r.contains(&ver(&[1, 4, 2])));
    assert!(!r.contains(&ver(&[1, 4, 3])));
}

#[test]
fn tilde_equal_pins_all_but_the_last_segment() {
    let r = strict(Operator::TildeEqual, ver(&[1, 4, 2]));
    assert!(r.contains(&ver(&[1, 4, 2])));
    assert!(r.contains(&ver(&[1, 4, 3])));
    assert!(r.contains(&ver(&[1, 4, 99])));
    assert!(!r.contains(&ver(&[1, 5, 0])));
    assert!(!r.contains(&ver(&[1, 4, 1])));
}

#[test]
fn tilde_equal_excludes_prereleases_of_the_next_boundary() {
    let r = strict(Operator::TildeEqual, ver(&[1, 4, 2]));
    let next_alpha =
        ver(&[1, 5]).with_pre(Some(Prerelease { kind: PrereleaseKind::Alpha, number: 1 }));
    let next_dev = ver(&[1, 5]).with_dev(Some(0));
    assert!(!r.contains(&next_alpha));
    assert!(!r.contains(&next_dev));
}

#[test]
fn tilde_equal_needs_two_release_segments() {
    let spec = VersionSpecifier::new(Operator::TildeEqual, ver(&[5]));
    let out = VersionRangesSpecifier::from_pep440_specifier(&spec);
    assert!(matches!(
        out,
        Err(VersionRangesSpecifierError::InvalidTildeEquals(_))
    ));
    let out = VersionRangesSpecifier::from_release_specifier(&spec);
    assert!(matches!(
        out,
        Err(VersionRangesSpecifierError::InvalidTildeEquals(_))
    ));
}

#[test]
fn tilde_equal_keeps_the_epoch_in_strict_mode() {
    let r = strict(Operator::TildeEqual, ver(&[1, 4]).with_epoch(2));
    assert!(r.contains(&ver(&[1, 7]).with_epoch(2)));
    assert!(!r.contains(&ver(&[1, 7])));
}

#[test]
fn release_mode_tilde_equal_keeps_the_epoch() {
    let r = release(Operator::TildeEqual, ver(&[1, 4]).with_epoch(2));
    assert!(r.contains(&ver(&[1, 4]).with_epoch(2)));
    assert!(r.contains(&ver(&[1, 9]).with_epoch(2)));
    assert!(!r.contains(&ver(&[2, 0]).with_epoch(2)));
    assert!(!r.contains(&ver(&[1, 5])));
}

#[test]
fn less_than_excludes_prereleases_of_the_operand() {
    let r = strict(Operator::LessThan, ver(&[1, 4]));
    assert!(r.contains(&ver(&[1, 3, 9])));
    assert!(!r.contains(&ver(&[1, 4])));
    let rc = ver(&[1, 4]).with_pre(Some(Prerelease { kind: PrereleaseKind::Rc, number: 1 }));
    assert!(!r.contains(&rc));
    let dev = ver(&[1, 4]).with_dev(Some(0));
    assert!(!r.contains(&dev));
    let other_pre =
        ver(&[1, 3]).with_pre(Some(Prerelease { kind: PrereleaseKind::Alpha, number: 1 }));
    assert!(r.contains(&other_pre));
}

#[test]
fn less_than_a_prerelease_admits_earlier_prereleases_of_it() {
    let a2 = ver(&[1, 0]).with_pre(Some(Prerelease { kind: PrereleaseKind::Alpha, number: 2 }));
    let a1 = ver(&[1, 0]).with_pre(Some(Prerelease { kind: PrereleaseKind::Alpha, number: 1 }));
    let r = strict(Operator::LessThan, a2.clone());
    assert!(r.contains(&a1));
    assert!(!r.contains(&a2));
}

#[test]
fn less_than_and_greater_equal_partition_around_a_concrete_operand() {
    let lt = strict(Operator::LessThan, ver(&[1, 4]));
    let ge = strict(Operator::GreaterThanEqual, ver(&[1, 4]));
    let ordinary = [ver(&[1, 3, 9]), ver(&[1, 4]), ver(&[1, 4, 1]), ver(&[2, 0])];
    for x in ordinary.iter() {
        assert_ne!(lt.contains(x), ge.contains(x));
    }
    let in_gap = ver(&[1, 4]).with_pre(Some(Prerelease { kind: PrereleaseKind::Rc, number: 1 }));
    assert!(!lt.contains(&in_gap) && !ge.contains(&in_gap));
}

#[test]
fn less_than_and_greater_equal_partition_exactly_on_a_prerelease_operand() {
    let operand = ver(&[1, 4]).with_pre(Some(Prerelease { kind: PrereleaseKind::Beta, number: 2 }));
    let lt = strict(Operator::LessThan, operand.clone());
    let ge = strict(Operator::GreaterThanEqual, operand);
    let samples = [
        ver(&[1, 3]),
        ver(&[1, 4]).with_pre(Some(Prerelease { kind: PrereleaseKind::Beta, number: 1 })),
        ver(&[1, 4]).with_pre(Some(Prerelease { kind: PrereleaseKind::Beta, number: 2 })),
        ver(&[1, 4]).with_pre(Some(Prerelease { kind: PrereleaseKind::Rc, number: 1 })),
        ver(&[1, 4]),
        ver(&[1, 5]),
    ];
    for x in samples.iter() {
        assert_ne!(lt.contains(x), ge.contains(x));
    }
}

#[test]
fn less_than_equal_is_inclusive() {
    let r = strict(Operator::LessThanEqual, ver(&[1, 4]));
    assert!(r.contains(&ver(&[1, 4])));
    assert!(r.contains(&ver(&[1, 4, 0])));
    assert!(!r.contains(&ver(&[1, 4, 1])));
}

#[test]
fn greater_than_excludes_post_releases_of_the_operand() {
    let r = strict(Operator::GreaterThan, ver(&[1, 2, 0]));
    assert!(!r.contains(&ver(&[1, 2, 0])));
    assert!(!r.contains(&ver(&[1, 2, 0]).with_post(Some(0))));
    assert!(r.contains(&ver(&[1, 2, 1])));
}

#[test]
fn greater_than_a_post_release_admits_later_posts() {
    let r = strict(Operator::GreaterThan, ver(&[1, 2, 0]).with_post(Some(1)));
    assert!(r.contains(&ver(&[1, 2, 0]).with_post(Some(2))));
    assert!(!r.contains(&ver(&[1, 2, 0]).with_post(Some(1))));
}

#[test]
fn greater_than_a_dev_release_admits_later_devs() {
    let r = strict(Operator::GreaterThan, ver(&[1, 0]).with_dev(Some(5)));
    assert!(r.contains(&ver(&[1, 0]).with_dev(Some(6))));
    assert!(!r.contains(&ver(&[1, 0]).with_dev(Some(5))));
    assert!(r.contains(&ver(&[1, 0])));
}

#[test]
fn greater_than_equal_is_inclusive() {
    let r = strict(Operator::GreaterThanEqual, ver(&[1, 4]));
    assert!(r.contains(&ver(&[1, 4])));
    assert!(r.contains(&ver(&[1, 5])));
    assert!(!r.contains(&ver(&[1, 3, 9])));
}

#[test]
fn equal_star_admits_the_prefix_including_its_prereleases() {
    let r = strict(Operator::EqualStar, ver(&[1, 4]));
    assert!(r.contains(&ver(&[1, 4, 0])));
    assert!(r.contains(&ver(&[1, 4, 9])));
    let b1 = ver(&[1, 4, 0]).with_pre(Some(Prerelease { kind: PrereleaseKind::Beta, number: 1 }));
    assert!(r.contains(&b1));
    assert!(!r.contains(&ver(&[1, 5, 0])));
    assert!(!r.contains(&ver(&[1, 3, 9])));
}

#[test]
fn not_equal_star_is_the_exact_complement_of_equal_star() {
    let eq = strict(Operator::EqualStar, ver(&[1, 4]));
    let ne = strict(Operator::NotEqualStar, ver(&[1, 4]));
    let samples = [
        ver(&[1, 3, 9]),
        ver(&[1, 4]),
        ver(&[1, 4, 0]),
        ver(&[1, 4, 0]).with_pre(Some(Prerelease { kind: PrereleaseKind::Beta, number: 1 })),
        ver(&[1, 4, 9]),
        ver(&[1, 5, 0]),
        ver(&[2]),
    ];
    for x in samples.iter() {
        assert_ne!(eq.contains(x), ne.contains(x));
    }
}

#[test]
fn equal_star_on_a_post_operand_admits_only_that_post_line() {
    let r = strict(Operator::EqualStar, ver(&[1, 4]).with_post(Some(2)));
    assert!(r.contains(&ver(&[1, 4]).with_post(Some(2))));
    assert!(!r.contains(&ver(&[1, 4]).with_post(Some(3))));
    assert!(!r.contains(&ver(&[1, 4])));
}

#[test]
fn release_mode_reduces_the_operand() {
    let operand =
        ver(&[3, 13]).with_pre(Some(Prerelease { kind: PrereleaseKind::Beta, number: 1 }));
    let r = release(Operator::GreaterThanEqual, operand);
    assert!(r.contains(&ver(&[3, 13])));
    assert!(r.contains(&ver(&[3, 13, 1])));
    assert!(!r.contains(&ver(&[3, 12, 9])));
}

#[test]
fn release_mode_greater_than_applies_no_post_exclusion() {
    let strict_r = strict(Operator::GreaterThan, ver(&[3, 13]));
    let release_r = release(Operator::GreaterThan, ver(&[3, 13]));
    let post = ver(&[3, 13, 0]).with_post(Some(1));
    assert!(!strict_r.contains(&post));
    assert!(release_r.contains(&post));
    assert!(!release_r.contains(&ver(&[3, 13, 0])));
    assert!(release_r.contains(&ver(&[3, 13, 1])));
}

#[test]
fn release_mode_less_than_applies_no_prerelease_exclusion() {
    let strict_r = strict(Operator::LessThan, ver(&[3, 13]));
    let release_r = release(Operator::LessThan, ver(&[3, 13]));
    let b1 = ver(&[3, 13]).with_pre(Some(Prerelease { kind: PrereleaseKind::Beta, number: 1 }));
    assert!(!strict_r.contains(&b1));
    assert!(release_r.contains(&b1));
}

#[test]
fn release_mode_tilde_equal_bumps_only_the_release() {
    let r = release(Operator::TildeEqual, ver(&[1, 4, 2]));
    assert!(r.contains(&ver(&[1, 4, 2])));
    assert!(r.contains(&ver(&[1, 4, 99])));
    assert!(!r.contains(&ver(&[1, 5])));
    assert!(!r.contains(&ver(&[1, 4, 1])));
}

#[test]
fn release_mode_equal_star_bumps_the_last_segment() {
    let r = release(Operator::EqualStar, ver(&[1, 4]));
    assert!(r.contains(&ver(&[1, 4, 0])));
    assert!(r.contains(&ver(&[1, 4, 9])));
    assert!(!r.contains(&ver(&[1, 5])));
    let ne = release(Operator::NotEqualStar, ver(&[1, 4]));
    assert!(!ne.contains(&ver(&[1, 4, 9])));
    assert!(ne.contains(&ver(&[1, 5])));
}
