use pep440_ranges::Operator;
use pep440_ranges::Version;
use pep440_ranges::VersionBound;
use pep440_ranges::VersionRange;
use pep440_ranges::VersionRangesSpecifier;
use pep440_ranges::VersionSpecifier;
use pep440_ranges::VersionSpecifiers;

fn ver(rel: &[u64]) -> Version {
    Version::new(rel.to_vec())
}

fn spec(op: Operator, v: Version) -> VersionSpecifier {
    VersionSpecifier::new(op, v)
}

fn samples() -> Vec<Version> {
    vec![
        ver(&[0, 1]),
        ver(&[1, 2]),
        ver(&[1, 2, 0]).with_post(Some(1)),
        ver(&[1, 5]),
        ver(&[1, 9, 9]),
        ver(&[2, 0]),
        ver(&[2, 0]).with_dev(Some(3)),
        ver(&[2, 1]),
        ver(&[7]).with_epoch(1),
    ]
}

#[test]
fn empty_set_converts_to_the_full_range() {
    let set = VersionSpecifiers::new(vec![]);
    let r = VersionRangesSpecifier::from_pep440_specifiers(&set).unwrap();
    for x in samples().iter() {
        assert!(r.contains(x));
    }
    let r = VersionRangesSpecifier::from_release_specifiers(&set).unwrap();
    for x in samples().iter() {
        assert!(r.contains(x));
    }
}

#[test]
fn contradictory_equalities_store_no_interval() {
    let set = VersionSpecifiers::new(vec![
        spec(Operator::Equal, ver(&[1])),
        spec(Operator::Equal, ver(&[2])),
    ]);
    let r = VersionRangesSpecifier::from_pep440_specifiers(&set).unwrap();
    for x in samples().iter() {
        assert!(!r.contains(x));
    }
    assert!(r.bounding_range().is_none());
    assert!(r.iter().is_empty());
}

#[test]
fn empty_set_bounding_range_is_unbounded() {
    let set = VersionSpecifiers::new(vec![]);
    let r = VersionRangesSpecifier::from_pep440_specifiers(&set).unwrap();
    match r.bounding_range() {
        Some((VersionBound::Unbounded, VersionBound::Unbounded)) => {}
        _ => panic!("the empty conjunction must be stored as the one unbounded interval"),
    }
    assert_eq!(r.iter().len(), 1);
}

#[test]
fn set_conversion_equals_the_intersection_of_member_conversions() {
    let a = spec(Operator::GreaterThanEqual, ver(&[1, 2]));
    let b = spec(Operator::LessThan, ver(&[2, 0]));
    let c = spec(Operator::NotEqual, ver(&[1, 5]));
    let set = VersionSpecifiers::new(vec![a, b, c]);
    let all = VersionRangesSpecifier::from_pep440_specifiers(&set).unwrap();
    let ra = VersionRangesSpecifier::from_pep440_specifier(&spec(
        Operator::GreaterThanEqual,
        ver(&[1, 2]),
    ))
    .unwrap();
    let rb =
        VersionRangesSpecifier::from_pep440_specifier(&spec(Operator::LessThan, ver(&[2, 0])))
            .unwrap();
    let rc =
        VersionRangesSpecifier::from_pep440_specifier(&spec(Operator::NotEqual, ver(&[1, 5])))
            .unwrap();
    for x in samples().iter() {
        assert_eq!(
            all.contains(x),
            ra.contains(x) && rb.contains(x) && rc.contains(x)
        );
    }
}

#[test]
fn set_conversion_is_order_independent() {
    let forward = VersionSpecifiers::new(vec![
        spec(Operator::GreaterThanEqual, ver(&[1, 2])),
        spec(Operator::LessThan, ver(&[2, 0])),
        spec(Operator::NotEqual, ver(&[1, 5])),
    ]);
    let backward = VersionSpecifiers::new(vec![
        spec(Operator::NotEqual, ver(&[1, 5])),
        spec(Operator::LessThan, ver(&[2, 0])),
        spec(Operator::GreaterThanEqual, ver(&[1, 2])),
    ]);
    let rf = VersionRangesSpecifier::from_pep440_specifiers(&forward).unwrap();
    let rb = VersionRangesSpecifier::from_pep440_specifiers(&backward).unwrap();
    for x in samples().iter() {
        assert_eq!(rf.contains(x), rb.contains(x));
    }
}

#[test]
fn set_conversion_reports_the_first_error_in_order() {
    let set = VersionSpecifiers::new(vec![
        spec(Operator::GreaterThanEqual, ver(&[1, 2])),
        spec(Operator::TildeEqual, ver(&[7])),
        spec(Operator::TildeEqual, ver(&[9])),
    ]);
    let out = VersionRangesSpecifier::from_pep440_specifiers(&set);
    match out {
        Err(pep440_ranges::VersionRangesSpecifierError::InvalidTildeEquals(bad)) => {
            assert!(matches!(bad.operator(), Operator::TildeEqual));
            assert_eq!(bad.version().compare(&ver(&[7])), 0);
            assert_eq!(bad.version().release().as_slice(), &[7]);
        }
        Ok(_) => panic!("a single-segment compatible release must be rejected"),
    }
}

#[test]
fn converting_twice_gives_set_equal_ranges() {
    let s = spec(Operator::TildeEqual, ver(&[1, 4, 2]));
    let r1 = VersionRangesSpecifier::from_pep440_specifier(&s).unwrap();
    let r2 = VersionRangesSpecifier::from_pep440_specifier(&s).unwrap();
    for x in samples().iter() {
        assert_eq!(r1.contains(x), r2.contains(x));
    }
    let extras = [ver(&[1, 4, 2]), ver(&[1, 4, 3]), ver(&[1, 5])];
    for x in extras.iter() {
        assert_eq!(r1.contains(x), r2.contains(x));
    }
}

#[test]
fn iter_exposes_the_interval_bounds() {
    let set = VersionSpecifiers::new(vec![
        spec(Operator::GreaterThanEqual, ver(&[1, 2])),
        spec(Operator::LessThanEqual, ver(&[2, 0])),
    ]);
    let r = VersionRangesSpecifier::from_pep440_specifiers(&set).unwrap();
    let bounds = r.iter();
    assert_eq!(bounds.len(), 1);
    match &bounds[0] {
        (VersionBound::Included(lo), VersionBound::Included(hi)) => {
            assert_eq!(lo.compare(&ver(&[1, 2])), 0);
            assert_eq!(hi.compare(&ver(&[2, 0])), 0);
        }
        _ => panic!("both ends must be inclusive versions"),
    }
}

#[test]
fn bounding_range_encloses_every_admitted_version() {
    let set = VersionSpecifiers::new(vec![
        spec(Operator::GreaterThanEqual, ver(&[1, 2])),
        spec(Operator::LessThan, ver(&[2, 0])),
    ]);
    let r = VersionRangesSpecifier::from_pep440_specifiers(&set).unwrap();
    match r.bounding_range() {
        Some((VersionBound::Included(lo), _)) => {
            assert_eq!(lo.compare(&ver(&[1, 2])), 0);
        }
        _ => panic!("the lower end must be the inclusive lower bound"),
    }
}

#[test]
fn bounding_range_spans_from_first_to_last_interval() {
    let r = VersionRangesSpecifier::from_pep440_specifier(&spec(Operator::NotEqual, ver(&[1, 4])))
        .unwrap();
    assert_eq!(r.iter().len(), 2);
    match r.bounding_range() {
        Some((VersionBound::Unbounded, VersionBound::Unbounded)) => {}
        _ => panic!("both outermost ends of the two intervals are unbounded"),
    }
}

#[test]
fn ranges_convert_to_and_from_the_wrapper() {
    let plain = VersionRange::singleton(ver(&[1, 4]));
    let wrapped = VersionRangesSpecifier::from(plain);
    assert!(wrapped.contains(&ver(&[1, 4])));
    let back = VersionRange::from(wrapped);
    assert!(back.contains(&ver(&[1, 4, 0])));
    assert!(!back.contains(&ver(&[1, 4, 1])));
}

#[test]
fn range_algebra_complement_and_intersection_agree_with_membership() {
    let lows = VersionRange::strictly_lower_than(ver(&[1, 5]));
    let highs = VersionRange::higher_than(ver(&[1, 2]));
    let both = lows.intersection(&highs);
    assert!(both.contains(&ver(&[1, 3])));
    assert!(!both.contains(&ver(&[1, 5])));
    assert!(!both.contains(&ver(&[1, 1])));
    let outside = both.complement();
    for x in samples().iter() {
        assert_ne!(both.contains(x), outside.contains(x));
    }
}
