//! The conversion engine: from PEP 440 specifiers to version ranges.
//!
//! Each of the ten operators maps to one interval (or the complement of
//! one) over the version order; [`specifier_admits`] is the policy table
//! stating exactly which versions each specifier admits, and every
//! conversion function is proved to return a range with precisely that
//! membership. Two modes exist: [`ConversionMode::Pep440`] applies the
//! standard's pre-release and post-release exclusion rules, used for
//! dependency matching; [`ConversionMode::ReleaseOnly`] first reduces the
//! operand to its release segments and applies no exclusion adjustment,
//! used when the tested versions themselves carry no markers, as when
//! checking an interpreter's version against a declared requirement.

use vstd::prelude::*;

use crate::ranges::full_view;
use crate::ranges::in_lower;
use crate::ranges::in_upper;
use crate::ranges::IntervalView;
use crate::ranges::normalized;
use crate::ranges::seq_admits;
use crate::ranges::VersionBound;
use crate::ranges::VersionRange;
use crate::specifier::Operator;
use crate::specifier::SpecifierView;
use crate::specifier::VersionSpecifier;
use crate::specifier::VersionSpecifiers;
use crate::version::only_release_view;
use crate::version::Prerelease;
use crate::version::veq;
use crate::version::Version;
use crate::version::VersionView;
use crate::version::vle;
use crate::version::vlt;

verus! {

/// Which semantics the conversion applies.
#[derive(Clone, Copy, Debug, PartialEq, Eq, Structural)]
pub enum ConversionMode {
    /// The standard's rules for dependency matching, with pre-release and
    /// post-release exclusion adjustments.
    Pep440,
    /// Operands reduced to epoch and release segments, with no exclusion
    /// adjustment; for tested versions known to carry no markers.
    ReleaseOnly,
}

/// The conversion failed.
#[derive(Debug)]
pub enum VersionRangesSpecifierError {
    /// The compatible-release operator `~=` was applied to a version with
    /// fewer than two release segments; the offending specifier is
    /// carried for diagnosis.
    InvalidTildeEquals(VersionSpecifier),
}

/// Whether the specifier is structurally invalid: the compatible-release
/// operator on a version with fewer than two release segments. Every
/// other specifier converts without error.
pub open spec fn tilde_invalid(s: SpecifierView) -> bool {
    s.op == Operator::TildeEqual && s.version.release.len() < 2
}

/// The operand with the synthetic marker sorting below every concrete
/// version of the same epoch and release.
pub open spec fn with_min_view(v: VersionView) -> VersionView {
    VersionView { min: Some(0u64), ..v }
}

/// The operand with the synthetic marker sorting above every concrete
/// version of the same epoch and release.
pub open spec fn with_max_view(v: VersionView) -> VersionView {
    VersionView { max: Some(0u64), ..v }
}

/// The release segments with the segment at `keep` incremented and the
/// rest beyond it dropped.
pub open spec fn bumped_at(r: Seq<u64>, keep: int) -> Seq<u64> {
    r.subrange(0, keep).push((r[keep] + 1) as u64)
}

/// The exclusive upper end of the compatible-release interval under
/// strict semantics: the release truncated to all but its last segment,
/// that new last segment incremented, the epoch preserved, and the result
/// forced to development release 0 so that every pre-release of the next
/// compatible-release boundary is excluded.
pub open spec fn tilde_upper_strict(v: VersionView) -> VersionView {
    VersionView {
        epoch: v.epoch,
        release: bumped_at(v.release, v.release.len() - 2),
        pre: None,
        post: None,
        dev: Some(0u64),
        min: None,
        max: None,
    }
}

/// The exclusive upper end of the compatible-release interval under
/// release-only semantics: the truncated and incremented release
/// segments with the epoch preserved, and no markers.
pub open spec fn tilde_upper_release(v: VersionView) -> VersionView {
    VersionView {
        epoch: v.epoch,
        release: bumped_at(v.release, v.release.len() - 2),
        pre: None,
        post: None,
        dev: None,
        min: None,
        max: None,
    }
}

/// The inclusive lower end of the prefix-match interval under strict
/// semantics: the operand forced to development release 0.
pub open spec fn star_low_strict(v: VersionView) -> VersionView {
    VersionView { dev: Some(0u64), ..v }
}

/// The exclusive upper end of the prefix-match interval under strict
/// semantics: the lower end with its post-release incremented if one is
/// present, else its pre-release number incremented if one is present,
/// else its last release segment incremented.
pub open spec fn star_high_strict(v: VersionView) -> VersionView {
    let low = star_low_strict(v);
    match v.post {
        Some(p) => VersionView { post: Some((p + 1) as u64), ..low },
        None => match v.pre {
            Some(pr) => VersionView {
                pre: Some(Prerelease { kind: pr.kind, number: (pr.number + 1) as u64 }),
                ..low
            },
            None => VersionView { release: bumped_at(v.release, v.release.len() - 1), ..low },
        },
    }
}

/// The exclusive upper end of the prefix-match interval under
/// release-only semantics: the reduced operand with its last release
/// segment incremented.
pub open spec fn star_high_release(v: VersionView) -> VersionView {
    VersionView {
        release: bumped_at(v.release, v.release.len() - 1),
        ..only_release_view(v)
    }
}

/// What the machine representation requires of an operand: the
/// conversion's increments must not overflow, and the prefix-match
/// operators need a release segment to increment.
pub open spec fn within_limits(mode: ConversionMode, s: SpecifierView) -> bool {
    match s.op {
        Operator::TildeEqual => s.version.release.len() >= 2 ==> s.version.release[s.version.release.len()
            - 2] < u64::MAX,
        Operator::GreaterThan => mode == ConversionMode::Pep440 ==> match s.version.dev {
            Some(d) => d < u64::MAX,
            None => match s.version.post {
                Some(p) => p < u64::MAX,
                None => true,
            },
        },
        Operator::EqualStar | Operator::NotEqualStar => s.version.release.len() >= 1 && match mode {
            ConversionMode::Pep440 => match s.version.post {
                Some(p) => p < u64::MAX,
                None => match s.version.pre {
                    Some(pr) => pr.number < u64::MAX,
                    None => s.version.release[s.version.release.len() - 1] < u64::MAX,
                },
            },
            ConversionMode::ReleaseOnly => s.version.release[s.version.release.len() - 1]
                < u64::MAX,
        },
        _ => true,
    }
}

/// Which versions the prefix-match operator admits.
pub open spec fn star_admits(mode: ConversionMode, s: SpecifierView, x: VersionView) -> bool {
    match mode {
        ConversionMode::Pep440 => vle(star_low_strict(s.version), x) && vlt(
            x,
            star_high_strict(s.version),
        ),
        ConversionMode::ReleaseOnly => vle(only_release_view(s.version), x) && vlt(
            x,
            star_high_release(s.version),
        ),
    }
}

/// The operator policy table: exactly which versions the specifier `s`
/// admits under the given mode. This is the specification every
/// conversion function is proved against.
pub open spec fn specifier_admits(mode: ConversionMode, s: SpecifierView, x: VersionView) -> bool {
    let v = match mode {
        ConversionMode::Pep440 => s.version,
        ConversionMode::ReleaseOnly => only_release_view(s.version),
    };
    match s.op {
        Operator::Equal => veq(x, v),
        Operator::ExactEqual => veq(x, v),
        Operator::NotEqual => !veq(x, v),
        Operator::TildeEqual => vle(v, x) && vlt(
            x,
            match mode {
                ConversionMode::Pep440 => tilde_upper_strict(s.version),
                ConversionMode::ReleaseOnly => tilde_upper_release(s.version),
            },
        ),
        Operator::LessThan => match mode {
            ConversionMode::Pep440 => if s.version.pre is Some || s.version.dev is Some {
                vlt(x, v)
            } else {
                vlt(x, with_min_view(v))
            },
            ConversionMode::ReleaseOnly => vlt(x, v),
        },
        Operator::LessThanEqual => vle(x, v),
        Operator::GreaterThan => match mode {
            ConversionMode::Pep440 => match s.version.dev {
                Some(d) => vle(VersionView { dev: Some((d + 1) as u64), ..v }, x),
                None => match s.version.post {
                    Some(p) => vle(VersionView { post: Some((p + 1) as u64), ..v }, x),
                    None => vlt(with_max_view(v), x),
                },
            },
            ConversionMode::ReleaseOnly => vlt(v, x),
        },
        Operator::GreaterThanEqual => vle(v, x),
        Operator::EqualStar => star_admits(mode, s, x),
        Operator::NotEqualStar => !star_admits(mode, s, x),
    }
}

/// Whether `x` satisfies every specifier of `s` under the mode.
pub open spec fn all_admit(mode: ConversionMode, s: Seq<SpecifierView>, x: VersionView) -> bool {
    forall|i: int| 0 <= i < s.len() ==> specifier_admits(mode, s[i], x)
}

fn bumped_prefix(rel: &Vec<u64>, keep: usize) -> (r: Vec<u64>)
    requires
        keep < rel@.len(),
        rel@[keep as int] < u64::MAX,
    ensures
        r@ == bumped_at(rel@, keep as int),
{
    let mut out: Vec<u64> = Vec::new();
    let mut i: usize = 0;
    while i < keep
        invariant
            i <= keep,
            keep < rel@.len(),
            out@ == rel@.subrange(0, i as int),
        decreases keep - i,
    {
        out.push(rel[i]);
        proof {
            assert(out@ =~= rel@.subrange(0, i as int + 1));
        }
        i += 1;
    }
    out.push(rel[keep] + 1);
    proof {
        assert(out@ =~= bumped_at(rel@, keep as int));
    }
    out
}

/// A range of versions that can be used to satisfy a requirement.
#[derive(Debug)]
pub struct VersionRangesSpecifier {
    range: VersionRange,
}

impl View for VersionRangesSpecifier {
    type V = Seq<IntervalView>;

    closed spec fn view(&self) -> Seq<IntervalView> {
        self.range@
    }
}

impl VersionRangesSpecifier {
    /// Whether the converted range admits `x`.
    pub open spec fn admits(self, x: VersionView) -> bool {
        seq_admits(self@, x)
    }

    /// Whether the converted range admits the given version.
    pub fn contains(&self, x: &Version) -> (r: bool)
        ensures
            r == self.admits(x@),
    {
        self.range.contains(x)
    }

    /// The bounds of the stored intervals: the normalized segments,
    /// sorted, disjoint and gapped, in storage order.
    pub fn iter(&self) -> (r: Vec<(VersionBound, VersionBound)>)
        ensures
            r@.len() == self@.len(),
            forall|k: int|
                0 <= k < r@.len() ==> r@[k].0@ == self@[k].lo && r@[k].1@ == self@[k].hi,
            normalized(self@),
    {
        self.range.iter()
    }

    /// A single pair of ends enclosing every admitted version, or `None`
    /// when the range stores no interval: the first stored interval's
    /// lower end paired with the last stored interval's upper end.
    pub fn bounding_range(&self) -> (r: Option<(VersionBound, VersionBound)>)
        ensures
            r is None <==> self@.len() == 0,
            r matches Some(b) ==> forall|x: VersionView|
                self.admits(x) ==> in_lower(b.0@, x) && in_upper(b.1@, x),
            r matches Some(b) ==> b.0@ == self@[0].lo && b.1@ == self@[self@.len() - 1].hi,
            normalized(self@),
    {
        let r = self.range.bounding_range();
        proof {
            match &r {
                Some(b) => {
                    assert forall|x: VersionView|
                        self.admits(x) implies in_lower(b.0@, x) && in_upper(b.1@, x) by {
                        assert(self.range.admits(x));
                    }
                },
                None => {},
            }
        }
        r
    }

    /// The shared engine: one specifier to its range under the mode.
    fn from_specifier(specifier: &VersionSpecifier, mode: ConversionMode) -> (r: Result<
        VersionRangesSpecifier,
        VersionRangesSpecifierError,
    >)
        requires
            within_limits(mode, specifier@),
        ensures
            r is Err <==> tilde_invalid(specifier@),
            r matches Err(VersionRangesSpecifierError::InvalidTildeEquals(e)) ==> e@
                == specifier@,
            r matches Ok(s) ==> forall|x: VersionView|
                s.admits(x) <==> specifier_admits(mode, specifier@, x),
    {
        let ghost sv = specifier@;
        let op = specifier.operator();
        let v: Version = match mode {
            ConversionMode::Pep440 => specifier.version().duplicate(),
            ConversionMode::ReleaseOnly => specifier.version().only_release(),
        };
        let ranges: VersionRange = match op {
            Operator::Equal => VersionRange::singleton(v),
            Operator::ExactEqual => VersionRange::singleton(v),
            Operator::NotEqual => VersionRange::singleton(v).complement(),
            Operator::TildeEqual => {
                let rel = specifier.version().release();
                if rel.len() < 2 {
                    return Err(
                        VersionRangesSpecifierError::InvalidTildeEquals(specifier.duplicate()),
                    );
                }
                let upper_rel = bumped_prefix(rel, rel.len() - 2);
                let upper: Version = match mode {
                    ConversionMode::Pep440 => Version::new(upper_rel).with_epoch(
                        specifier.version().epoch(),
                    ).with_dev(Some(0)),
                    ConversionMode::ReleaseOnly => Version::new(upper_rel).with_epoch(
                        specifier.version().epoch(),
                    ),
                };
                proof {
                    if mode == ConversionMode::Pep440 {
                        assert(upper@ =~= tilde_upper_strict(sv.version));
                    } else {
                        assert(upper@ =~= tilde_upper_release(sv.version));
                    }
                }
                VersionRange::from_bounds(v, upper)
            },
            Operator::LessThan => {
                let excluded = match mode {
                    ConversionMode::Pep440 => if specifier.version().any_prerelease() {
                        v
                    } else {
                        let m = v.with_min(Some(0));
                        proof {
                            assert(m@ =~= with_min_view(sv.version));
                        }
                        m
                    },
                    ConversionMode::ReleaseOnly => v,
                };
                VersionRange::strictly_lower_than(excluded)
            },
            Operator::LessThanEqual => VersionRange::lower_than(v),
            Operator::GreaterThan => {
                match mode {
                    ConversionMode::Pep440 => {
                        match specifier.version().dev() {
                            Some(d) => VersionRange::higher_than(v.with_dev(Some(d + 1))),
                            None => match specifier.version().post() {
                                Some(p) => VersionRange::higher_than(v.with_post(Some(p + 1))),
                                None => {
                                    let m = v.with_max(Some(0));
                                    proof {
                                        assert(m@ =~= with_max_view(sv.version));
                                    }
                                    VersionRange::strictly_higher_than(m)
                                },
                            },
                        }
                    },
                    ConversionMode::ReleaseOnly => VersionRange::strictly_higher_than(v),
                }
            },
            Operator::GreaterThanEqual => VersionRange::higher_than(v),
            Operator::EqualStar => {
                let (low, high) = Self::star_bounds(specifier, mode, v);
                VersionRange::from_bounds(low, high)
            },
            Operator::NotEqualStar => {
                let (low, high) = Self::star_bounds(specifier, mode, v);
                VersionRange::from_bounds(low, high).complement()
            },
        };
        let s = VersionRangesSpecifier { range: ranges };
        proof {
            assert forall|x: VersionView|
                s.admits(x) <==> specifier_admits(mode, sv, x) by {
                assert(s.admits(x) == ranges.admits(x));
            }
        }
        Ok(s)
    }

    /// The two ends of the prefix-match interval.
    fn star_bounds(specifier: &VersionSpecifier, mode: ConversionMode, v: Version) -> (r: (
        Version,
        Version,
    ))
        requires
            specifier@.op == Operator::EqualStar || specifier@.op == Operator::NotEqualStar,
            within_limits(mode, specifier@),
            v@ == (match mode {
                ConversionMode::Pep440 => specifier@.version,
                ConversionMode::ReleaseOnly => only_release_view(specifier@.version),
            }),
        ensures
            mode == ConversionMode::Pep440 ==> r.0@ == star_low_strict(specifier@.version) && r.1@
                == star_high_strict(specifier@.version),
            mode == ConversionMode::ReleaseOnly ==> r.0@ == only_release_view(specifier@.version)
                && r.1@ == star_high_release(specifier@.version),
    {
        let ghost sv = specifier@;
        match mode {
            ConversionMode::Pep440 => {
                let low = v.with_dev(Some(0));
                let base = low.duplicate();
                let high: Version = match base.post() {
                    Some(p) => base.with_post(Some(p + 1)),
                    None => match base.pre() {
                        Some(pr) => base.with_pre(
                            Some(Prerelease { kind: pr.kind, number: pr.number + 1 }),
                        ),
                        None => {
                            let bumped = bumped_prefix(base.release(), base.release().len() - 1);
                            base.with_release(bumped)
                        },
                    },
                };
                proof {
                    assert(low@ =~= star_low_strict(sv.version));
                    assert(high@ =~= star_high_strict(sv.version));
                }
                (low, high)
            },
            ConversionMode::ReleaseOnly => {
                let base = v.duplicate();
                let bumped = bumped_prefix(base.release(), base.release().len() - 1);
                let high = base.with_release(bumped);
                proof {
                    assert(high@ =~= star_high_release(sv.version));
                }
                (v, high)
            },
        }
    }

    /// The shared engine for a whole set: the conjunction of its
    /// specifiers, folded by intersection.
    fn from_specifiers(specifiers: &VersionSpecifiers, mode: ConversionMode) -> (r: Result<
        VersionRangesSpecifier,
        VersionRangesSpecifierError,
    >)
        requires
            forall|i: int| 0 <= i < specifiers@.len() ==> within_limits(mode, specifiers@[i]),
        ensures
            r is Ok <==> forall|i: int|
                0 <= i < specifiers@.len() ==> !tilde_invalid(specifiers@[i]),
            r matches Err(VersionRangesSpecifierError::InvalidTildeEquals(e)) ==> exists|i: int|
                0 <= i < specifiers@.len() && tilde_invalid(specifiers@[i]) && e@ == specifiers@[i]
                    && forall|j: int| 0 <= j < i ==> !tilde_invalid(specifiers@[j]),
            r matches Ok(s) ==> forall|x: VersionView|
                s.admits(x) <==> all_admit(mode, specifiers@, x),
            specifiers@.len() == 0 ==> (r matches Ok(s) && s@ == full_view()),
    {
        let mut range = VersionRange::full();
        let mut i: usize = 0;
        while i < specifiers.len()
            invariant
                i <= specifiers@.len(),
                i as int == 0 ==> range@ == full_view(),
                forall|k: int| 0 <= k < specifiers@.len() ==> within_limits(mode, specifiers@[k]),
                forall|k: int| 0 <= k < i as int ==> !tilde_invalid(specifiers@[k]),
                forall|x: VersionView| #![trigger range.admits(x)]
                    range.admits(x) <==> (forall|k: int|
                        0 <= k < i as int ==> specifier_admits(mode, specifiers@[k], x)),
            decreases specifiers@.len() - i,
        {
            let one = match Self::from_specifier(specifiers.get(i), mode) {
                Ok(s) => s,
                Err(e) => {
                    proof {
                        assert(tilde_invalid(specifiers@[i as int]));
                    }
                    return Err(e);
                },
            };
            let next = range.intersection(&one.range);
            proof {
                assert forall|x: VersionView| #![trigger next.admits(x)]
                    next.admits(x) <==> (forall|k: int|
                        0 <= k < i as int + 1 ==> specifier_admits(mode, specifiers@[k], x)) by {
                    assert(one.admits(x) == one.range.admits(x));
                    assert(next.admits(x) <==> range.admits(x) && one.range.admits(x));
                }
            }
            range = next;
            i += 1;
        }
        let r = VersionRangesSpecifier { range };
        proof {
            assert forall|x: VersionView| r.admits(x) <==> all_admit(mode, specifiers@, x) by {
                assert(range.admits(x) <==> (forall|k: int|
                    0 <= k < i as int ==> specifier_admits(mode, specifiers@[k], x)));
            }
            assert(r@ == range@);
        }
        Ok(r)
    }

    /// Convert one specifier to a version range, using the standard's
    /// strict semantics for dependency matching.
    pub fn from_pep440_specifier(specifier: &VersionSpecifier) -> (r: Result<
        VersionRangesSpecifier,
        VersionRangesSpecifierError,
    >)
        requires
            within_limits(ConversionMode::Pep440, specifier@),
        ensures
            r is Err <==> tilde_invalid(specifier@),
            r matches Err(VersionRangesSpecifierError::InvalidTildeEquals(e)) ==> e@
                == specifier@,
            r matches Ok(s) ==> forall|x: VersionView|
                s.admits(x) <==> specifier_admits(ConversionMode::Pep440, specifier@, x),
    {
        Self::from_specifier(specifier, ConversionMode::Pep440)
    }

    /// Convert a whole specifier set, using the standard's strict
    /// semantics: the intersection of its members' ranges, with the first
    /// error reported in sequence order.
    pub fn from_pep440_specifiers(specifiers: &VersionSpecifiers) -> (r: Result<
        VersionRangesSpecifier,
        VersionRangesSpecifierError,
    >)
        requires
            forall|i: int|
                0 <= i < specifiers@.len() ==> within_limits(
                    ConversionMode::Pep440,
                    specifiers@[i],
                ),
        ensures
            r is Ok <==> forall|i: int|
                0 <= i < specifiers@.len() ==> !tilde_invalid(specifiers@[i]),
            r matches Err(VersionRangesSpecifierError::InvalidTildeEquals(e)) ==> exists|i: int|
                0 <= i < specifiers@.len() && tilde_invalid(specifiers@[i]) && e@ == specifiers@[i]
                    && forall|j: int| 0 <= j < i ==> !tilde_invalid(specifiers@[j]),
            r matches Ok(s) ==> forall|x: VersionView|
                s.admits(x) <==> all_admit(ConversionMode::Pep440, specifiers@, x),
            specifiers@.len() == 0 ==> (r matches Ok(s) && s@ == full_view()),
    {
        Self::from_specifiers(specifiers, ConversionMode::Pep440)
    }

    /// Convert one specifier to a version range, using release-only
    /// semantics: the operand is reduced to epoch and release segments
    /// and no pre- or post-release exclusion adjustment is applied.
    pub fn from_release_specifier(specifier: &VersionSpecifier) -> (r: Result<
        VersionRangesSpecifier,
        VersionRangesSpecifierError,
    >)
        requires
            within_limits(ConversionMode::ReleaseOnly, specifier@),
        ensures
            r is Err <==> tilde_invalid(specifier@),
            r matches Err(VersionRangesSpecifierError::InvalidTildeEquals(e)) ==> e@
                == specifier@,
            r matches Ok(s) ==> forall|x: VersionView|
                s.admits(x) <==> specifier_admits(ConversionMode::ReleaseOnly, specifier@, x),
    {
        Self::from_specifier(specifier, ConversionMode::ReleaseOnly)
    }

    /// Convert a whole specifier set, using release-only semantics.
    pub fn from_release_specifiers(specifiers: &VersionSpecifiers) -> (r: Result<
        VersionRangesSpecifier,
        VersionRangesSpecifierError,
    >)
        requires
            forall|i: int|
                0 <= i < specifiers@.len() ==> within_limits(
                    ConversionMode::ReleaseOnly,
                    specifiers@[i],
                ),
        ensures
            r is Ok <==> forall|i: int|
                0 <= i < specifiers@.len() ==> !tilde_invalid(specifiers@[i]),
            r matches Err(VersionRangesSpecifierError::InvalidTildeEquals(e)) ==> exists|i: int|
                0 <= i < specifiers@.len() && tilde_invalid(specifiers@[i]) && e@ == specifiers@[i]
                    && forall|j: int| 0 <= j < i ==> !tilde_invalid(specifiers@[j]),
            r matches Ok(s) ==> forall|x: VersionView|
                s.admits(x) <==> all_admit(ConversionMode::ReleaseOnly, specifiers@, x),
            specifiers@.len() == 0 ==> (r matches Ok(s) && s@ == full_view()),
    {
        Self::from_specifiers(specifiers, ConversionMode::ReleaseOnly)
    }
}

impl From<VersionRange> for VersionRangesSpecifier {
    fn from(range: VersionRange) -> (r: VersionRangesSpecifier) {
        VersionRangesSpecifier { range }
    }
}

impl vstd::std_specs::convert::FromSpecImpl<VersionRange> for VersionRangesSpecifier {
    open spec fn obeys_from_spec() -> bool {
        true
    }

    closed spec fn from_spec(range: VersionRange) -> VersionRangesSpecifier {
        VersionRangesSpecifier { range }
    }
}

impl From<VersionRangesSpecifier> for VersionRange {
    fn from(specifier: VersionRangesSpecifier) -> (r: VersionRange) {
        specifier.range
    }
}

impl vstd::std_specs::convert::FromSpecImpl<VersionRangesSpecifier> for VersionRange {
    open spec fn obeys_from_spec() -> bool {
        true
    }

    closed spec fn from_spec(specifier: VersionRangesSpecifier) -> VersionRange {
        specifier.range
    }
}

/// The two conversions are mutually inverse: wrapping a range and
/// unwrapping it gives the range back, and unwrapping a wrapper and
/// wrapping the result gives the wrapper back.
pub proof fn lemma_from_round_trip(r: VersionRange, s: VersionRangesSpecifier)
    ensures
        <VersionRange as vstd::std_specs::convert::FromSpec<VersionRangesSpecifier>>::from_spec(
            <VersionRangesSpecifier as vstd::std_specs::convert::FromSpec<
                VersionRange,
            >>::from_spec(r),
        ) == r,
        <VersionRangesSpecifier as vstd::std_specs::convert::FromSpec<VersionRange>>::from_spec(
            <VersionRange as vstd::std_specs::convert::FromSpec<
                VersionRangesSpecifier,
            >>::from_spec(s),
        ) == s,
{
}

} // verus!
