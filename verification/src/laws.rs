//! The algebraic laws of the conversion, proved once and for all
//! versions: complement pairs, the partition made by the ordered
//! comparisons, order-independence of conjunction, set-equality of
//! repeated conversions, and the empty conjunction admitting everything.

use vstd::prelude::*;

use crate::convert::all_admit;
use crate::convert::ConversionMode;
use crate::convert::specifier_admits;
use crate::convert::VersionRangesSpecifier;
use crate::convert::with_min_view;
use crate::specifier::Operator;
use crate::specifier::SpecifierView;
use crate::version::lemma_lex_cmp_flip;
use crate::version::lemma_vcmp_facts;
use crate::version::only_release_view;
use crate::version::release_key;
use crate::version::suffix_key;
use crate::version::veq;
use crate::version::VersionView;
use crate::version::vle;
use crate::version::vlt;

verus! {

/// The synthetic lower marker of a concrete version sorts strictly below
/// it.
pub proof fn lemma_min_below(v: VersionView)
    requires
        v.min is None,
        v.max is None,
    ensures
        vlt(with_min_view(v), v),
{
    let m = with_min_view(v);
    assert(release_key(m) =~= release_key(v));
    lemma_lex_cmp_flip(release_key(v), release_key(v));
    assert(suffix_key(m)[0] == 0);
    assert(suffix_key(v)[0] == 1);
}

/// For every version `x`, the range of `Equal` admits `x` exactly when
/// `x` equals the operand under the version order, and the range of
/// `NotEqual` is its exact set complement.
pub proof fn lemma_equal_not_equal_complement(mode: ConversionMode, v: VersionView, x: VersionView)
    ensures
        specifier_admits(mode, (SpecifierView { op: Operator::Equal, version: v }), x) <==> veq(
            x,
            match mode {
                ConversionMode::Pep440 => v,
                ConversionMode::ReleaseOnly => only_release_view(v),
            },
        ),
        specifier_admits(mode, (SpecifierView { op: Operator::Equal, version: v }), x)
            <==> !specifier_admits(mode, (SpecifierView { op: Operator::NotEqual, version: v }), x),
{
}

/// Under strict semantics, `LessThan` and `GreaterThanEqual` on the same
/// concrete operand never both admit a version; they partition the order
/// exactly when the operand is itself a pre-release, and otherwise the
/// versions admitted by neither are exactly the pre-release neighborhood
/// of the operand: at or above its synthetic lower marker and strictly
/// below it.
pub proof fn lemma_less_greater_partition(v: VersionView, x: VersionView)
    requires
        v.min is None,
        v.max is None,
    ensures
        !(specifier_admits(
            ConversionMode::Pep440,
            (SpecifierView { op: Operator::LessThan, version: v }),
            x,
        ) && specifier_admits(
            ConversionMode::Pep440,
            (SpecifierView { op: Operator::GreaterThanEqual, version: v }),
            x,
        )),
        v.pre is Some || v.dev is Some ==> (specifier_admits(
            ConversionMode::Pep440,
            (SpecifierView { op: Operator::LessThan, version: v }),
            x,
        ) || specifier_admits(
            ConversionMode::Pep440,
            (SpecifierView { op: Operator::GreaterThanEqual, version: v }),
            x,
        )),
        v.pre is None && v.dev is None ==> ((specifier_admits(
            ConversionMode::Pep440,
            (SpecifierView { op: Operator::LessThan, version: v }),
            x,
        ) || specifier_admits(
            ConversionMode::Pep440,
            (SpecifierView { op: Operator::GreaterThanEqual, version: v }),
            x,
        )) <==> !(vle(with_min_view(v), x) && vlt(x, v))),
{
    let m = with_min_view(v);
    lemma_min_below(v);
    lemma_vcmp_facts(x, m, v);
    lemma_vcmp_facts(x, v, m);
}

/// `NotEqualStar` admits exactly the versions that `EqualStar` on the
/// same operand rejects, in either mode.
pub proof fn lemma_star_complement(mode: ConversionMode, v: VersionView, x: VersionView)
    ensures
        specifier_admits(mode, (SpecifierView { op: Operator::NotEqualStar, version: v }), x)
            <==> !specifier_admits(
            mode,
            (SpecifierView { op: Operator::EqualStar, version: v }),
            x,
        ),
{
}

/// Conjunction is order-independent: two specifier sequences holding the
/// same specifiers, in any order, admit exactly the same versions. The
/// converted range of a set therefore does not depend on the folding
/// order, though the first error reported on failure does.
pub proof fn lemma_conjunction_commutes(
    mode: ConversionMode,
    s1: Seq<SpecifierView>,
    s2: Seq<SpecifierView>,
    x: VersionView,
)
    requires
        s1.to_multiset() == s2.to_multiset(),
    ensures
        all_admit(mode, s1, x) == all_admit(mode, s2, x),
{
    s1.to_multiset_ensures();
    s2.to_multiset_ensures();
    if all_admit(mode, s1, x) {
        assert forall|i: int| 0 <= i < s2.len() implies specifier_admits(mode, s2[i], x) by {
            assert(s2.contains(s2[i]));
            assert(s1.to_multiset().count(s2[i]) > 0);
            assert(s1.contains(s2[i]));
            let j = choose|j: int| 0 <= j < s1.len() && s1[j] == s2[i];
            assert(specifier_admits(mode, s1[j], x));
        }
    }
    if all_admit(mode, s2, x) {
        assert forall|i: int| 0 <= i < s1.len() implies specifier_admits(mode, s1[i], x) by {
            assert(s1.contains(s1[i]));
            assert(s2.to_multiset().count(s1[i]) > 0);
            assert(s2.contains(s1[i]));
            let j = choose|j: int| 0 <= j < s2.len() && s2[j] == s1[i];
            assert(specifier_admits(mode, s2[j], x));
        }
    }
}

/// Converting the same specifier twice yields set-equal ranges: any two
/// ranges whose memberships both match the specifier's policy admit
/// exactly the same versions, whatever their stored representations.
pub proof fn lemma_conversion_deterministic(
    mode: ConversionMode,
    s: SpecifierView,
    r1: VersionRangesSpecifier,
    r2: VersionRangesSpecifier,
    x: VersionView,
)
    requires
        forall|y: VersionView| r1.admits(y) <==> specifier_admits(mode, s, y),
        forall|y: VersionView| r2.admits(y) <==> specifier_admits(mode, s, y),
    ensures
        r1.admits(x) == r2.admits(x),
{
}

/// The empty specifier set constrains nothing: every version satisfies
/// it, so it converts to the full range.
pub proof fn lemma_empty_set_admits_all(mode: ConversionMode, s: Seq<SpecifierView>, x: VersionView)
    requires
        s.len() == 0,
    ensures
        all_admit(mode, s, x),
{
}

} // verus!
