//! A union of ordered intervals over the version order.
//!
//! A [`VersionRange`] stores intervals whose union is the set of admitted
//! versions. Every operation is specified by membership: which versions
//! the resulting range admits. The storage keeps the [`normalized`]
//! discipline as a type invariant: every stored interval has ordered
//! ends, and consecutive intervals are sorted, disjoint and separated by
//! a gap, so none could be merged. Interval ends are compared as
//! versions; an interval between two excluded neighbouring versions is
//! kept, as the order does not say whether a version lies between.

use vstd::prelude::*;

use crate::version::lemma_vcmp_facts;
use crate::version::lemma_vcmp_flip;
use crate::version::veq;
use crate::version::vle;
use crate::version::vlt;
use crate::version::Version;
use crate::version::VersionView;

verus! {

/// One end of an interval over the version order.
#[derive(Debug, Clone)]
pub enum VersionBound {
    /// No constraint at this end.
    Unbounded,
    /// The end lies at this version, which itself belongs to the interval.
    Included(Version),
    /// The end lies at this version, which is excluded from the interval.
    Excluded(Version),
}

/// The mathematical value of a [`VersionBound`].
pub ghost enum BoundView {
    Unbounded,
    Included(VersionView),
    Excluded(VersionView),
}

impl View for VersionBound {
    type V = BoundView;

    open spec fn view(&self) -> BoundView {
        match self {
            VersionBound::Unbounded => BoundView::Unbounded,
            VersionBound::Included(v) => BoundView::Included(v@),
            VersionBound::Excluded(v) => BoundView::Excluded(v@),
        }
    }
}

/// One stored interval: a lower and an upper end.
#[derive(Debug, Clone)]
pub struct Interval {
    pub lo: VersionBound,
    pub hi: VersionBound,
}

/// The mathematical value of an [`Interval`].
pub ghost struct IntervalView {
    pub lo: BoundView,
    pub hi: BoundView,
}

impl View for Interval {
    type V = IntervalView;

    open spec fn view(&self) -> IntervalView {
        IntervalView { lo: self.lo@, hi: self.hi@ }
    }
}

/// Whether `x` satisfies a lower end.
pub open spec fn in_lower(b: BoundView, x: VersionView) -> bool {
    match b {
        BoundView::Unbounded => true,
        BoundView::Included(v) => vle(v, x),
        BoundView::Excluded(v) => vlt(v, x),
    }
}

/// Whether `x` satisfies an upper end.
pub open spec fn in_upper(b: BoundView, x: VersionView) -> bool {
    match b {
        BoundView::Unbounded => true,
        BoundView::Included(v) => vle(x, v),
        BoundView::Excluded(v) => vlt(x, v),
    }
}

/// Whether `x` lies in the interval.
pub open spec fn in_interval(iv: IntervalView, x: VersionView) -> bool {
    in_lower(iv.lo, x) && in_upper(iv.hi, x)
}

/// A stored interval is well-formed: its ends are ordered so that the
/// interval is not syntactically empty.
pub open spec fn valid_segment(iv: IntervalView) -> bool {
    match (iv.lo, iv.hi) {
        (BoundView::Unbounded, _) => true,
        (_, BoundView::Unbounded) => true,
        (BoundView::Included(a), BoundView::Included(b)) => vle(a, b),
        (BoundView::Included(a), BoundView::Excluded(b)) => vlt(a, b),
        (BoundView::Excluded(a), BoundView::Included(b)) => vlt(a, b),
        (BoundView::Excluded(a), BoundView::Excluded(b)) => vlt(a, b),
    }
}

/// An upper end followed by a lower end leave a gap: the earlier
/// interval closes strictly before the later opens, and the two could
/// not be merged into one interval.
pub open spec fn gap_between(hi: BoundView, lo: BoundView) -> bool {
    match (hi, lo) {
        (BoundView::Unbounded, _) => false,
        (_, BoundView::Unbounded) => false,
        (BoundView::Included(e), BoundView::Included(s)) => vlt(e, s),
        (BoundView::Included(e), BoundView::Excluded(s)) => vlt(e, s),
        (BoundView::Excluded(e), BoundView::Included(s)) => vlt(e, s),
        (BoundView::Excluded(e), BoundView::Excluded(s)) => vle(e, s),
    }
}

/// The storage discipline: every stored interval is well-formed, and
/// consecutive intervals are sorted, disjoint and separated by a gap.
pub open spec fn normalized(s: Seq<IntervalView>) -> bool {
    (forall|k: int| 0 <= k < s.len() ==> valid_segment(#[trigger] s[k])) && (forall|k: int|
        0 <= k < s.len() - 1 ==> gap_between(#[trigger] s[k].hi, s[k + 1].lo))
}

/// The single stored interval of the full range.
pub open spec fn full_view() -> Seq<IntervalView> {
    seq![IntervalView { lo: BoundView::Unbounded, hi: BoundView::Unbounded }]
}

/// The mathematical values of a sequence of stored intervals.
pub open spec fn ivs(segs: Seq<Interval>) -> Seq<IntervalView> {
    segs.map_values(|iv: Interval| iv@)
}

/// Whether `x` lies in some interval of the sequence.
pub open spec fn seq_admits(s: Seq<IntervalView>, x: VersionView) -> bool {
    exists|k: int| 0 <= k < s.len() && in_interval(s[k], x)
}

/// A set of versions: the union of the stored intervals.
#[derive(Debug)]
pub struct VersionRange {
    segments: Vec<Interval>,
}

impl View for VersionRange {
    type V = Seq<IntervalView>;

    closed spec fn view(&self) -> Seq<IntervalView> {
        ivs(self.segments@)
    }
}

fn clone_bound(b: &VersionBound) -> (r: VersionBound)
    ensures
        r@ == b@,
{
    match b {
        VersionBound::Unbounded => VersionBound::Unbounded,
        VersionBound::Included(v) => VersionBound::Included(v.duplicate()),
        VersionBound::Excluded(v) => VersionBound::Excluded(v.duplicate()),
    }
}

fn lower_admits(b: &VersionBound, x: &Version) -> (r: bool)
    ensures
        r == in_lower(b@, x@),
{
    match b {
        VersionBound::Unbounded => true,
        VersionBound::Included(v) => v.compare(x) <= 0,
        VersionBound::Excluded(v) => v.compare(x) < 0,
    }
}

fn upper_admits(b: &VersionBound, x: &Version) -> (r: bool)
    ensures
        r == in_upper(b@, x@),
{
    match b {
        VersionBound::Unbounded => true,
        VersionBound::Included(v) => x.compare(v) <= 0,
        VersionBound::Excluded(v) => x.compare(v) < 0,
    }
}

impl VersionRange {
    #[verifier::type_invariant]
    spec fn well_formed(self) -> bool {
        normalized(self@)
    }

    /// Whether the range admits `x`: `x` lies in one of its intervals.
    pub open spec fn admits(self, x: VersionView) -> bool {
        seq_admits(self@, x)
    }

    fn from_interval(iv: Interval) -> (r: VersionRange)
        requires
            valid_segment(iv@),
        ensures
            forall|x: VersionView| r.admits(x) <==> in_interval(iv@, x),
            r@ =~= seq![iv@],
    {
        let ghost ivv = iv@;
        let mut segments: Vec<Interval> = Vec::new();
        segments.push(iv);
        let r = VersionRange { segments };
        proof {
            assert forall|x: VersionView| r.admits(x) <==> in_interval(ivv, x) by {
                assert(r@.len() == 1 && r@[0] == ivv);
            }
        }
        r
    }

    /// The range admitting every version.
    pub fn full() -> (r: VersionRange)
        ensures
            forall|x: VersionView| r.admits(x),
            r@ == full_view(),
    {
        Self::from_interval(Interval { lo: VersionBound::Unbounded, hi: VersionBound::Unbounded })
    }

    /// The range admitting exactly the versions equal to `v` in the
    /// version order.
    pub fn singleton(v: Version) -> (r: VersionRange)
        ensures
            forall|x: VersionView| r.admits(x) <==> veq(x, v@),
    {
        let ghost vv = v@;
        let lo = VersionBound::Included(v.duplicate());
        proof {
            lemma_vcmp_flip(vv, vv);
        }
        let r = Self::from_interval(Interval { lo, hi: VersionBound::Included(v) });
        proof {
            assert forall|x: VersionView| r.admits(x) <==> veq(x, vv) by {
                lemma_vcmp_flip(x, vv);
            }
        }
        r
    }

    /// The range of versions at or below `v`.
    pub fn lower_than(v: Version) -> (r: VersionRange)
        ensures
            forall|x: VersionView| r.admits(x) <==> vle(x, v@),
    {
        Self::from_interval(
            Interval { lo: VersionBound::Unbounded, hi: VersionBound::Included(v) },
        )
    }

    /// The range of versions strictly below `v`.
    pub fn strictly_lower_than(v: Version) -> (r: VersionRange)
        ensures
            forall|x: VersionView| r.admits(x) <==> vlt(x, v@),
    {
        Self::from_interval(
            Interval { lo: VersionBound::Unbounded, hi: VersionBound::Excluded(v) },
        )
    }

    /// The range of versions at or above `v`.
    pub fn higher_than(v: Version) -> (r: VersionRange)
        ensures
            forall|x: VersionView| r.admits(x) <==> vle(v@, x),
    {
        Self::from_interval(
            Interval { lo: VersionBound::Included(v), hi: VersionBound::Unbounded },
        )
    }

    /// The range of versions strictly above `v`.
    pub fn strictly_higher_than(v: Version) -> (r: VersionRange)
        ensures
            forall|x: VersionView| r.admits(x) <==> vlt(v@, x),
    {
        Self::from_interval(
            Interval { lo: VersionBound::Excluded(v), hi: VersionBound::Unbounded },
        )
    }

    /// The half-open range from `lo` (included) up to `hi` (excluded);
    /// empty when `hi` does not lie strictly above `lo`.
    pub fn from_bounds(lo: Version, hi: Version) -> (r: VersionRange)
        ensures
            forall|x: VersionView| r.admits(x) <==> vle(lo@, x) && vlt(x, hi@),
    {
        if lo.compare(&hi) < 0 {
            Self::from_interval(
                Interval { lo: VersionBound::Included(lo), hi: VersionBound::Excluded(hi) },
            )
        } else {
            let r = VersionRange { segments: Vec::new() };
            proof {
                assert forall|x: VersionView| !(vle(lo@, x) && vlt(x, hi@)) by {
                    lemma_vcmp_facts(lo@, x, hi@);
                    lemma_vcmp_facts(x, hi@, lo@);
                }
            }
            r
        }
    }

    /// Whether the range admits the given version.
    pub fn contains(&self, x: &Version) -> (r: bool)
        ensures
            r == self.admits(x@),
    {
        let mut i: usize = 0;
        while i < self.segments.len()
            invariant
                i <= self.segments.len(),
                forall|k: int| 0 <= k < i ==> !in_interval(self@[k], x@),
            decreases self.segments.len() - i,
        {
            let seg = &self.segments[i];
            if lower_admits(&seg.lo, x) && upper_admits(&seg.hi, x) {
                proof {
                    assert(in_interval(self@[i as int], x@));
                }
                return true;
            }
            i += 1;
        }
        false
    }
}

fn segment_valid(lo: &VersionBound, hi: &VersionBound) -> (r: bool)
    ensures
        r == valid_segment((IntervalView { lo: lo@, hi: hi@ })),
{
    match (lo, hi) {
        (VersionBound::Unbounded, _) => true,
        (_, VersionBound::Unbounded) => true,
        (VersionBound::Included(a), VersionBound::Included(b)) => a.compare(b) <= 0,
        (VersionBound::Included(a), VersionBound::Excluded(b)) => a.compare(b) < 0,
        (VersionBound::Excluded(a), VersionBound::Included(b)) => a.compare(b) < 0,
        (VersionBound::Excluded(a), VersionBound::Excluded(b)) => a.compare(b) < 0,
    }
}

/// An interval whose ends are out of order holds no version.
proof fn lemma_invalid_segment_empty(iv: IntervalView, x: VersionView)
    requires
        !valid_segment(iv),
    ensures
        !in_interval(iv, x),
{
    match (iv.lo, iv.hi) {
        (
            BoundView::Included(a) | BoundView::Excluded(a),
            BoundView::Included(b) | BoundView::Excluded(b),
        ) => {
            lemma_vcmp_facts(a, x, b);
        },
        _ => {},
    }
}

/// A gap before a well-formed interval and a gap after it compose to a
/// gap across it.
proof fn lemma_gap_compose(h: BoundView, seg: IntervalView, l2: BoundView)
    requires
        gap_between(h, seg.lo),
        valid_segment(seg),
        gap_between(seg.hi, l2),
    ensures
        gap_between(h, l2),
{
    match (h, seg.lo, seg.hi, l2) {
        (
            BoundView::Included(e0) | BoundView::Excluded(e0),
            BoundView::Included(s1) | BoundView::Excluded(s1),
            BoundView::Included(e1) | BoundView::Excluded(e1),
            BoundView::Included(s2) | BoundView::Excluded(s2),
        ) => {
            lemma_vcmp_facts(e0, s1, e1);
            lemma_vcmp_facts(e0, e1, s2);
        },
        _ => {},
    }
}

/// In normalized storage, any earlier interval closes with a gap before
/// any later interval opens.
proof fn lemma_gap_chain(s: Seq<IntervalView>, k: int, k2: int)
    requires
        normalized(s),
        0 <= k,
        k < k2,
        k2 < s.len(),
    ensures
        gap_between(s[k].hi, s[k2].lo),
    decreases k2 - k,
{
    if k2 == k + 1 {
    } else {
        lemma_gap_chain(s, k + 1, k2);
        lemma_gap_compose(s[k].hi, s[k + 1], s[k2].lo);
    }
}

/// In normalized storage, a version lying in any stored interval lies
/// within the first interval's lower end and the last interval's upper
/// end: the pair of outermost ends encloses every member.
proof fn lemma_outer_ends_cover(s: Seq<IntervalView>, k: int, x: VersionView)
    requires
        normalized(s),
        0 <= k < s.len(),
        in_interval(s[k], x),
    ensures
        in_lower(s[0].lo, x),
        in_upper(s[s.len() - 1].hi, x),
{
    if k > 0 {
        lemma_gap_chain(s, 0, k);
        match (s[0].lo, s[0].hi, s[k].lo) {
            (
                BoundView::Included(a0) | BoundView::Excluded(a0),
                BoundView::Included(e0) | BoundView::Excluded(e0),
                BoundView::Included(sk) | BoundView::Excluded(sk),
            ) => {
                lemma_vcmp_facts(a0, e0, sk);
                lemma_vcmp_facts(a0, sk, x);
            },
            _ => {},
        }
    }
    if k < s.len() - 1 {
        lemma_gap_chain(s, k, s.len() - 1);
        match (s[k].hi, s[s.len() - 1].lo, s[s.len() - 1].hi) {
            (
                BoundView::Included(ek) | BoundView::Excluded(ek),
                BoundView::Included(sl) | BoundView::Excluded(sl),
                BoundView::Included(el) | BoundView::Excluded(el),
            ) => {
                lemma_vcmp_facts(x, ek, sl);
                lemma_vcmp_facts(x, sl, el);
            },
            _ => {},
        }
    }
}

/// The stricter of two lower ends: what satisfies it is what satisfies
/// both.
fn tighter_lower(a: &VersionBound, b: &VersionBound) -> (r: VersionBound)
    ensures
        forall|x: VersionView| in_lower(r@, x) <==> in_lower(a@, x) && in_lower(b@, x),
        r@ == a@ || r@ == b@,
        forall|h: BoundView| gap_between(h, a@) || gap_between(h, b@) ==> gap_between(h, r@),
{
    match (a, b) {
        (VersionBound::Unbounded, _) => clone_bound(b),
        (_, VersionBound::Unbounded) => clone_bound(a),
        (VersionBound::Included(va), VersionBound::Included(vb)) => {
            let keep_a = va.compare(vb) >= 0;
            let r = if keep_a {
                clone_bound(a)
            } else {
                clone_bound(b)
            };
            proof {
                assert forall|x: VersionView|
                    in_lower(r@, x) <==> in_lower(a@, x) && in_lower(b@, x) by {
                    lemma_vcmp_facts(va@, vb@, x);
                    lemma_vcmp_facts(vb@, va@, x);
                }
                assert forall|h: BoundView|
                    gap_between(h, a@) || gap_between(h, b@) implies gap_between(h, r@) by {
                    match h {
                        BoundView::Included(e) | BoundView::Excluded(e) => {
                            lemma_vcmp_facts(e, va@, vb@);
                            lemma_vcmp_facts(e, vb@, va@);
                        },
                        BoundView::Unbounded => {},
                    }
                }
            }
            r
        },
        (VersionBound::Included(va), VersionBound::Excluded(vb)) => {
            let keep_a = va.compare(vb) > 0;
            let r = if keep_a {
                clone_bound(a)
            } else {
                clone_bound(b)
            };
            proof {
                assert forall|x: VersionView|
                    in_lower(r@, x) <==> in_lower(a@, x) && in_lower(b@, x) by {
                    lemma_vcmp_facts(va@, vb@, x);
                    lemma_vcmp_facts(vb@, va@, x);
                }
                assert forall|h: BoundView|
                    gap_between(h, a@) || gap_between(h, b@) implies gap_between(h, r@) by {
                    match h {
                        BoundView::Included(e) | BoundView::Excluded(e) => {
                            lemma_vcmp_facts(e, va@, vb@);
                            lemma_vcmp_facts(e, vb@, va@);
                        },
                        BoundView::Unbounded => {},
                    }
                }
            }
            r
        },
        (VersionBound::Excluded(va), VersionBound::Included(vb)) => {
            let keep_b = vb.compare(va) > 0;
            let r = if keep_b {
                clone_bound(b)
            } else {
                clone_bound(a)
            };
            proof {
                assert forall|x: VersionView|
                    in_lower(r@, x) <==> in_lower(a@, x) && in_lower(b@, x) by {
                    lemma_vcmp_facts(va@, vb@, x);
                    lemma_vcmp_facts(vb@, va@, x);
                }
                assert forall|h: BoundView|
                    gap_between(h, a@) || gap_between(h, b@) implies gap_between(h, r@) by {
                    match h {
                        BoundView::Included(e) | BoundView::Excluded(e) => {
                            lemma_vcmp_facts(e, va@, vb@);
                            lemma_vcmp_facts(e, vb@, va@);
                        },
                        BoundView::Unbounded => {},
                    }
                }
            }
            r
        },
        (VersionBound::Excluded(va), VersionBound::Excluded(vb)) => {
            let keep_a = va.compare(vb) >= 0;
            let r = if keep_a {
                clone_bound(a)
            } else {
                clone_bound(b)
            };
            proof {
                assert forall|x: VersionView|
                    in_lower(r@, x) <==> in_lower(a@, x) && in_lower(b@, x) by {
                    lemma_vcmp_facts(va@, vb@, x);
                    lemma_vcmp_facts(vb@, va@, x);
                }
                assert forall|h: BoundView|
                    gap_between(h, a@) || gap_between(h, b@) implies gap_between(h, r@) by {
                    match h {
                        BoundView::Included(e) | BoundView::Excluded(e) => {
                            lemma_vcmp_facts(e, va@, vb@);
                            lemma_vcmp_facts(e, vb@, va@);
                        },
                        BoundView::Unbounded => {},
                    }
                }
            }
            r
        },
    }
}

/// The stricter of two upper ends.
fn tighter_upper(a: &VersionBound, b: &VersionBound) -> (r: VersionBound)
    ensures
        forall|x: VersionView| in_upper(r@, x) <==> in_upper(a@, x) && in_upper(b@, x),
        r@ == a@ || r@ == b@,
        forall|l: BoundView| gap_between(a@, l) || gap_between(b@, l) ==> gap_between(r@, l),
{
    match (a, b) {
        (VersionBound::Unbounded, _) => clone_bound(b),
        (_, VersionBound::Unbounded) => clone_bound(a),
        (VersionBound::Included(va), VersionBound::Included(vb)) => {
            let keep_a = va.compare(vb) <= 0;
            let r = if keep_a {
                clone_bound(a)
            } else {
                clone_bound(b)
            };
            proof {
                assert forall|x: VersionView|
                    in_upper(r@, x) <==> in_upper(a@, x) && in_upper(b@, x) by {
                    lemma_vcmp_facts(va@, vb@, x);
                    lemma_vcmp_facts(vb@, va@, x);
                }
                assert forall|l: BoundView|
                    gap_between(a@, l) || gap_between(b@, l) implies gap_between(r@, l) by {
                    match l {
                        BoundView::Included(e) | BoundView::Excluded(e) => {
                            lemma_vcmp_facts(va@, vb@, e);
                            lemma_vcmp_facts(vb@, va@, e);
                        },
                        BoundView::Unbounded => {},
                    }
                }
            }
            r
        },
        (VersionBound::Included(va), VersionBound::Excluded(vb)) => {
            let keep_a = va.compare(vb) < 0;
            let r = if keep_a {
                clone_bound(a)
            } else {
                clone_bound(b)
            };
            proof {
                assert forall|x: VersionView|
                    in_upper(r@, x) <==> in_upper(a@, x) && in_upper(b@, x) by {
                    lemma_vcmp_facts(va@, vb@, x);
                    lemma_vcmp_facts(vb@, va@, x);
                }
                assert forall|l: BoundView|
                    gap_between(a@, l) || gap_between(b@, l) implies gap_between(r@, l) by {
                    match l {
                        BoundView::Included(e) | BoundView::Excluded(e) => {
                            lemma_vcmp_facts(va@, vb@, e);
                            lemma_vcmp_facts(vb@, va@, e);
                        },
                        BoundView::Unbounded => {},
                    }
                }
            }
            r
        },
        (VersionBound::Excluded(va), VersionBound::Included(vb)) => {
            let keep_b = vb.compare(va) < 0;
            let r = if keep_b {
                clone_bound(b)
            } else {
                clone_bound(a)
            };
            proof {
                assert forall|x: VersionView|
                    in_upper(r@, x) <==> in_upper(a@, x) && in_upper(b@, x) by {
                    lemma_vcmp_facts(va@, vb@, x);
                    lemma_vcmp_facts(vb@, va@, x);
                }
                assert forall|l: BoundView|
                    gap_between(a@, l) || gap_between(b@, l) implies gap_between(r@, l) by {
                    match l {
                        BoundView::Included(e) | BoundView::Excluded(e) => {
                            lemma_vcmp_facts(va@, vb@, e);
                            lemma_vcmp_facts(vb@, va@, e);
                        },
                        BoundView::Unbounded => {},
                    }
                }
            }
            r
        },
        (VersionBound::Excluded(va), VersionBound::Excluded(vb)) => {
            let keep_a = va.compare(vb) <= 0;
            let r = if keep_a {
                clone_bound(a)
            } else {
                clone_bound(b)
            };
            proof {
                assert forall|x: VersionView|
                    in_upper(r@, x) <==> in_upper(a@, x) && in_upper(b@, x) by {
                    lemma_vcmp_facts(va@, vb@, x);
                    lemma_vcmp_facts(vb@, va@, x);
                }
                assert forall|l: BoundView|
                    gap_between(a@, l) || gap_between(b@, l) implies gap_between(r@, l) by {
                    match l {
                        BoundView::Included(e) | BoundView::Excluded(e) => {
                            lemma_vcmp_facts(va@, vb@, e);
                            lemma_vcmp_facts(vb@, va@, e);
                        },
                        BoundView::Unbounded => {},
                    }
                }
            }
            r
        },
    }
}

fn intersect_intervals(a: &Interval, b: &Interval) -> (r: Interval)
    ensures
        forall|x: VersionView| in_interval(r@, x) <==> in_interval(a@, x) && in_interval(b@, x),
        forall|h: BoundView|
            gap_between(h, a@.lo) || gap_between(h, b@.lo) ==> gap_between(h, r@.lo),
        forall|l: BoundView|
            gap_between(a@.hi, l) || gap_between(b@.hi, l) ==> gap_between(r@.hi, l),
{
    Interval { lo: tighter_lower(&a.lo, &b.lo), hi: tighter_upper(&a.hi, &b.hi) }
}

proof fn lemma_seq_admits_push(s: Seq<IntervalView>, iv: IntervalView, x: VersionView)
    ensures
        seq_admits(s.push(iv), x) == (seq_admits(s, x) || in_interval(iv, x)),
{
    if seq_admits(s, x) {
        let k = choose|k: int| 0 <= k < s.len() && in_interval(s[k], x);
        assert(in_interval(s.push(iv)[k], x));
    }
    if in_interval(iv, x) {
        assert(in_interval(s.push(iv)[s.len() as int], x));
    }
    if seq_admits(s.push(iv), x) {
        let k = choose|k: int| 0 <= k < s.push(iv).len() && in_interval(s.push(iv)[k], x);
        if k < s.len() {
            assert(in_interval(s[k], x));
        }
    }
}

/// Versions admitted through one of the first `ai` intervals of `a` and
/// some interval of `b`.
spec fn cross_admits(
    a: Seq<IntervalView>,
    b: Seq<IntervalView>,
    x: VersionView,
    ai: int,
) -> bool {
    exists|p: int, q: int|
        0 <= p < ai && 0 <= q < b.len() && in_interval(a[p], x) && in_interval(b[q], x)
}

impl VersionRange {
    /// The versions admitted by both ranges.
    pub fn intersection(&self, other: &VersionRange) -> (r: VersionRange)
        ensures
            forall|x: VersionView| r.admits(x) <==> self.admits(x) && other.admits(x),
    {
        proof {
            use_type_invariant(&*self);
            use_type_invariant(&*other);
        }
        let mut segments: Vec<Interval> = Vec::new();
        let ghost mut last_i: int = 0;
        let ghost mut last_j: int = 0;
        let mut i: usize = 0;
        while i < self.segments.len()
            invariant
                i <= self.segments.len(),
                normalized(self@),
                normalized(other@),
                normalized(ivs(segments@)),
                forall|x: VersionView|
                    #[trigger] seq_admits(ivs(segments@), x)
                        <==> cross_admits(self@, other@, x, i as int),
                ivs(segments@).len() > 0 ==> 0 <= last_i && last_i < i as int && 0 <= last_j
                    && last_j < other@.len() && (forall|l: BoundView|
                    gap_between(self@[last_i].hi, l) || gap_between(other@[last_j].hi, l)
                        ==> gap_between(ivs(segments@).last().hi, l)),
            decreases self.segments.len() - i,
        {
            let mut j: usize = 0;
            while j < other.segments.len()
                invariant
                    i < self.segments.len(),
                    j <= other.segments.len(),
                    normalized(self@),
                    normalized(other@),
                    normalized(ivs(segments@)),
                    forall|x: VersionView|
                        #[trigger] seq_admits(ivs(segments@), x)
                            <==> cross_admits(self@, other@, x, i as int) || (in_interval(
                            self@[i as int],
                            x,
                        ) && exists|q: int|
                            0 <= q < j && in_interval(other@[q], x)),
                    ivs(segments@).len() > 0 ==> 0 <= last_i && last_i <= i as int && 0 <= last_j
                        && last_j < other@.len() && (last_i < i as int || last_j < j as int) && (
                    forall|l: BoundView|
                        gap_between(self@[last_i].hi, l) || gap_between(other@[last_j].hi, l)
                            ==> gap_between(ivs(segments@).last().hi, l)),
                decreases other.segments.len() - j,
            {
                let ghost before = ivs(segments@);
                let iv = intersect_intervals(&self.segments[i], &other.segments[j]);
                let ghost ivv = iv@;
                proof {
                    assert(self@[i as int] == self.segments@[i as int]@);
                    assert(other@[j as int] == other.segments@[j as int]@);
                }
                if segment_valid(&iv.lo, &iv.hi) {
                    proof {
                        if before.len() > 0 {
                            if last_i < i as int {
                                lemma_gap_chain(self@, last_i, i as int);
                                assert(gap_between(self@[last_i].hi, ivv.lo));
                            } else {
                                lemma_gap_chain(other@, last_j, j as int);
                                assert(gap_between(other@[last_j].hi, ivv.lo));
                            }
                            assert(gap_between(before.last().hi, ivv.lo));
                        }
                    }
                    segments.push(iv);
                    proof {
                        assert(ivs(segments@) =~= before.push(ivv));
                        assert forall|k: int|
                            0 <= k < before.push(ivv).len() implies valid_segment(
                            #[trigger] before.push(ivv)[k],
                        ) by {
                            if k < before.len() {
                                assert(valid_segment(before[k]));
                            }
                        }
                        assert forall|k: int|
                            0 <= k < before.push(ivv).len() - 1 implies gap_between(
                            #[trigger] before.push(ivv)[k].hi,
                            before.push(ivv)[k + 1].lo,
                        ) by {
                            if k < before.len() - 1 {
                                assert(gap_between(before[k].hi, before[k + 1].lo));
                            } else {
                                assert(before.push(ivv)[k].hi == before.last().hi);
                            }
                        }
                        assert forall|x: VersionView|
                            #[trigger] seq_admits(ivs(segments@), x)
                                <==> cross_admits(self@, other@, x, i as int) || (in_interval(
                                self@[i as int],
                                x,
                            ) && exists|q: int|
                                0 <= q < j + 1 && in_interval(other@[q], x)) by {
                            lemma_seq_admits_push(before, ivv, x);
                            assert(in_interval(ivv, x) <==> in_interval(self@[i as int], x)
                                && in_interval(other@[j as int], x));
                            if in_interval(self@[i as int], x) && exists|q: int|
                                0 <= q < j + 1 && in_interval(other@[q], x) {
                                let q = choose|q: int| 0 <= q < j + 1 && in_interval(other@[q], x);
                                if q < j {
                                    assert(in_interval(other@[q], x));
                                }
                            }
                        }
                        last_i = i as int;
                        last_j = j as int;
                    }
                } else {
                    proof {
                        assert forall|x: VersionView|
                            #[trigger] seq_admits(ivs(segments@), x)
                                <==> cross_admits(self@, other@, x, i as int) || (in_interval(
                                self@[i as int],
                                x,
                            ) && exists|q: int|
                                0 <= q < j + 1 && in_interval(other@[q], x)) by {
                            lemma_invalid_segment_empty(ivv, x);
                            assert(in_interval(ivv, x) <==> in_interval(self@[i as int], x)
                                && in_interval(other@[j as int], x));
                            if in_interval(self@[i as int], x) && exists|q: int|
                                0 <= q < j + 1 && in_interval(other@[q], x) {
                                let q = choose|q: int| 0 <= q < j + 1 && in_interval(other@[q], x);
                                if q < j {
                                    assert(in_interval(other@[q], x));
                                }
                            }
                        }
                    }
                }
                j += 1;
            }
            proof {
                assert forall|x: VersionView|
                    (cross_admits(self@, other@, x, i as int) || (in_interval(self@[i as int], x)
                        && exists|q: int|
                        0 <= q < other@.len() && in_interval(other@[q], x))) <==> cross_admits(
                        self@,
                        other@,
                        x,
                        i as int + 1,
                    ) by {
                    if cross_admits(self@, other@, x, i as int + 1) {
                        let (p, q) = choose|p: int, q: int|
                            0 <= p < i as int + 1 && 0 <= q < other@.len() && in_interval(
                                self@[p],
                                x,
                            ) && in_interval(other@[q], x);
                        if p < i as int {
                            assert(cross_admits(self@, other@, x, i as int));
                        }
                    }
                }
            }
            i += 1;
        }
        let r = VersionRange { segments };
        proof {
            assert forall|x: VersionView|
                r.admits(x) <==> self.admits(x) && other.admits(x) by {
                if self.admits(x) && other.admits(x) {
                    let p = choose|k: int| 0 <= k < self@.len() && in_interval(self@[k], x);
                    let q = choose|k: int| 0 <= k < other@.len() && in_interval(other@[k], x);
                    assert(cross_admits(self@, other@, x, self@.len() as int));
                }
                if cross_admits(self@, other@, x, self@.len() as int) {
                    let (p, q) = choose|p: int, q: int|
                        0 <= p < self@.len() && 0 <= q < other@.len() && in_interval(self@[p], x)
                            && in_interval(other@[q], x);
                    assert(in_interval(self@[p], x));
                    assert(in_interval(other@[q], x));
                }
            }
        }
        r
    }
}

/// The versions outside one interval: up to two intervals, one below the
/// lower end and one above the upper end.
fn interval_complement(iv: &Interval) -> (r: VersionRange)
    requires
        valid_segment(iv@),
    ensures
        forall|x: VersionView| r.admits(x) <==> !in_interval(iv@, x),
{
    let mut segments: Vec<Interval> = Vec::new();
    match &iv.lo {
        VersionBound::Unbounded => {},
        VersionBound::Included(v) => segments.push(
            Interval { lo: VersionBound::Unbounded, hi: VersionBound::Excluded(v.duplicate()) },
        ),
        VersionBound::Excluded(v) => segments.push(
            Interval { lo: VersionBound::Unbounded, hi: VersionBound::Included(v.duplicate()) },
        ),
    }
    match &iv.hi {
        VersionBound::Unbounded => {},
        VersionBound::Included(v) => segments.push(
            Interval { lo: VersionBound::Excluded(v.duplicate()), hi: VersionBound::Unbounded },
        ),
        VersionBound::Excluded(v) => segments.push(
            Interval { lo: VersionBound::Included(v.duplicate()), hi: VersionBound::Unbounded },
        ),
    }
    proof {
        assert(normalized(ivs(segments@)));
    }
    let r = VersionRange { segments };
    proof {
        assert forall|x: VersionView| r.admits(x) <==> !in_interval(iv@, x) by {
            match iv@.lo {
                BoundView::Included(v) => lemma_vcmp_flip(v, x),
                BoundView::Excluded(v) => lemma_vcmp_flip(v, x),
                BoundView::Unbounded => {},
            }
            match iv@.hi {
                BoundView::Included(v) => lemma_vcmp_flip(x, v),
                BoundView::Excluded(v) => lemma_vcmp_flip(x, v),
                BoundView::Unbounded => {},
            }
            if !in_interval(iv@, x) {
                if !in_lower(iv@.lo, x) {
                    assert(in_interval(r@[0], x));
                } else {
                    assert(in_interval(r@[r@.len() - 1], x));
                }
            }
            if r.admits(x) {
                let k = choose|k: int| 0 <= k < r@.len() && in_interval(r@[k], x);
            }
        }
    }
    r
}

impl VersionRange {
    /// The versions this range does not admit.
    pub fn complement(&self) -> (r: VersionRange)
        ensures
            forall|x: VersionView| r.admits(x) <==> !self.admits(x),
    {
        proof {
            use_type_invariant(&*self);
        }
        let mut acc = VersionRange::full();
        let mut i: usize = 0;
        while i < self.segments.len()
            invariant
                i <= self.segments.len(),
                normalized(self@),
                forall|x: VersionView| #![trigger acc.admits(x)]
                    acc.admits(x) <==> !(exists|k: int|
                        0 <= k < i as int && in_interval(self@[k], x)),
            decreases self.segments.len() - i,
        {
            proof {
                assert(valid_segment(self@[i as int]));
                assert(self@[i as int] == self.segments@[i as int]@);
            }
            let piece = interval_complement(&self.segments[i]);
            acc = acc.intersection(&piece);
            proof {
                assert forall|x: VersionView| #![trigger acc.admits(x)]
                    acc.admits(x) <==> !(exists|k: int|
                        0 <= k < i as int + 1 && in_interval(self@[k], x)) by {
                    if exists|k: int| 0 <= k < i as int + 1 && in_interval(self@[k], x) {
                        let k = choose|k: int|
                            0 <= k < i as int + 1 && in_interval(self@[k], x);
                        if k < i as int {
                            assert(exists|k: int|
                                0 <= k < i as int && in_interval(self@[k], x));
                        } else {
                            assert(in_interval(self@[i as int], x));
                        }
                    }
                }
            }
            i += 1;
        }
        proof {
            assert forall|x: VersionView| acc.admits(x) <==> !self.admits(x) by {
                assert(acc.admits(x) <==> !(exists|k: int|
                    0 <= k < i as int && in_interval(self@[k], x)));
            }
        }
        acc
    }
}

impl VersionRange {
    /// The stored intervals, as pairs of a lower and an upper end: the
    /// normalized segments, sorted, disjoint and gapped, in storage
    /// order.
    pub fn iter(&self) -> (r: Vec<(VersionBound, VersionBound)>)
        ensures
            r@.len() == self@.len(),
            forall|k: int|
                0 <= k < r@.len() ==> r@[k].0@ == self@[k].lo && r@[k].1@ == self@[k].hi,
            normalized(self@),
    {
        proof {
            use_type_invariant(&*self);
        }
        let mut out: Vec<(VersionBound, VersionBound)> = Vec::new();
        let mut i: usize = 0;
        while i < self.segments.len()
            invariant
                i <= self.segments.len(),
                out@.len() == i as int,
                forall|k: int|
                    0 <= k < i as int ==> out@[k].0@ == self@[k].lo && out@[k].1@ == self@[k].hi,
            decreases self.segments.len() - i,
        {
            let seg = &self.segments[i];
            out.push((clone_bound(&seg.lo), clone_bound(&seg.hi)));
            i += 1;
        }
        out
    }

    /// A single pair of ends that encloses every admitted version, or
    /// `None` when the range stores no interval: the first stored
    /// interval's lower end paired with the last stored interval's upper
    /// end, which on the normalized storage is the tightest single
    /// enclosure the stored ends can give.
    pub fn bounding_range(&self) -> (r: Option<(VersionBound, VersionBound)>)
        ensures
            r is None <==> self@.len() == 0,
            r matches Some(b) ==> forall|x: VersionView|
                self.admits(x) ==> in_lower(b.0@, x) && in_upper(b.1@, x),
            r matches Some(b) ==> b.0@ == self@[0].lo && b.1@ == self@[self@.len() - 1].hi,
            normalized(self@),
    {
        proof {
            use_type_invariant(&*self);
        }
        if self.segments.len() == 0 {
            return None;
        }
        let lo = clone_bound(&self.segments[0].lo);
        let hi = clone_bound(&self.segments[self.segments.len() - 1].hi);
        proof {
            assert(lo@ == self@[0].lo);
            assert(hi@ == self@[self@.len() - 1].hi);
            assert forall|x: VersionView|
                self.admits(x) implies in_lower(lo@, x) && in_upper(hi@, x) by {
                let k = choose|k: int| 0 <= k < self@.len() && in_interval(self@[k], x);
                lemma_outer_ends_cover(self@, k, x);
            }
        }
        Some((lo, hi))
    }
}

} // verus!
