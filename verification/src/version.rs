//! PEP 440 version values and their total order.
//!
//! A version has an epoch, a sequence of release segments, and optional
//! pre-release, post-release and development-release markers. Two synthetic
//! markers (`min` and `max`) sort strictly below and above every concrete
//! version with the same epoch and release; they exist only to build
//! exclusive interval boundaries and never appear in parsed versions.

use vstd::prelude::*;

verus! {

/// The phase of a pre-release marker, in sorting order: alpha, beta,
/// release candidate.
#[derive(Clone, Copy, Debug, PartialEq, Eq, Structural)]
pub enum PrereleaseKind {
    Alpha,
    Beta,
    Rc,
}

/// A pre-release marker: a phase and a number (`b1` is beta number 1).
#[derive(Clone, Copy, Debug, PartialEq, Eq, Structural)]
pub struct Prerelease {
    pub kind: PrereleaseKind,
    pub number: u64,
}

/// The mathematical value of a [`Version`]: what contracts and the
/// ordering specification speak of.
#[verifier::ext_equal]
pub ghost struct VersionView {
    pub epoch: u64,
    pub release: Seq<u64>,
    pub pre: Option<Prerelease>,
    pub post: Option<u64>,
    pub dev: Option<u64>,
    pub min: Option<u64>,
    pub max: Option<u64>,
}

/// A PEP 440 version value.
#[derive(Debug, Clone)]
pub struct Version {
    epoch: u64,
    release: Vec<u64>,
    pre: Option<Prerelease>,
    post: Option<u64>,
    dev: Option<u64>,
    min: Option<u64>,
    max: Option<u64>,
}

impl View for Version {
    type V = VersionView;

    closed spec fn view(&self) -> VersionView {
        VersionView {
            epoch: self.epoch,
            release: self.release@,
            pre: self.pre,
            post: self.post,
            dev: self.dev,
            min: self.min,
            max: self.max,
        }
    }
}

/// The sequence with its first element removed; the empty sequence stays
/// empty.
pub open spec fn seq_tail(s: Seq<int>) -> Seq<int> {
    if s.len() == 0 {
        s
    } else {
        s.subrange(1, s.len() as int)
    }
}

/// The first element, with a missing element read as zero.
pub open spec fn head_or_zero(s: Seq<int>) -> int {
    if s.len() == 0 {
        0
    } else {
        s[0]
    }
}

/// Lexicographic comparison of two integer sequences, reading missing
/// trailing elements as zero, so `[1, 4]` and `[1, 4, 0]` compare equal.
/// Returns -1, 0 or 1.
pub open spec fn lex_cmp(a: Seq<int>, b: Seq<int>) -> int
    decreases a.len() + b.len(),
{
    if a.len() == 0 && b.len() == 0 {
        0
    } else if head_or_zero(a) < head_or_zero(b) {
        -1
    } else if head_or_zero(a) > head_or_zero(b) {
        1
    } else {
        lex_cmp(seq_tail(a), seq_tail(b))
    }
}

/// The primary comparison key: the epoch followed by the release segments.
pub open spec fn release_key(v: VersionView) -> Seq<int> {
    Seq::new(
        v.release.len() + 1,
        |i: int|
            if i == 0 {
                v.epoch as int
            } else {
                v.release[i - 1] as int
            },
    )
}

/// Rank of a pre-release phase in the order alpha < beta < rc.
pub open spec fn kind_rank(k: PrereleaseKind) -> int {
    match k {
        PrereleaseKind::Alpha => 0,
        PrereleaseKind::Beta => 1,
        PrereleaseKind::Rc => 2,
    }
}

/// How the pre-release slot of a concrete version sorts: a version with
/// only a development marker sorts below every pre-release (class 0), a
/// version without a pre-release marker sorts above every pre-release
/// (class 2), and a pre-release sorts by its phase and number (class 1).
pub open spec fn pre_class(v: VersionView) -> int {
    if v.pre is None && v.post is None && v.dev is Some {
        0
    } else if v.pre is None {
        2
    } else {
        1
    }
}

/// The secondary comparison key, deciding between versions that share an
/// epoch and release: the `min` marker sorts below every concrete version
/// (tier 0) and the `max` marker above (tier 2); concrete versions
/// (tier 1) sort by pre-release class, phase and number, then
/// post-release, then development marker, each absent development marker
/// sorting above a present one.
pub open spec fn suffix_key(v: VersionView) -> Seq<int> {
    if v.min is Some {
        seq![0int, v.min->0 as int, 0int, 0int, 0int, 0int, 0int, 0int, 0int]
    } else if v.max is Some {
        seq![2int, v.max->0 as int, 0int, 0int, 0int, 0int, 0int, 0int, 0int]
    } else {
        seq![
            1int,
            0int,
            pre_class(v),
            match v.pre {
                Some(p) => kind_rank(p.kind),
                None => 0int,
            },
            match v.pre {
                Some(p) => p.number as int,
                None => 0int,
            },
            if v.post is Some {
                1int
            } else {
                0int
            },
            match v.post {
                Some(n) => n as int,
                None => 0int,
            },
            if v.dev is Some {
                0int
            } else {
                1int
            },
            match v.dev {
                Some(n) => n as int,
                None => 0int,
            },
        ]
    }
}

/// The total order on versions: epoch and release segments decide first,
/// then the secondary key. Returns -1, 0 or 1.
pub open spec fn vcmp(a: VersionView, b: VersionView) -> int {
    if lex_cmp(release_key(a), release_key(b)) != 0 {
        lex_cmp(release_key(a), release_key(b))
    } else {
        lex_cmp(suffix_key(a), suffix_key(b))
    }
}

/// `a` sorts strictly below `b`.
pub open spec fn vlt(a: VersionView, b: VersionView) -> bool {
    vcmp(a, b) < 0
}

/// `a` sorts below or equal to `b`.
pub open spec fn vle(a: VersionView, b: VersionView) -> bool {
    vcmp(a, b) <= 0
}

/// `a` and `b` occupy the same place in the order (`1.4` equals `1.4.0`).
pub open spec fn veq(a: VersionView, b: VersionView) -> bool {
    vcmp(a, b) == 0
}

/// Swapping the arguments negates the comparison.
pub proof fn lemma_lex_cmp_flip(a: Seq<int>, b: Seq<int>)
    ensures
        lex_cmp(a, b) == -lex_cmp(b, a),
    decreases a.len() + b.len(),
{
    if a.len() == 0 && b.len() == 0 {
    } else if head_or_zero(a) == head_or_zero(b) {
        lemma_lex_cmp_flip(seq_tail(a), seq_tail(b));
    }
}

/// The comparison is transitive, and strict on one side makes the chain
/// strict.
pub proof fn lemma_lex_cmp_trans(a: Seq<int>, b: Seq<int>, c: Seq<int>)
    requires
        lex_cmp(a, b) <= 0,
        lex_cmp(b, c) <= 0,
    ensures
        lex_cmp(a, c) <= 0,
        lex_cmp(a, b) < 0 || lex_cmp(b, c) < 0 ==> lex_cmp(a, c) < 0,
    decreases a.len() + b.len() + c.len(),
{
    if a.len() == 0 && b.len() == 0 && c.len() == 0 {
    } else {
        let ha = head_or_zero(a);
        let hb = head_or_zero(b);
        let hc = head_or_zero(c);
        if ha < hc {
        } else {
            assert(ha <= hb && hb <= hc);
            lemma_lex_cmp_trans(seq_tail(a), seq_tail(b), seq_tail(c));
        }
    }
}

/// The flips and transitive chains among three versions, stated without
/// preconditions so a caller can use whichever direction applies.
pub proof fn lemma_vcmp_facts(a: VersionView, b: VersionView, c: VersionView)
    ensures
        vcmp(a, b) == -vcmp(b, a),
        vcmp(b, c) == -vcmp(c, b),
        vcmp(a, c) == -vcmp(c, a),
        vcmp(a, b) <= 0 && vcmp(b, c) <= 0 ==> vcmp(a, c) <= 0,
        vcmp(a, b) <= 0 && vcmp(b, c) < 0 ==> vcmp(a, c) < 0,
        vcmp(a, b) < 0 && vcmp(b, c) <= 0 ==> vcmp(a, c) < 0,
        vcmp(c, b) <= 0 && vcmp(b, a) <= 0 ==> vcmp(c, a) <= 0,
        vcmp(c, b) <= 0 && vcmp(b, a) < 0 ==> vcmp(c, a) < 0,
        vcmp(c, b) < 0 && vcmp(b, a) <= 0 ==> vcmp(c, a) < 0,
{
    lemma_vcmp_flip(a, b);
    lemma_vcmp_flip(b, c);
    lemma_vcmp_flip(a, c);
    if vcmp(a, b) <= 0 && vcmp(b, c) <= 0 {
        lemma_vcmp_trans(a, b, c);
    }
    if vcmp(c, b) <= 0 && vcmp(b, a) <= 0 {
        lemma_vcmp_trans(c, b, a);
    }
}

/// Swapping the arguments negates the version comparison.
pub proof fn lemma_vcmp_flip(a: VersionView, b: VersionView)
    ensures
        vcmp(a, b) == -vcmp(b, a),
{
    lemma_lex_cmp_flip(release_key(a), release_key(b));
    lemma_lex_cmp_flip(suffix_key(a), suffix_key(b));
}

/// The version order is transitive, strictly so when either link is
/// strict.
pub proof fn lemma_vcmp_trans(a: VersionView, b: VersionView, c: VersionView)
    requires
        vcmp(a, b) <= 0,
        vcmp(b, c) <= 0,
    ensures
        vcmp(a, c) <= 0,
        vcmp(a, b) < 0 || vcmp(b, c) < 0 ==> vcmp(a, c) < 0,
{
    let ra = release_key(a);
    let rb = release_key(b);
    let rc = release_key(c);
    lemma_lex_cmp_trans(ra, rb, rc);
    if lex_cmp(ra, rc) == 0 {
        lemma_lex_cmp_trans(suffix_key(a), suffix_key(b), suffix_key(c));
    }
}

/// The version without its markers: the projection used by release-only
/// conversion.
pub open spec fn only_release_view(v: VersionView) -> VersionView {
    VersionView {
        epoch: v.epoch,
        release: v.release,
        pre: None,
        post: None,
        dev: None,
        min: None,
        max: None,
    }
}

/// A sequence of machine integers read as mathematical integers.
pub open spec fn int_view(s: Seq<i128>) -> Seq<int> {
    s.map_values(|v: i128| v as int)
}

/// The suffix of `s` from index `i` on; empty when `i` is past the end.
pub open spec fn rest(s: Seq<int>, i: int) -> Seq<int> {
    if i >= s.len() {
        Seq::<int>::empty()
    } else {
        s.subrange(i, s.len() as int)
    }
}

proof fn lemma_rest_step(s: Seq<int>, i: int)
    requires
        0 <= i,
    ensures
        seq_tail(rest(s, i)) == rest(s, i + 1),
{
    if i >= s.len() {
        assert(seq_tail(rest(s, i)) =~= rest(s, i + 1));
    } else {
        assert(seq_tail(rest(s, i)) =~= rest(s, i + 1));
    }
}

/// Compares two key vectors as `lex_cmp` compares their values.
fn lex_cmp_vecs(x: &Vec<i128>, y: &Vec<i128>) -> (r: i8)
    ensures
        r as int == lex_cmp(int_view(x@), int_view(y@)),
{
    let ghost xa = int_view(x@);
    let ghost ya = int_view(y@);
    let n = if x.len() > y.len() {
        x.len()
    } else {
        y.len()
    };
    proof {
        assert(rest(xa, 0) =~= xa);
        assert(rest(ya, 0) =~= ya);
    }
    let mut i: usize = 0;
    while i < n
        invariant
            i <= n,
            n >= x.len() && n >= y.len(),
            xa == int_view(x@) && ya == int_view(y@),
            lex_cmp(xa, ya) == lex_cmp(rest(xa, i as int), rest(ya, i as int)),
        decreases n - i,
    {
        let xe: i128 = if i < x.len() {
            x[i]
        } else {
            0
        };
        let ye: i128 = if i < y.len() {
            y[i]
        } else {
            0
        };
        proof {
            assert(head_or_zero(rest(xa, i as int)) == xe as int);
            assert(head_or_zero(rest(ya, i as int)) == ye as int);
            lemma_rest_step(xa, i as int);
            lemma_rest_step(ya, i as int);
        }
        if xe < ye {
            return -1;
        }
        if xe > ye {
            return 1;
        }
        i += 1;
    }
    proof {
        assert(rest(xa, i as int).len() == 0);
        assert(rest(ya, i as int).len() == 0);
    }
    0
}

fn copy_segments(v: &Vec<u64>) -> (r: Vec<u64>)
    ensures
        r@ == v@,
{
    let mut out: Vec<u64> = Vec::new();
    let mut i: usize = 0;
    while i < v.len()
        invariant
            i <= v.len(),
            out@ == v@.subrange(0, i as int),
        decreases v.len() - i,
    {
        out.push(v[i]);
        proof {
            assert(out@ =~= v@.subrange(0, i as int + 1));
        }
        i += 1;
    }
    proof {
        assert(v@.subrange(0, v@.len() as int) =~= v@);
    }
    out
}

fn build_release_key(v: &Version) -> (r: Vec<i128>)
    ensures
        int_view(r@) == release_key(v@),
{
    let mut out: Vec<i128> = Vec::new();
    out.push(v.epoch as i128);
    proof {
        assert(int_view(out@) =~= release_key(v@).subrange(0, 1));
    }
    let mut i: usize = 0;
    while i < v.release.len()
        invariant
            i <= v.release.len(),
            v@.release == v.release@,
            v@.epoch == v.epoch,
            out@.len() == i + 1,
            int_view(out@) == release_key(v@).subrange(0, i as int + 1),
        decreases v.release.len() - i,
    {
        out.push(v.release[i] as i128);
        proof {
            assert(int_view(out@) =~= release_key(v@).subrange(0, i as int + 2));
        }
        i += 1;
    }
    proof {
        assert(release_key(v@).subrange(0, release_key(v@).len() as int) =~= release_key(v@));
    }
    out
}

fn build_suffix_key(v: &Version) -> (r: Vec<i128>)
    ensures
        int_view(r@) == suffix_key(v@),
{
    let mut out: Vec<i128> = Vec::new();
    match v.min {
        Some(m) => {
            out.push(0);
            out.push(m as i128);
            let mut k: usize = 0;
            while k < 7
                invariant
                    k <= 7,
                    out@.len() == k + 2,
                    out@[0] == 0i128 && out@[1] == m as i128,
                    forall|j: int| 2 <= j < out@.len() ==> out@[j] == 0i128,
                decreases 7 - k,
            {
                out.push(0);
                k += 1;
            }
        },
        None => {
            match v.max {
                Some(m) => {
                    out.push(2);
                    out.push(m as i128);
                    let mut k: usize = 0;
                    while k < 7
                        invariant
                            k <= 7,
                            out@.len() == k + 2,
                            out@[0] == 2i128 && out@[1] == m as i128,
                            forall|j: int| 2 <= j < out@.len() ==> out@[j] == 0i128,
                        decreases 7 - k,
                    {
                        out.push(0);
                        k += 1;
                    }
                },
                None => {
                    let pc: i128 = if v.pre.is_none() && v.post.is_none() && v.dev.is_some() {
                        0
                    } else if v.pre.is_none() {
                        2
                    } else {
                        1
                    };
                    out.push(1);
                    out.push(0);
                    out.push(pc);
                    match v.pre {
                        Some(p) => {
                            let kr: i128 = match p.kind {
                                PrereleaseKind::Alpha => 0,
                                PrereleaseKind::Beta => 1,
                                PrereleaseKind::Rc => 2,
                            };
                            out.push(kr);
                            out.push(p.number as i128);
                        },
                        None => {
                            out.push(0);
                            out.push(0);
                        },
                    }
                    match v.post {
                        Some(n) => {
                            out.push(1);
                            out.push(n as i128);
                        },
                        None => {
                            out.push(0);
                            out.push(0);
                        },
                    }
                    match v.dev {
                        Some(n) => {
                            out.push(0);
                            out.push(n as i128);
                        },
                        None => {
                            out.push(1);
                            out.push(0);
                        },
                    }
                },
            }
        },
    }
    proof {
        assert(int_view(out@) =~= suffix_key(v@));
    }
    out
}

impl Version {
    /// A version with the given release segments, epoch 0 and no markers.
    pub fn new(release: Vec<u64>) -> (r: Version)
        ensures
            r@ == (VersionView {
                epoch: 0,
                release: release@,
                pre: None,
                post: None,
                dev: None,
                min: None,
                max: None,
            }),
    {
        Version { epoch: 0, release, pre: None, post: None, dev: None, min: None, max: None }
    }

    /// The same version with another epoch.
    pub fn with_epoch(self, epoch: u64) -> (r: Version)
        ensures
            r@ == (VersionView { epoch, ..self@ }),
    {
        Version { epoch, ..self }
    }

    /// The same version with other release segments.
    pub fn with_release(self, release: Vec<u64>) -> (r: Version)
        ensures
            r@ == (VersionView { release: release@, ..self@ }),
    {
        Version { release, ..self }
    }

    /// The same version with another pre-release marker.
    pub fn with_pre(self, pre: Option<Prerelease>) -> (r: Version)
        ensures
            r@ == (VersionView { pre, ..self@ }),
    {
        Version { pre, ..self }
    }

    /// The same version with another post-release marker.
    pub fn with_post(self, post: Option<u64>) -> (r: Version)
        ensures
            r@ == (VersionView { post, ..self@ }),
    {
        Version { post, ..self }
    }

    /// The same version with another development-release marker.
    pub fn with_dev(self, dev: Option<u64>) -> (r: Version)
        ensures
            r@ == (VersionView { dev, ..self@ }),
    {
        Version { dev, ..self }
    }

    /// The same version carrying the synthetic lower boundary marker.
    pub fn with_min(self, min: Option<u64>) -> (r: Version)
        ensures
            r@ == (VersionView { min, ..self@ }),
    {
        Version { min, ..self }
    }

    /// The same version carrying the synthetic upper boundary marker.
    pub fn with_max(self, max: Option<u64>) -> (r: Version)
        ensures
            r@ == (VersionView { max, ..self@ }),
    {
        Version { max, ..self }
    }

    /// The version reduced to its epoch and release segments.
    pub fn only_release(&self) -> (r: Version)
        ensures
            r@ == only_release_view(self@),
    {
        Version {
            epoch: self.epoch,
            release: copy_segments(&self.release),
            pre: None,
            post: None,
            dev: None,
            min: None,
            max: None,
        }
    }

    /// An identical copy, equal at every level the specifications see.
    pub fn duplicate(&self) -> (r: Version)
        ensures
            r@ == self@,
    {
        let r = Version {
            epoch: self.epoch,
            release: copy_segments(&self.release),
            pre: self.pre,
            post: self.post,
            dev: self.dev,
            min: self.min,
            max: self.max,
        };
        proof {
            assert(r@ =~= self@);
        }
        r
    }

    pub fn epoch(&self) -> (r: u64)
        ensures
            r == self@.epoch,
    {
        self.epoch
    }

    pub fn release(&self) -> (r: &Vec<u64>)
        ensures
            r@ == self@.release,
    {
        &self.release
    }

    pub fn pre(&self) -> (r: Option<Prerelease>)
        ensures
            r == self@.pre,
    {
        self.pre
    }

    pub fn post(&self) -> (r: Option<u64>)
        ensures
            r == self@.post,
    {
        self.post
    }

    pub fn dev(&self) -> (r: Option<u64>)
        ensures
            r == self@.dev,
    {
        self.dev
    }

    /// Whether the version carries a pre-release or development marker.
    pub fn any_prerelease(&self) -> (r: bool)
        ensures
            r == (self@.pre is Some || self@.dev is Some),
    {
        self.pre.is_some() || self.dev.is_some()
    }

    /// Where this version stands relative to `other` in the version
    /// order: -1 below, 0 equal, 1 above.
    pub fn compare(&self, other: &Version) -> (r: i8)
        ensures
            r as int == vcmp(self@, other@),
    {
        let rk = lex_cmp_vecs(&build_release_key(self), &build_release_key(other));
        if rk != 0 {
            rk
        } else {
            lex_cmp_vecs(&build_suffix_key(self), &build_suffix_key(other))
        }
    }
}

} // verus!
