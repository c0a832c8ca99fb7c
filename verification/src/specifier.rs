//! Version constraints: an operator applied to an operand version, and
//! ordered conjunctions of such constraints.

use vstd::prelude::*;

use crate::version::Version;
use crate::version::VersionView;

verus! {

/// The ten PEP 440 comparison operators.
#[derive(Clone, Copy, Debug, PartialEq, Eq, Structural)]
pub enum Operator {
    /// `==`: equality under the version order.
    Equal,
    /// `===`: treated as equality under the version order.
    ExactEqual,
    /// `!=`: inequality under the version order.
    NotEqual,
    /// `~=`: compatible release.
    TildeEqual,
    /// `<`: strictly below, excluding pre-releases of the operand.
    LessThan,
    /// `<=`: at or below.
    LessThanEqual,
    /// `>`: strictly above, excluding post-releases of the operand.
    GreaterThan,
    /// `>=`: at or above.
    GreaterThanEqual,
    /// `== V.*`: prefix match.
    EqualStar,
    /// `!= V.*`: prefix mismatch.
    NotEqualStar,
}

/// The mathematical value of a [`VersionSpecifier`].
pub ghost struct SpecifierView {
    pub op: Operator,
    pub version: VersionView,
}

/// One constraint: an operator and its operand version.
#[derive(Debug, Clone)]
pub struct VersionSpecifier {
    operator: Operator,
    version: Version,
}

impl View for VersionSpecifier {
    type V = SpecifierView;

    closed spec fn view(&self) -> SpecifierView {
        SpecifierView { op: self.operator, version: self.version@ }
    }
}

impl VersionSpecifier {
    /// The constraint applying `operator` to `version`.
    pub fn new(operator: Operator, version: Version) -> (r: VersionSpecifier)
        ensures
            r@ == (SpecifierView { op: operator, version: version@ }),
    {
        VersionSpecifier { operator, version }
    }

    pub fn operator(&self) -> (r: Operator)
        ensures
            r == self@.op,
    {
        self.operator
    }

    pub fn version(&self) -> (r: &Version)
        ensures
            r@ == self@.version,
    {
        &self.version
    }

    /// An identical copy, equal at every level the specifications see.
    pub fn duplicate(&self) -> (r: VersionSpecifier)
        ensures
            r@ == self@,
    {
        VersionSpecifier { operator: self.operator, version: self.version.duplicate() }
    }
}

/// The mathematical values of a sequence of constraints.
pub open spec fn specs_view(list: Seq<VersionSpecifier>) -> Seq<SpecifierView> {
    list.map_values(|s: VersionSpecifier| s@)
}

/// An ordered conjunction of constraints: a version satisfies the set
/// when it satisfies every member.
#[derive(Debug, Clone)]
pub struct VersionSpecifiers {
    list: Vec<VersionSpecifier>,
}

impl View for VersionSpecifiers {
    type V = Seq<SpecifierView>;

    closed spec fn view(&self) -> Seq<SpecifierView> {
        specs_view(self.list@)
    }
}

impl VersionSpecifiers {
    /// The conjunction of the given constraints, kept in order.
    pub fn new(list: Vec<VersionSpecifier>) -> (r: VersionSpecifiers)
        ensures
            r@ == specs_view(list@),
    {
        VersionSpecifiers { list }
    }

    pub fn len(&self) -> (r: usize)
        ensures
            r == self@.len(),
    {
        self.list.len()
    }

    /// The constraint at position `i`.
    pub fn get(&self, i: usize) -> (r: &VersionSpecifier)
        requires
            i < self@.len(),
        ensures
            r@ == self@[i as int],
    {
        &self.list[i]
    }
}

} // verus!
