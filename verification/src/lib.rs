//! Conversion of PEP 440 version specifiers into an algebraic set of
//! admitted versions: a union of ordered intervals over the version order.
//!
//! The crate models PEP 440 versions (epoch, release segments, pre-, post-
//! and development-release markers, plus two synthetic boundary markers),
//! defines their total order, and converts each specifier operator into the
//! interval(s) of versions it admits, under two semantic modes: the strict
//! PEP 440 rules for dependency matching, and a release-only mode for
//! interpreter-compatibility checks.

pub mod convert;
pub mod laws;
pub mod ranges;
pub mod specifier;
pub mod version;

pub use convert::ConversionMode;
pub use convert::VersionRangesSpecifier;
pub use convert::VersionRangesSpecifierError;
pub use ranges::VersionBound;
pub use ranges::VersionRange;
pub use specifier::Operator;
pub use specifier::VersionSpecifier;
pub use specifier::VersionSpecifiers;
pub use version::Prerelease;
pub use version::PrereleaseKind;
pub use version::Version;
