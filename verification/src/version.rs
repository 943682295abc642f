//! Firmware versions as reported by signing devices, and their ordering.
//!
//! A version is the `(major, minor, patch)` triple of the device firmware;
//! versions are ordered lexicographically on that triple.

use vstd::prelude::*;

verus! {

/// A device firmware version. Ordered lexicographically on
/// `(major, minor, patch)`.
#[derive(Clone, Copy, Debug, PartialEq, Eq, Structural)]
pub struct Version {
    pub major: u32,
    pub minor: u32,
    pub patch: u32,
}

/// `a >= b` in the lexicographic order on `(major, minor, patch)`.
pub open spec fn version_ge_spec(a: Version, b: Version) -> bool {
    ||| a.major > b.major
    ||| (a.major == b.major && a.minor > b.minor)
    ||| (a.major == b.major && a.minor == b.minor && a.patch >= b.patch)
}

impl Version {
    pub fn new(major: u32, minor: u32, patch: u32) -> (r: Version)
        ensures
            r == (Version { major, minor, patch }),
    {
        Version { major, minor, patch }
    }

    /// Whether `self` is at least `other`, lexicographically on
    /// `(major, minor, patch)`.
    pub fn at_least(&self, other: &Version) -> (r: bool)
        ensures
            r == version_ge_spec(*self, *other),
    {
        if self.major != other.major {
            self.major > other.major
        } else if self.minor != other.minor {
            self.minor > other.minor
        } else {
            self.patch >= other.patch
        }
    }
}

/// The lexicographic order on versions is total: of two versions, one is
/// always at least the other.
pub proof fn lemma_version_order_total(a: Version, b: Version)
    ensures
        version_ge_spec(a, b) || version_ge_spec(b, a),
        version_ge_spec(a, b) && version_ge_spec(b, a) ==> a == b,
{
}

/// What `async_hwi::parse_version` yields for a version text, reduced to the
/// `(major, minor, patch)` triple; `None` where the text does not parse. The
/// result is a function of the text alone.
pub uninterp spec fn parsed_version_of(s: Seq<char>) -> Option<Version>;

/// Relies on async_hwi::parse_version: parses a semantic-version text (an
/// optional leading `v`, numeric major/minor with an optional patch, then
/// optional prerelease and build-metadata parts) by a fixed regular
/// expression, so the result depends on the text alone.
#[verifier::external_body]
pub(crate) fn parse_version_text(s: &str) -> (r: Option<Version>)
    ensures
        r == parsed_version_of(s@),
{
    match async_hwi::parse_version(s) {
        Ok(v) => Some(Version { major: v.major, minor: v.minor, patch: v.patch }),
        Err(_) => None,
    }
}

} // verus!
