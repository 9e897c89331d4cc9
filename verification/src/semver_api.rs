//! Trusted bindings to the `semver` crate.
use crate::engine::semver::{version_text, SemVersion};
use vstd::prelude::*;

verus! {

#[verifier::external_type_specification]
#[verifier::external_body]
pub struct ExSemverVersion(semver::Version);

/// The parts of a version as plain values: major, minor, patch, pre-release, build.
pub type VersionParts = (u64, u64, u64, Seq<char>, Seq<char>);

/// What `semver::Version::parse` yields for a text, taken apart; `None` where it fails.
pub uninterp spec fn semver_parse_result(text: Seq<char>) -> Option<VersionParts>;

/// `semver::Version`'s `>` between two versions whose numeric triples are equal,
/// which then depends on pre-release and build metadata.
pub uninterp spec fn semver_tie_greater(a: VersionParts, b: VersionParts) -> bool;

/// `semver::Version`'s `>`: `Version` derives `Ord` over the fields major, minor,
/// patch, pre, build in that order, so the numeric triple decides first.
pub open spec fn semver_greater(a: VersionParts, b: VersionParts) -> bool {
    if a.0 != b.0 {
        a.0 > b.0
    } else if a.1 != b.1 {
        a.1 > b.1
    } else if a.2 != b.2 {
        a.2 > b.2
    } else {
        semver_tie_greater(a, b)
    }
}

/// Calls `semver::Version::parse` and takes the result apart: the three numbers,
/// and the texts of the pre-release and build parts (`as_str`). On failure it
/// returns the error's display text. Claimed: the parts are those named by
/// [`semver_parse_result`]; nothing is claimed of the error text.
#[verifier::external_body]
pub(crate) fn semver_parse(text: &str) -> (r: Result<SemVersion, String>)
    ensures
        match r {
            Ok(v) => semver_parse_result(text@) == Some(v@),
            Err(_) => semver_parse_result(text@) is None,
        },
{
    match semver::Version::parse(text) {
        Ok(v) => Ok(SemVersion {
            major: v.major,
            minor: v.minor,
            patch: v.patch,
            pre: v.pre.as_str().to_string(),
            build: v.build.as_str().to_string(),
            raw: v,
        }),
        Err(e) => Err(e.to_string()),
    }
}

/// Calls `semver::Version::new`, which sets the three numbers and leaves the
/// pre-release and build parts empty. Claimed: exactly those parts.
#[verifier::external_body]
pub(crate) fn semver_new(major: u64, minor: u64, patch: u64) -> (r: SemVersion)
    ensures
        r@ == (major, minor, patch, Seq::<char>::empty(), Seq::<char>::empty()),
{
    SemVersion {
        major,
        minor,
        patch,
        pre: String::new(),
        build: String::new(),
        raw: semver::Version::new(major, minor, patch),
    }
}

/// Compares two versions with `semver::Version`'s `>` (its derived `Ord`).
/// Claimed: the result is [`semver_greater`] of their parts, and of two versions
/// with the same numbers the one without a pre-release part is the greater
/// (`Prerelease`'s `Ord` puts a release above any pre-release); a `SemVersion` is only
/// built by [`semver_parse`] and [`semver_new`], which keep the parts and the
/// `semver::Version` in agreement.
#[verifier::external_body]
pub(crate) fn semver_gt(a: &SemVersion, b: &SemVersion) -> (r: bool)
    ensures
        r == semver_greater(a@, b@),
        a@.0 == b@.0 && a@.1 == b@.1 && a@.2 == b@.2 ==> r == semver_tie_greater(a@, b@),
        a@.0 == b@.0 && a@.1 == b@.1 && a@.2 == b@.2 && a@.3.len() == 0 && b@.3.len() > 0 ==> r,
        a@.0 == b@.0 && a@.1 == b@.1 && a@.2 == b@.2 && a@.3.len() > 0 && b@.3.len() == 0 ==> !r,
{
    a.raw > b.raw
}

/// Writes a version with `semver::Version`'s `Display` (`to_string`). Claimed: the
/// text is [`version_text`] of its parts (the three numbers, then `-PRE` and
/// `+BUILD` where they are not empty), and `semver::Version::parse` reads that text
/// back as the same parts (`Display` writes the identifiers that parsing accepted,
/// or none). A `SemVersion` is only built by [`semver_parse`] and [`semver_new`],
/// which keep its parts and its `semver::Version` in agreement.
#[verifier::external_body]
pub(crate) fn semver_to_string(v: &SemVersion) -> (r: String)
    ensures
        r@ == version_text(v@),
        semver_parse_result(r@) == Some(v@),
{
    v.raw.to_string()
}

} // verus!
