//! Trusted bindings to parts of the standard library that `vstd` leaves unspecified.
use vstd::prelude::*;

verus! {

/// `char::is_alphanumeric`: the character is alphabetic or numeric in Unicode.
pub uninterp spec fn unicode_alphanumeric(c: char) -> bool;

/// Calls `char::is_alphanumeric`. Claimed: the result is the name
/// [`unicode_alphanumeric`] of the character.
#[verifier::external_body]
pub(crate) fn char_is_alphanumeric(c: char) -> (r: bool)
    ensures
        r == unicode_alphanumeric(c),
{
    c.is_alphanumeric()
}

/// `Path::parent` of a path, as text.
pub uninterp spec fn std_path_parent(p: Seq<char>) -> Option<Seq<char>>;

/// Calls `Path::parent` and writes the result as text (`to_string_lossy`).
/// Claimed: the result is the name [`std_path_parent`] of the path.
#[verifier::external_body]
pub(crate) fn path_parent(p: &str) -> (r: Option<String>)
    ensures
        match r {
            Some(s) => std_path_parent(p@) == Some(s@),
            None => std_path_parent(p@) is None,
        },
{
    std::path::Path::new(p).parent().map(|q| q.to_string_lossy().to_string())
}

/// `Path::file_name` of a path, as text.
pub uninterp spec fn std_path_file_name(p: Seq<char>) -> Option<Seq<char>>;

/// Calls `Path::file_name` and writes the result as text. Claimed: the result is
/// the name [`std_path_file_name`] of the path.
#[verifier::external_body]
pub(crate) fn path_file_name(p: &str) -> (r: Option<String>)
    ensures
        match r {
            Some(s) => std_path_file_name(p@) == Some(s@),
            None => std_path_file_name(p@) is None,
        },
{
    std::path::Path::new(p).file_name().map(|q| q.to_string_lossy().to_string())
}

/// `Path::starts_with`: whether the components of `base` are a prefix of those of `p`.
pub uninterp spec fn std_path_starts_with(p: Seq<char>, base: Seq<char>) -> bool;

/// Calls `Path::starts_with`. Claimed: the result is the name
/// [`std_path_starts_with`] of the two paths.
#[verifier::external_body]
pub(crate) fn path_starts_with(p: &str, base: &str) -> (r: bool)
    ensures
        r == std_path_starts_with(p@, base@),
{
    std::path::Path::new(p).starts_with(std::path::Path::new(base))
}

/// Calls `Path::exists` on `p`, which asks the file system, and hands back the
/// path asked about beside the answer. Only that this path is `p` is claimed: the
/// answer depends on the file system at the time of the call.
#[verifier::external_body]
pub(crate) fn path_exists(p: &str) -> (r: (String, bool))
    ensures
        r.0@ == p@,
{
    (p.to_string(), std::path::Path::new(p).exists())
}

/// Calls `Path::is_dir` on `p`, which asks the file system, and hands back the
/// path asked about beside the answer. Only that this path is `p` is claimed: the
/// answer depends on the file system at the time of the call.
#[verifier::external_body]
pub(crate) fn path_is_dir(p: &str) -> (r: (String, bool))
    ensures
        r.0@ == p@,
{
    (p.to_string(), std::path::Path::new(p).is_dir())
}

/// Calls `Path::canonicalize` on `p`, which asks the file system, and hands back
/// the path asked about beside the answer written as text (the error as its
/// display text). Claimed: this path is `p`, and a canonical form is absolute (it
/// begins with `/`, as `Path::canonicalize` documents of its result on Unix).
/// Which answer comes depends on the file system at the time of the call.
#[verifier::external_body]
pub(crate) fn path_canonicalize(p: &str) -> (r: (String, Result<String, String>))
    ensures
        r.0@ == p@,
        r.1 is Ok ==> r.1->Ok_0@.len() > 0 && r.1->Ok_0@[0] == '/',
{
    match std::path::Path::new(p).canonicalize() {
        Ok(c) => (p.to_string(), Ok(c.to_string_lossy().to_string())),
        Err(e) => (p.to_string(), Err(e.to_string())),
    }
}

} // verus!
