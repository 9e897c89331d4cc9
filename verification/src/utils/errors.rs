//! Typed errors of the library.
use crate::text::{chars_of, contains_chars, has_infix, string_of};
use vstd::prelude::*;

verus! {

/// Error kinds of the library, each with its message.
#[derive(Debug)]
pub enum AutoversionError {
    /// Version parsing or validation error.
    InvalidVersion(String),
    /// Technology detection error.
    TechnologyNotDetected(String),
    /// File operation error.
    FileOperation(String),
    /// Git operation error.
    GitOperation(String),
    /// Configuration error.
    Configuration(String),
    /// Validation error.
    Validation(String),
    /// Network or external service error.
    External(String),
}

/// Result type of the library's typed errors.
pub type AutoversionResult<T> = Result<T, AutoversionError>;

/// The kind that a message is filed under, by the words it holds: `version` or
/// `semver`, then `git`, then `file`, `read` or `write`, then `technology` or
/// `detect`, then `config`; anything else is external.
pub open spec fn kind_of_message(m: Seq<char>) -> int {
    if has_infix(m, "version"@) || has_infix(m, "semver"@) {
        0
    } else if has_infix(m, "git"@) {
        3
    } else if has_infix(m, "file"@) || has_infix(m, "read"@) || has_infix(m, "write"@) {
        2
    } else if has_infix(m, "technology"@) || has_infix(m, "detect"@) {
        1
    } else if has_infix(m, "config"@) {
        4
    } else {
        6
    }
}

impl AutoversionError {
    /// The index of the variant, in declaration order.
    pub open spec fn spec_kind(&self) -> int {
        match self {
            AutoversionError::InvalidVersion(_) => 0,
            AutoversionError::TechnologyNotDetected(_) => 1,
            AutoversionError::FileOperation(_) => 2,
            AutoversionError::GitOperation(_) => 3,
            AutoversionError::Configuration(_) => 4,
            AutoversionError::Validation(_) => 5,
            AutoversionError::External(_) => 6,
        }
    }

    /// The message the error carries.
    pub open spec fn spec_message(&self) -> Seq<char> {
        match self {
            AutoversionError::InvalidVersion(m) => m@,
            AutoversionError::TechnologyNotDetected(m) => m@,
            AutoversionError::FileOperation(m) => m@,
            AutoversionError::GitOperation(m) => m@,
            AutoversionError::Configuration(m) => m@,
            AutoversionError::Validation(m) => m@,
            AutoversionError::External(m) => m@,
        }
    }

    /// The heading that the display puts before the message.
    pub open spec fn spec_heading(&self) -> Seq<char> {
        match self {
            AutoversionError::InvalidVersion(_) => "Invalid version: "@,
            AutoversionError::TechnologyNotDetected(_) => "Technology detection failed: "@,
            AutoversionError::FileOperation(_) => "File operation failed: "@,
            AutoversionError::GitOperation(_) => "Git operation failed: "@,
            AutoversionError::Configuration(_) => "Configuration error: "@,
            AutoversionError::Validation(_) => "Validation error: "@,
            AutoversionError::External(_) => "External service error: "@,
        }
    }

    /// The text that `Display` writes: the heading of the kind, then the message.
    pub fn display_text(&self) -> (r: String)
        ensures
            r@ == self.spec_heading() + self.spec_message(),
    {
        match self {
            AutoversionError::InvalidVersion(m) => String::from_str("Invalid version: ").concat(m.as_str()),
            AutoversionError::TechnologyNotDetected(m) => String::from_str("Technology detection failed: ").concat(m.as_str()),
            AutoversionError::FileOperation(m) => String::from_str("File operation failed: ").concat(m.as_str()),
            AutoversionError::GitOperation(m) => String::from_str("Git operation failed: ").concat(m.as_str()),
            AutoversionError::Configuration(m) => String::from_str("Configuration error: ").concat(m.as_str()),
            AutoversionError::Validation(m) => String::from_str("Validation error: ").concat(m.as_str()),
            AutoversionError::External(m) => String::from_str("External service error: ").concat(m.as_str()),
        }
    }

    /// An invalid-version error.
    pub fn invalid_version(msg: &str) -> (r: Self)
        ensures
            r.spec_kind() == 0 && r.spec_message() == msg@,
    {
        AutoversionError::InvalidVersion(string_of(&chars_of(msg)))
    }

    /// A technology-detection error.
    pub fn technology_not_detected(msg: &str) -> (r: Self)
        ensures
            r.spec_kind() == 1 && r.spec_message() == msg@,
    {
        AutoversionError::TechnologyNotDetected(string_of(&chars_of(msg)))
    }

    /// A file-operation error.
    pub fn file_operation(msg: &str) -> (r: Self)
        ensures
            r.spec_kind() == 2 && r.spec_message() == msg@,
    {
        AutoversionError::FileOperation(string_of(&chars_of(msg)))
    }

    /// A git-operation error.
    pub fn git_operation(msg: &str) -> (r: Self)
        ensures
            r.spec_kind() == 3 && r.spec_message() == msg@,
    {
        AutoversionError::GitOperation(string_of(&chars_of(msg)))
    }

    /// A configuration error.
    pub fn configuration(msg: &str) -> (r: Self)
        ensures
            r.spec_kind() == 4 && r.spec_message() == msg@,
    {
        AutoversionError::Configuration(string_of(&chars_of(msg)))
    }

    /// A validation error.
    pub fn validation(msg: &str) -> (r: Self)
        ensures
            r.spec_kind() == 5 && r.spec_message() == msg@,
    {
        AutoversionError::Validation(string_of(&chars_of(msg)))
    }

    /// An external-service error.
    pub fn external(msg: &str) -> (r: Self)
        ensures
            r.spec_kind() == 6 && r.spec_message() == msg@,
    {
        AutoversionError::External(string_of(&chars_of(msg)))
    }

    /// Files an untyped error message under a kind by the words it holds (see
    /// [`kind_of_message`]).
    pub fn from_message(msg: &str) -> (r: Self)
        ensures
            r.spec_kind() == kind_of_message(msg@),
            r.spec_message() == msg@,
    {
        let m = chars_of(msg);
        let s = string_of(&m);
        if contains_chars(&m, &chars_of("version")) || contains_chars(&m, &chars_of("semver")) {
            AutoversionError::InvalidVersion(s)
        } else if contains_chars(&m, &chars_of("git")) {
            AutoversionError::GitOperation(s)
        } else if contains_chars(&m, &chars_of("file")) || contains_chars(&m, &chars_of("read"))
            || contains_chars(&m, &chars_of("write")) {
            AutoversionError::FileOperation(s)
        } else if contains_chars(&m, &chars_of("technology")) || contains_chars(&m, &chars_of("detect")) {
            AutoversionError::TechnologyNotDetected(s)
        } else if contains_chars(&m, &chars_of("config")) {
            AutoversionError::Configuration(s)
        } else {
            AutoversionError::External(s)
        }
    }
}

/// `msg`, a colon and a space, then the display text of `e` (`format!("{}: {}")`).
/// Claimed: the result begins with `msg` followed by `": "`; nothing is claimed of
/// the rest, which is whatever `e`'s `Display` writes.
#[verifier::external_body]
fn with_context<E: std::fmt::Display>(msg: &str, e: &E) -> (r: String)
    ensures
        r@.len() >= msg@.len() + 2,
        r@.subrange(0, msg@.len() + 2int) == msg@ + ": "@,
{
    format!("{}: {}", msg, e)
}

/// Helper for converting errors that can be displayed into typed errors.
pub trait IntoAutoversionError<T> {
    /// The error as an invalid-version error.
    fn version_error(self, msg: &str) -> AutoversionResult<T>;

    /// The error as a technology-detection error.
    fn tech_error(self, msg: &str) -> AutoversionResult<T>;

    /// The error as a file-operation error.
    fn file_error(self, msg: &str) -> AutoversionResult<T>;

    /// The error as a git-operation error.
    fn git_error(self, msg: &str) -> AutoversionResult<T>;

    /// The error as a configuration error.
    fn config_error(self, msg: &str) -> AutoversionResult<T>;

    /// The error as a validation error.
    fn validation_error(self, msg: &str) -> AutoversionResult<T>;
}

/// Whether `r` keeps the value of `x`, or turns its error into one of kind `k`
/// whose message begins with `msg: `.
pub open spec fn converted<T, E>(x: Result<T, E>, r: AutoversionResult<T>, k: int, msg: Seq<char>) -> bool {
    match x {
        Ok(v) => r == Ok::<T, AutoversionError>(v),
        Err(_) => r is Err && r->Err_0.spec_kind() == k && r->Err_0.spec_message().len() >= msg.len() + 2
            && r->Err_0.spec_message().subrange(0, msg.len() + 2int) == msg + ": "@,
    }
}

impl<T, E: std::fmt::Display> IntoAutoversionError<T> for Result<T, E> {
    fn version_error(self, msg: &str) -> (r: AutoversionResult<T>)
        ensures
            converted(self, r, 0, msg@),
    {
        match self {
            Ok(v) => Ok(v),
            Err(e) => Err(AutoversionError::InvalidVersion(with_context(msg, &e))),
        }
    }

    fn tech_error(self, msg: &str) -> (r: AutoversionResult<T>)
        ensures
            converted(self, r, 1, msg@),
    {
        match self {
            Ok(v) => Ok(v),
            Err(e) => Err(AutoversionError::TechnologyNotDetected(with_context(msg, &e))),
        }
    }

    fn file_error(self, msg: &str) -> (r: AutoversionResult<T>)
        ensures
            converted(self, r, 2, msg@),
    {
        match self {
            Ok(v) => Ok(v),
            Err(e) => Err(AutoversionError::FileOperation(with_context(msg, &e))),
        }
    }

    fn git_error(self, msg: &str) -> (r: AutoversionResult<T>)
        ensures
            converted(self, r, 3, msg@),
    {
        match self {
            Ok(v) => Ok(v),
            Err(e) => Err(AutoversionError::GitOperation(with_context(msg, &e))),
        }
    }

    fn config_error(self, msg: &str) -> (r: AutoversionResult<T>)
        ensures
            converted(self, r, 4, msg@),
    {
        match self {
            Ok(v) => Ok(v),
            Err(e) => Err(AutoversionError::Configuration(with_context(msg, &e))),
        }
    }

    fn validation_error(self, msg: &str) -> (r: AutoversionResult<T>)
        ensures
            converted(self, r, 5, msg@),
    {
        match self {
            Ok(v) => Ok(v),
            Err(e) => Err(AutoversionError::Validation(with_context(msg, &e))),
        }
    }
}

} // verus!
