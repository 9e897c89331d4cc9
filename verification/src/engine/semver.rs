//! Semantic version bumping.
use crate::git::history::CommitAnalyzer;
use crate::semver_api::{
    semver_gt, semver_new, semver_parse, semver_greater, semver_parse_result, semver_to_string, VersionParts,
};
use crate::text::{
    append_chars, ascii_lower, chars_of, chars_of_string, decimal, decimal_chars,
    eq_ignore_ascii_case, has_prefix, strip_all_leading, strip_leading_char, string_of, trim,
    trim_chars,
};
use vstd::prelude::*;

verus! {

/// Version bump types.
#[derive(Debug, Clone, Copy, PartialEq, Eq, Structural)]
pub enum BumpType {
    Major,
    Minor,
    Patch,
}

/// `major`.
pub open spec fn major_word() -> Seq<char> {
    seq!['m', 'a', 'j', 'o', 'r']
}

/// `minor`.
pub open spec fn minor_word() -> Seq<char> {
    seq!['m', 'i', 'n', 'o', 'r']
}

/// `patch`.
pub open spec fn patch_word() -> Seq<char> {
    seq!['p', 'a', 't', 'c', 'h']
}

/// The bump type that a name stands for, compared without ASCII case.
pub open spec fn bump_type_from_name(s: Seq<char>) -> Option<BumpType> {
    let l = ascii_lower(s);
    if l == major_word() {
        Some(BumpType::Major)
    } else if l == minor_word() {
        Some(BumpType::Minor)
    } else if l == patch_word() {
        Some(BumpType::Patch)
    } else {
        None
    }
}

/// The message for a name that is no bump type.
pub open spec fn invalid_bump_type_message(s: Seq<char>) -> Seq<char> {
    "Invalid bump type: "@ + s + ". Valid options: major, minor, patch"@
}

impl BumpType {
    /// The lower-case name of the bump type.
    pub open spec fn spec_name(self) -> Seq<char> {
        match self {
            BumpType::Major => major_word(),
            BumpType::Minor => minor_word(),
            BumpType::Patch => patch_word(),
        }
    }

    /// The lower-case name (`major`, `minor`, `patch`), as `Display` writes it.
    pub fn name(&self) -> (r: String)
        ensures
            r@ == self.spec_name(),
    {
        let v = match self {
            BumpType::Major => vec!['m', 'a', 'j', 'o', 'r'],
            BumpType::Minor => vec!['m', 'i', 'n', 'o', 'r'],
            BumpType::Patch => vec!['p', 'a', 't', 'c', 'h'],
        };
        string_of(&v)
    }

    /// Parses a bump type name regardless of case, as `FromStr` does.
    pub fn parse_name(s: &str) -> (r: Result<BumpType, String>)
        ensures
            match bump_type_from_name(s@) {
                Some(t) => r == Ok::<BumpType, String>(t),
                None => r is Err && r->Err_0@ == invalid_bump_type_message(s@),
            },
    {
        let c = chars_of(s);
        if eq_ignore_ascii_case(&c, &vec!['m', 'a', 'j', 'o', 'r']) {
            Ok(BumpType::Major)
        } else if eq_ignore_ascii_case(&c, &vec!['m', 'i', 'n', 'o', 'r']) {
            Ok(BumpType::Minor)
        } else if eq_ignore_ascii_case(&c, &vec!['p', 'a', 't', 'c', 'h']) {
            Ok(BumpType::Patch)
        } else {
            let m = String::from_str("Invalid bump type: ").concat(s).concat(
                ". Valid options: major, minor, patch",
            );
            Err(m)
        }
    }
}

impl std::str::FromStr for BumpType {
    type Err = String;

    fn from_str(s: &str) -> (r: Result<BumpType, String>)
        ensures
            match bump_type_from_name(s@) {
                Some(t) => r == Ok::<BumpType, String>(t),
                None => r is Err && r->Err_0@ == invalid_bump_type_message(s@),
            },
    {
        BumpType::parse_name(s)
    }
}

/// A semantic version: three numbers and the texts of the pre-release and build
/// parts. Its fields are only set by the bindings to the `semver` crate, which keep
/// them in agreement with the `semver::Version` it also holds.
pub struct SemVersion {
    pub(crate) major: u64,
    pub(crate) minor: u64,
    pub(crate) patch: u64,
    pub(crate) pre: String,
    pub(crate) build: String,
    pub(crate) raw: ::semver::Version,
}

impl View for SemVersion {
    type V = VersionParts;

    closed spec fn view(&self) -> VersionParts {
        (self.major, self.minor, self.patch, self.pre@, self.build@)
    }
}

impl SemVersion {
    /// The major number.
    pub fn major(&self) -> (r: u64)
        ensures
            r == self@.0,
    {
        self.major
    }

    /// The minor number.
    pub fn minor(&self) -> (r: u64)
        ensures
            r == self@.1,
    {
        self.minor
    }

    /// The patch number.
    pub fn patch(&self) -> (r: u64)
        ensures
            r == self@.2,
    {
        self.patch
    }

    /// The text of the pre-release part (empty when there is none).
    pub fn pre(&self) -> (r: String)
        ensures
            r@ == self@.3,
    {
        self.pre.clone()
    }

    /// The text of the build metadata (empty when there is none).
    pub fn build(&self) -> (r: String)
        ensures
            r@ == self@.4,
    {
        self.build.clone()
    }

    /// The version as `semver::Version`'s `Display` writes it:
    /// `MAJOR.MINOR.PATCH`, then `-PRE` and `+BUILD` where they are not empty;
    /// parsing the text gives the version back.
    pub fn to_text(&self) -> (r: String)
        ensures
            r@ == version_text(self@),
            semver_parse_result(r@) == Some(self@),
    {
        semver_to_string(self)
    }
}

/// The text of a version: `MAJOR.MINOR.PATCH[-PRE][+BUILD]`.
pub open spec fn version_text(v: VersionParts) -> Seq<char> {
    let base = decimal(v.0 as nat) + seq!['.'] + decimal(v.1 as nat) + seq!['.'] + decimal(
        v.2 as nat,
    );
    let with_pre = if v.3.len() > 0 {
        base + seq!['-'] + v.3
    } else {
        base
    };
    if v.4.len() > 0 {
        with_pre + seq!['+'] + v.4
    } else {
        with_pre
    }
}

/// The text handed to the version parser: leading `v`s, then leading `=`s, then
/// surrounding white space removed.
pub open spec fn clean_version_text(s: Seq<char>) -> Seq<char> {
    trim(strip_all_leading(strip_all_leading(s, 'v'), '='))
}

/// The result of a bump: the component named by the bump type grows by one, the
/// lower components become zero, pre-release and build metadata are cleared.
pub open spec fn bumped(v: VersionParts, t: BumpType) -> VersionParts {
    match t {
        BumpType::Major => ((v.0 + 1) as u64, 0u64, 0u64, Seq::empty(), Seq::empty()),
        BumpType::Minor => (v.0, (v.1 + 1) as u64, 0u64, Seq::empty(), Seq::empty()),
        BumpType::Patch => (v.0, v.1, (v.2 + 1) as u64, Seq::empty(), Seq::empty()),
    }
}

/// Whether the component that a bump increments is below `u64::MAX`.
pub open spec fn bump_fits(v: VersionParts, t: BumpType) -> bool {
    match t {
        BumpType::Major => v.0 < u64::MAX,
        BumpType::Minor => v.1 < u64::MAX,
        BumpType::Patch => v.2 < u64::MAX,
    }
}

/// The message for a version text that does not parse.
pub open spec fn invalid_version_prefix(s: Seq<char>) -> Seq<char> {
    "Invalid version format '"@ + s + "': "@
}

/// The message for a bump that would take a component past `u64::MAX`.
pub open spec fn overflow_message(s: Seq<char>) -> Seq<char> {
    "Version component overflow in '"@ + s + "'"@
}

/// Whether a new version text parses and is greater, in semantic version
/// precedence, than the version that the text `current` parses to.
pub open spec fn raises(new_text: Seq<char>, current: Seq<char>) -> bool {
    &&& semver_parse_result(new_text) is Some
    &&& semver_parse_result(clean_version_text(current)) is Some
    &&& semver_greater(
        semver_parse_result(new_text)->Some_0,
        semver_parse_result(clean_version_text(current))->Some_0,
    )
}

/// What a manual bump yields: the new version text and the bump type name, or
/// which step failed.
pub open spec fn manual_bump_outcome(current: Seq<char>, bump: Seq<char>) -> Option<(Seq<char>, Seq<char>)> {
    match semver_parse_result(clean_version_text(current)) {
        None => None,
        Some(v) => match bump_type_from_name(bump) {
            None => None,
            Some(t) => if bump_fits(v, t) {
                Some((version_text(bumped(v, t)), t.spec_name()))
            } else {
                None
            },
        },
    }
}

/// Core version bumping logic.
pub struct VersionBumper {
    commit_analyzer: CommitAnalyzer,
}

impl VersionBumper {
    /// A bumper with the conventional-commit analyzer.
    pub fn new() -> (r: Self) {
        VersionBumper { commit_analyzer: CommitAnalyzer::new() }
    }

    /// Parses a version text after removing leading `v`s and `=`s and surrounding
    /// white space.
    pub fn parse_version(&self, version_str: &str) -> (r: Result<SemVersion, String>)
        ensures
            match semver_parse_result(clean_version_text(version_str@)) {
                Some(v) => r is Ok && r->Ok_0@ == v,
                None => r is Err && has_prefix(r->Err_0@, invalid_version_prefix(version_str@)),
            },
    {
        let s = chars_of(version_str);
        let a = strip_leading_char(&s, 'v');
        let b = strip_leading_char(&a, '=');
        let c = trim_chars(&b);
        let clean = string_of(&c);
        match semver_parse(clean.as_str()) {
            Ok(v) => Ok(v),
            Err(e) => {
                let head = String::from_str("Invalid version format '").concat(version_str).concat(
                    "': ",
                );
                let m = head.concat(e.as_str());
                assert(m@.subrange(0, head@.len() as int) =~= head@);
                Err(m)
            },
        }
    }

    /// Checks that a version text parses.
    pub fn validate_version(&self, version_str: &str) -> (r: Result<(), String>)
        ensures
            r is Ok <==> semver_parse_result(clean_version_text(version_str@)) is Some,
    {
        match self.parse_version(version_str) {
            Ok(_) => Ok(()),
            Err(e) => Err(e),
        }
    }

    /// Applies a bump type to a version.
    pub fn apply_bump(&self, version: &SemVersion, bump_type: BumpType) -> (r: SemVersion)
        requires
            bump_fits(version@, bump_type),
        ensures
            r@ == bumped(version@, bump_type),
    {
        match bump_type {
            BumpType::Major => semver_new(version.major + 1, 0, 0),
            BumpType::Minor => semver_new(version.major, version.minor + 1, 0),
            BumpType::Patch => semver_new(version.major, version.minor, version.patch + 1),
        }
    }

    /// Applies a bump type where it fits, with the message for the overflow otherwise.
    fn bump_checked(&self, current: &str, version: &SemVersion, bump_type: BumpType) -> (r: Result<(String, String), String>)
        ensures
            bump_fits(version@, bump_type) ==> r is Ok && r->Ok_0.0@ == version_text(bumped(version@, bump_type))
                && r->Ok_0.1@ == bump_type.spec_name(),
            !bump_fits(version@, bump_type) ==> r is Err && r->Err_0@ == overflow_message(current@),
            r is Ok ==> semver_parse_result(r->Ok_0.0@) == Some(bumped(version@, bump_type)),
    {
        let fits = match bump_type {
            BumpType::Major => version.major < u64::MAX,
            BumpType::Minor => version.minor < u64::MAX,
            BumpType::Patch => version.patch < u64::MAX,
        };
        if fits {
            let v = self.apply_bump(version, bump_type);
            Ok((v.to_text(), bump_type.name()))
        } else {
            Err(String::from_str("Version component overflow in '").concat(current).concat("'"))
        }
    }

    /// Bumps a version by the named bump type, returning the new version text and
    /// the bump type name. A bump that would take a component past `u64::MAX` is
    /// refused with an error.
    pub fn manual_bump(&self, current_version: &str, bump_type_str: &str) -> (r: Result<(String, String), String>)
        ensures
            match manual_bump_outcome(current_version@, bump_type_str@) {
                Some((v, t)) => r is Ok && r->Ok_0.0@ == v && r->Ok_0.1@ == t,
                None => r is Err,
            },
            semver_parse_result(clean_version_text(current_version@)) is None ==> r is Err
                && has_prefix(r->Err_0@, invalid_version_prefix(current_version@)),
            semver_parse_result(clean_version_text(current_version@)) is Some && bump_type_from_name(
                bump_type_str@,
            ) is None ==> r is Err && r->Err_0@ == invalid_bump_type_message(bump_type_str@),
            semver_parse_result(clean_version_text(current_version@)) is Some && bump_type_from_name(bump_type_str@) is Some
                && !bump_fits(semver_parse_result(clean_version_text(current_version@))->Some_0, bump_type_from_name(bump_type_str@)->Some_0)
                ==> r is Err && r->Err_0@ == overflow_message(current_version@),
            r is Ok ==> raises(r->Ok_0.0@, current_version@),
    {
        let version = self.parse_version(current_version)?;
        let bump_type = BumpType::parse_name(bump_type_str)?;
        proof {
            if bump_fits(version@, bump_type) {
                lemma_bump_increases(version@, bump_type);
            }
        }
        self.bump_checked(current_version, &version, bump_type)
    }

    /// Bumps a version by the type that the commit messages since the last release
    /// call for (see [`CommitAnalyzer::bump_for_messages`]).
    pub fn auto_bump(&self, current_version: &str, commit_messages: &Vec<String>) -> (r: Result<(String, String), String>)
        ensures
            match semver_parse_result(clean_version_text(current_version@)) {
                None => r is Err && has_prefix(r->Err_0@, invalid_version_prefix(current_version@)),
                Some(v) => {
                    let t = crate::git::history::bump_for(crate::text::views(commit_messages@));
                    if bump_fits(v, t) {
                        r is Ok && r->Ok_0.0@ == version_text(bumped(v, t)) && r->Ok_0.1@ == t.spec_name()
                    } else {
                        r is Err && r->Err_0@ == overflow_message(current_version@)
                    }
                },
            },
            r is Ok ==> raises(r->Ok_0.0@, current_version@),
    {
        let version = self.parse_version(current_version)?;
        let bump_type = self.commit_analyzer.bump_for_messages(commit_messages);
        proof {
            if bump_fits(version@, bump_type) {
                lemma_bump_increases(version@, bump_type);
            }
        }
        self.bump_checked(current_version, &version, bump_type)
    }

    /// Whether version `a` is greater than version `b` in semantic version precedence
    /// (of equal numbers, a release is greater than a pre-release).
    pub fn is_greater(&self, version_a: &str, version_b: &str) -> (r: Result<bool, String>)
        ensures
            match (semver_parse_result(clean_version_text(version_a@)), semver_parse_result(clean_version_text(version_b@))) {
                (Some(a), Some(b)) => r == Ok::<bool, String>(semver_greater(a, b)),
                _ => r is Err,
            },
            match (semver_parse_result(clean_version_text(version_a@)), semver_parse_result(clean_version_text(version_b@))) {
                (Some(a), Some(b)) => a.0 == b.0 && a.1 == b.1 && a.2 == b.2 && a.3.len() != b.3.len()
                    && (a.3.len() == 0 || b.3.len() == 0) ==> r == Ok::<bool, String>(a.3.len() == 0),
                _ => true,
            },
    {
        let a = self.parse_version(version_a)?;
        let b = self.parse_version(version_b)?;
        Ok(semver_gt(&a, &b))
    }

    /// The version text that a manual bump would give.
    pub fn preview_bump(&self, current_version: &str, bump_type_str: &str) -> (r: Result<String, String>)
        ensures
            match manual_bump_outcome(current_version@, bump_type_str@) {
                Some((v, _)) => r is Ok && r->Ok_0@ == v,
                None => r is Err,
            },
            semver_parse_result(clean_version_text(current_version@)) is None ==> r is Err
                && has_prefix(r->Err_0@, invalid_version_prefix(current_version@)),
            semver_parse_result(clean_version_text(current_version@)) is Some && bump_type_from_name(bump_type_str@) is None
                ==> r is Err && r->Err_0@ == invalid_bump_type_message(bump_type_str@),
            semver_parse_result(clean_version_text(current_version@)) is Some && bump_type_from_name(bump_type_str@) is Some
                && !bump_fits(semver_parse_result(clean_version_text(current_version@))->Some_0, bump_type_from_name(bump_type_str@)->Some_0)
                ==> r is Err && r->Err_0@ == overflow_message(current_version@),
            r is Ok ==> raises(r->Ok_0@, current_version@),
    {
        let (v, _) = self.manual_bump(current_version, bump_type_str)?;
        Ok(v)
    }
}

/// Each bump strictly raises a version's precedence: the bumped version is greater
/// than the one it came from (a number grows, so the pre-release and build parts
/// never decide).
pub proof fn lemma_bump_increases(v: VersionParts, t: BumpType)
    requires
        bump_fits(v, t),
    ensures
        semver_greater(bumped(v, t), v),
{
}

/// Bumping is what a preview shows: where a manual bump succeeds, the preview gives
/// the same text, and the new version is greater than the parsed current one.
pub proof fn lemma_preview_agrees_with_bump(current: Seq<char>, bump: Seq<char>)
    requires
        manual_bump_outcome(current, bump) is Some,
    ensures
        ({
            let v = semver_parse_result(clean_version_text(current))->Some_0;
            let t = bump_type_from_name(bump)->Some_0;
            &&& manual_bump_outcome(current, bump)->Some_0.0 == version_text(bumped(v, t))
            &&& semver_greater(bumped(v, t), v)
        }),
{
}

} // verus!
