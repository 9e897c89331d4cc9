//! The decisions of a version bump run: which technology, which new version, and
//! what is reported at the end.
use crate::engine::detector::{detected, nothing_detected_message, TechnologyDetector};
use crate::engine::project_files::ProjectFiles;
use crate::engine::semver::{
    bump_fits, bumped, clean_version_text, invalid_version_prefix, manual_bump_outcome,
    overflow_message, raises, version_text, VersionBumper,
};
use crate::git::history::bump_for;
use crate::semver_api::semver_parse_result;
use crate::cli::args::Args;
use crate::git::operations::release_tag_name;
use crate::text::{chars_eq, chars_of, has_prefix, opt_text, string_of, views};
use vstd::prelude::*;

verus! {

/// The technology to use: the detected one for `auto`, else the one named.
pub fn detect_technology(technology_arg: &str, files: &ProjectFiles) -> (r: Result<String, String>)
    ensures
        technology_arg@ == "auto"@ ==> match detected(*files) {
            None => r is Err && r->Err_0@ == nothing_detected_message(files.root@),
            Some(t) => r is Ok && r->Ok_0@ == t.spec_name(),
        },
        technology_arg@ != "auto"@ ==> r is Ok && r->Ok_0@ == technology_arg@,
{
    if chars_eq(&chars_of(technology_arg), &chars_of("auto")) {
        let detector = TechnologyDetector::new();
        detector.detect(files)
    } else {
        Ok(string_of(&chars_of(technology_arg)))
    }
}

/// The new version and the bump type used: for `auto`, the bump that the commit
/// messages since the last release call for; else the named bump.
pub fn calculate_new_version(current_version: &str, bump_type: &str, commit_messages: &Vec<String>) -> (r: Result<(String, String), String>)
    ensures
        bump_type@ != "auto"@ ==> match manual_bump_outcome(current_version@, bump_type@) {
            Some((v, t)) => r is Ok && r->Ok_0.0@ == v && r->Ok_0.1@ == t,
            None => r is Err,
        },
        bump_type@ == "auto"@ ==> match semver_parse_result(clean_version_text(current_version@)) {
            None => r is Err && has_prefix(r->Err_0@, invalid_version_prefix(current_version@)),
            Some(v) => {
                let t = bump_for(views(commit_messages@));
                if bump_fits(v, t) {
                    r is Ok && r->Ok_0.0@ == version_text(bumped(v, t)) && r->Ok_0.1@ == t.spec_name()
                } else {
                    r is Err && r->Err_0@ == overflow_message(current_version@)
                }
            },
        },
        r is Ok ==> raises(r->Ok_0.0@, current_version@),
{
    let bumper = VersionBumper::new();
    if chars_eq(&chars_of(bump_type), &chars_of("auto")) {
        bumper.auto_bump(current_version, commit_messages)
    } else {
        bumper.manual_bump(current_version, bump_type)
    }
}

/// The closing lines of a run.
pub fn result_lines(current_version: &str, new_version: &str, dry_run: bool) -> (r: Vec<String>)
    ensures
        views(r@) == seq!["✅ Version updated from "@ + current_version@ + " to "@ + new_version@]
            + if dry_run { seq!["🔍 Dry run mode - no changes made"@] } else { Seq::empty() },
{
    let mut r: Vec<String> = Vec::new();
    r.push(String::from_str("✅ Version updated from ").concat(current_version).concat(" to ").concat(new_version));
    if dry_run {
        r.push(String::from_str("🔍 Dry run mode - no changes made"));
    }
    assert(views(r@) =~= seq!["✅ Version updated from "@ + current_version@ + " to "@ + new_version@]
        + if dry_run { seq!["🔍 Dry run mode - no changes made"@] } else { Seq::empty() });
    r
}

/// What a run does once the new version is known.
pub struct ReleaseActions {
    /// Whether the update of the project's files is carried out.
    pub write_files: bool,
    /// The commit to make, with its message where one was given; `None` for none.
    pub commit: Option<Option<String>>,
    /// The name of the tag to create; `None` for none.
    pub tag: Option<String>,
}

/// Decides what a run does with the new version: in a dry run nothing (no file is
/// written, no commit made, no tag created); otherwise it writes the files, then
/// commits where asked (with the message given, if any), then creates the tag
/// `prefix + version` where asked.
pub fn release_actions(args: &Args, new_version: &str) -> (r: ReleaseActions)
    ensures
        r.write_files == !args.dry_run,
        args.dry_run ==> r.commit is None && r.tag is None,
        !args.dry_run ==> match r.commit {
            Some(m) => args.commit && opt_text(m) == opt_text(args.commit_message),
            None => !args.commit,
        },
        !args.dry_run ==> match r.tag {
            Some(t) => args.create_tag && t@ == args.tag_prefix@ + new_version@,
            None => !args.create_tag,
        },
{
    if args.dry_run {
        return ReleaseActions { write_files: false, commit: None, tag: None };
    }
    let commit = if args.commit {
        Some(match &args.commit_message {
            Some(m) => Some(m.clone()),
            None => None,
        })
    } else {
        None
    };
    let tag = if args.create_tag {
        Some(release_tag_name(args.tag_prefix.as_str(), new_version))
    } else {
        None
    };
    ReleaseActions { write_files: true, commit, tag }
}

} // verus!
