//! The settings of the program, read from `.autoversion.toml` where a project has
//! one.
use crate::text::{string_of, views};
use vstd::prelude::*;

verus! {

/// The name of the settings file in a project.
pub const CONFIG_FILE: &'static str = ".autoversion.toml";

/// Settings for the program.
pub struct AutoversionConfig {
    /// Technology to use (overrides detection).
    pub technology: Option<String>,
    /// Bump type when detection fails.
    pub default_bump: String,
    /// Prefix of version tags.
    pub tag_prefix: String,
    /// Whether to create git tags.
    pub create_tag: bool,
    /// Files to include in the version commit.
    pub commit_files: Vec<String>,
    /// Commit message template.
    pub commit_message: Option<String>,
    /// Branches where versioning is allowed.
    pub allowed_branches: Vec<String>,
}

impl Default for AutoversionConfig {
    /// No technology, `patch`, the prefix `v`, tags created, no commit files, no
    /// commit message, and the branches `main` and `master`.
    fn default() -> (r: Self)
        ensures
            r.technology is None,
            r.default_bump@ == seq!['p', 'a', 't', 'c', 'h'],
            r.tag_prefix@ == seq!['v'],
            r.create_tag,
            r.commit_files@.len() == 0,
            r.commit_message is None,
            views(r.allowed_branches@) == seq![seq!['m', 'a', 'i', 'n'], seq!['m', 'a', 's', 't', 'e', 'r']],
    {
        let branches = vec![string_of(&vec!['m', 'a', 'i', 'n']), string_of(&vec!['m', 'a', 's', 't', 'e', 'r'])];
        assert(views(branches@) =~= seq![seq!['m', 'a', 'i', 'n'], seq!['m', 'a', 's', 't', 'e', 'r']]);
        AutoversionConfig {
            technology: None,
            default_bump: string_of(&vec!['p', 'a', 't', 'c', 'h']),
            tag_prefix: string_of(&vec!['v']),
            create_tag: true,
            commit_files: Vec::new(),
            commit_message: None,
            allowed_branches: branches,
        }
    }
}

} // verus!
