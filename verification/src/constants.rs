//! Names and texts shared across the library.
use vstd::prelude::*;

verus! {

/// Default prefix for git tags (e.g. `v1.2.3`).
pub const DEFAULT_TAG_PREFIX: &'static str = "v";

/// What a backup file's name adds to the name of the file it saves.
pub const BACKUP_FILE_EXTENSION: &'static str = ".autoversion.backup";

/// Message before the version in the message of a release tag.
pub const DEFAULT_TAG_MESSAGE_PREFIX: &'static str = "Release version";

/// Message before the version in the message of a version commit.
pub const DEFAULT_COMMIT_MESSAGE_PREFIX: &'static str = "bump version to";

/// The generic version files, in the order they are looked for.
pub open spec fn version_files_spec() -> Seq<Seq<char>> {
    seq!["VERSION"@, "version.txt"@, ".version"@, "version"@, "VERSION.txt"@]
}

/// The generic version files, in the order they are looked for.
pub fn version_files() -> (r: Vec<String>)
    ensures
        r@.map_values(|s: String| s@) == version_files_spec(),
{
    let r = vec![
        String::from_str("VERSION"),
        String::from_str("version.txt"),
        String::from_str(".version"),
        String::from_str("version"),
        String::from_str("VERSION.txt"),
    ];
    assert(r@.map_values(|s: String| s@) =~= version_files_spec());
    r
}

} // verus!
