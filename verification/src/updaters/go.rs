//! Version of a Go module: `go.mod` marks the project, a `VERSION` file holds the
//! version, always written with a `v` prefix.
use crate::engine::project_files::ProjectFiles;
use crate::text::{
    chars_of, has_infix, is_white, lemma_trim_unchanged, string_of, trim,
    trim_chars,
};
use crate::updaters::traits::{
    change_model, changes_model, changes_result, normalized, path_in, plan_model,
    read_file_safe, read_safe, result_text, step_model, unit_result, ChangeModel, FileReads,
    PlanModel, PlanStep, StepModel, UpdatePlan, VersionChange, VersionUpdater,
};
use crate::utils::files::{lemma_unix_keeps, normalize_line_endings};
use vstd::prelude::*;

verus! {

/// The module file of a Go project.
pub const GO_MOD: &'static str = "go.mod";

/// The file that holds a Go module's version.
pub const GO_VERSION_FILE: &'static str = "VERSION";

/// A version with a `v` in front, unless it already starts with one.
pub open spec fn with_v_prefix(v: Seq<char>) -> Seq<char> {
    if v.len() > 0 && v[0] == 'v' {
        v
    } else {
        seq!['v'] + v
    }
}

/// The message when a Go project has no readable `VERSION` file.
pub open spec fn go_no_version() -> Seq<char> {
    "No VERSION file found. Go modules use git tags for versioning. Create a VERSION file or use git tags directly."@
}

/// The version that the `VERSION` file of a Go project holds, with the `v` prefix.
pub open spec fn go_read_version(files: ProjectFiles, reads: FileReads) -> Result<Seq<char>, Seq<char>> {
    if files.spec_is_file(GO_VERSION_FILE@) {
        match read_safe(files, reads, GO_VERSION_FILE@) {
            Err(e) => Err(e),
            Ok(c) => Ok(with_v_prefix(trim(c))),
        }
    } else {
        Err("No VERSION file found in Go project"@)
    }
}

/// The current version of a Go project.
pub open spec fn go_current_version(files: ProjectFiles, reads: FileReads) -> Result<Seq<char>, Seq<char>> {
    match go_read_version(files, reads) {
        Ok(v) => Ok(v),
        Err(_) => Err(go_no_version()),
    }
}

/// The update of a Go project to `v`: the `VERSION` file, where it is a regular
/// file, is backed up and written with the prefixed version.
pub open spec fn go_update_plan(files: ProjectFiles, reads: FileReads, v: Seq<char>) -> PlanModel {
    let p = path_in(files, GO_VERSION_FILE@);
    if files.spec_is_file(GO_VERSION_FILE@) {
        (seq![StepModel::Backup(p), StepModel::Write(p, normalized(with_v_prefix(v)))], Ok(seq![p]))
    } else {
        (Seq::empty(), Ok(Seq::empty()))
    }
}

/// The changes that setting a Go project's version to `v` would make.
pub open spec fn go_preview(files: ProjectFiles, reads: FileReads, v: Seq<char>) -> Result<Seq<ChangeModel>, Seq<char>> {
    if files.spec_is_file(GO_VERSION_FILE@) {
        match read_safe(files, reads, GO_VERSION_FILE@) {
            Err(e) => Err(e),
            Ok(old) => Ok(seq![(path_in(files, GO_VERSION_FILE@), old, with_v_prefix(v), trim(old), with_v_prefix(v))]),
        }
    } else {
        Ok(Seq::empty())
    }
}

/// Adds the `v` prefix to a version unless it has one.
pub fn add_v_prefix(version: &str) -> (r: String)
    ensures
        r@ == with_v_prefix(version@),
{
    let c = chars_of(version);
    if c.len() > 0 && c[0] == 'v' {
        string_of(&c)
    } else {
        proof {
            reveal_strlit("v");
        }
        String::from_str("v").concat(version)
    }
}

/// Reads and updates the version of a Go module.
pub struct GoUpdater;

impl GoUpdater {
    pub fn new() -> (r: Self) {
        GoUpdater
    }

    /// The path of the `VERSION` file, where it is a regular file.
    pub fn find_version_file(&self, files: &ProjectFiles) -> (r: Option<String>)
        ensures
            match r {
                Some(p) => files.spec_is_file(GO_VERSION_FILE@) && p@ == path_in(*files, GO_VERSION_FILE@),
                None => !files.spec_is_file(GO_VERSION_FILE@),
            },
    {
        if files.is_file(GO_VERSION_FILE) {
            Some(files.path_of(GO_VERSION_FILE))
        } else {
            None
        }
    }

    /// The version in the `VERSION` file, trimmed and with the `v` prefix.
    pub fn read_version_file(&self, files: &ProjectFiles, reads: &FileReads) -> (r: Result<String, String>)
        ensures
            result_text(r) == go_read_version(*files, *reads),
    {
        if files.is_file(GO_VERSION_FILE) {
            let content = match read_file_safe(files, reads, GO_VERSION_FILE) {
                Ok(c) => c,
                Err(e) => return Err(e),
            };
            let t = string_of(&trim_chars(&chars_of(content.as_str())));
            Ok(add_v_prefix(t.as_str()))
        } else {
            Err(String::from_str("No VERSION file found in Go project"))
        }
    }
}

impl VersionUpdater for GoUpdater {
    fn technology_name(&self) -> (r: &'static str)
        ensures
            r@ == "go"@,
    {
        "go"
    }

    fn can_handle(&self, files: &ProjectFiles) -> (r: bool)
        ensures
            r == files.spec_exists(GO_MOD@),
    {
        files.has_entry(GO_MOD)
    }

    fn validate_project(&self, files: &ProjectFiles, reads: &FileReads) -> (r: Result<(), String>)
        ensures
            unit_result(r) == if files.spec_exists(GO_MOD@) {
                Ok(())
            } else {
                Err("go.mod not found. Not a valid Go module project."@)
            },
    {
        if files.has_entry(GO_MOD) {
            Ok(())
        } else {
            Err(String::from_str("go.mod not found. Not a valid Go module project."))
        }
    }

    fn get_primary_file(&self, files: &ProjectFiles) -> (r: Result<String, String>)
        ensures
            result_text(r) == if files.spec_exists(GO_MOD@) {
                Ok(path_in(*files, GO_MOD@))
            } else {
                Err("go.mod not found"@)
            },
    {
        if files.has_entry(GO_MOD) {
            Ok(files.path_of(GO_MOD))
        } else {
            Err(String::from_str("go.mod not found"))
        }
    }

    fn get_current_version(&self, files: &ProjectFiles, reads: &FileReads) -> (r: Result<String, String>)
        ensures
            result_text(r) == go_current_version(*files, *reads),
    {
        match self.read_version_file(files, reads) {
            Ok(v) => Ok(v),
            Err(_) => Err(String::from_str(
                "No VERSION file found. Go modules use git tags for versioning. Create a VERSION file or use git tags directly.",
            )),
        }
    }

    fn update_version(&self, files: &ProjectFiles, reads: &FileReads, new_version: &str) -> (r: UpdatePlan)
        ensures
            plan_model(r) == go_update_plan(*files, *reads, new_version@),
    {
        let mut steps: Vec<PlanStep> = Vec::new();
        let mut updated: Vec<String> = Vec::new();
        if let Some(p) = self.find_version_file(files) {
            let w = normalize_line_endings(add_v_prefix(new_version).as_str());
            steps.push(PlanStep::Backup(p.clone()));
            steps.push(PlanStep::Write(p.clone(), w));
            assert(steps@.map_values(|s: PlanStep| step_model(s)) =~= seq![StepModel::Backup(p@), StepModel::Write(p@, w@)]);
            updated.push(p);
            assert(updated@.map_values(|s: String| s@) =~= seq![p@]);
        } else {
            assert(steps@.map_values(|s: PlanStep| step_model(s)) =~= Seq::<StepModel>::empty());
            assert(updated@.map_values(|s: String| s@) =~= Seq::<Seq<char>>::empty());
        }
        UpdatePlan { steps, outcome: Ok(updated) }
    }

    fn preview_changes(&self, files: &ProjectFiles, reads: &FileReads, new_version: &str) -> (r: Result<Vec<VersionChange>, String>)
        ensures
            changes_result(r) == go_preview(*files, *reads, new_version@),
    {
        match self.find_version_file(files) {
            None => {
                let changes: Vec<VersionChange> = Vec::new();
                assert(changes_model(changes@) =~= Seq::<ChangeModel>::empty());
                Ok(changes)
            },
            Some(p) => {
                let old = match read_file_safe(files, reads, GO_VERSION_FILE) {
                    Ok(c) => c,
                    Err(e) => return Err(e),
                };
                let old_version = string_of(&trim_chars(&chars_of(old.as_str())));
                let change = VersionChange::new(p, old, add_v_prefix(new_version), old_version, add_v_prefix(new_version));
                let changes = vec![change];
                assert(changes_model(changes@) =~= seq![change_model(change)]);
                Ok(changes)
            },
        }
    }
}

/// An update writes the prefixed version to the `VERSION` file, and reading back
/// what it wrote gives that prefixed version as the current version (for a version
/// that does not end in white space and holds no `\r\n`).
pub proof fn lemma_go_update_then_read(files: ProjectFiles, reads: FileReads, after: FileReads, v: Seq<char>)
    requires
        files.spec_is_file(GO_VERSION_FILE@),
        v.len() > 0 ==> !is_white(v.last()),
        !has_infix(v, seq!['\r', '\n']),
        after.spec_read(GO_VERSION_FILE@) == Ok::<Seq<char>, Seq<char>>(normalized(with_v_prefix(v))),
    ensures
        go_update_plan(files, reads, v).0 == seq![
            StepModel::Backup(path_in(files, GO_VERSION_FILE@)),
            StepModel::Write(path_in(files, GO_VERSION_FILE@), with_v_prefix(v)),
        ],
        go_current_version(files, after) == Ok::<Seq<char>, Seq<char>>(with_v_prefix(v)),
{
    let w = with_v_prefix(v);
    assert(!has_infix(w, seq!['\r', '\n'])) by {
        if has_infix(w, seq!['\r', '\n']) && w != v {
            let i = choose|i: int| 0 <= i && i + 2 <= w.len() && #[trigger] w.subrange(i, i + 2) == seq!['\r', '\n'];
            assert(w.subrange(i, i + 2)[0] == w[i]);
            assert(w == seq!['v'] + v);
            if i == 0 {
                assert(w[0] == 'v');
            } else {
                let j = i - 1;
                assert(v.subrange(j, j + 2) =~= w.subrange(i, i + 2));
                assert(0 <= j && j + 2 <= v.len());
                assert(has_infix(v, seq!['\r', '\n']));
            }
        }
    }
    lemma_unix_keeps(w);
    lemma_trim_unchanged(w);
}

/// Prefixing is idempotent: a prefixed version keeps its prefix and gets no other.
pub proof fn lemma_v_prefix_idempotent(v: Seq<char>)
    ensures
        with_v_prefix(with_v_prefix(v)) == with_v_prefix(v),
        with_v_prefix(v).len() > 0 && with_v_prefix(v)[0] == 'v',
{
}

} // verus!
