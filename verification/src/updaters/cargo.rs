//! Version of a Rust package, in the `[package]` table of `Cargo.toml`.
use crate::engine::project_files::ProjectFiles;
use crate::toml_api::{toml_entry, toml_get_entry, toml_set_in_table, toml_table_set};
use crate::updaters::traits::{
    change_model, changes_model, changes_result, lemma_normalized_without_cr, normalized, step_model, path_in, plan_model, read_file_safe, read_safe, result_text,
    unit_result, ChangeModel, FileReads, PlanModel, PlanStep, StepModel, UpdatePlan,
    VersionChange, VersionUpdater,
};
use crate::utils::files::normalize_line_endings;
use vstd::prelude::*;

verus! {

/// The manifest of a Rust package.
pub const CARGO_TOML: &'static str = "Cargo.toml";

/// The version that a `Cargo.toml` content declares in `[package]`.
pub open spec fn cargo_version_of(content: Seq<char>) -> Result<Seq<char>, Seq<char>> {
    match toml_entry(content, "package"@, "version"@) {
        Err(e) => Err("Failed to parse Cargo.toml: "@ + e),
        Ok(Some(Some(v))) => Ok(v),
        Ok(_) => Err("No version field found in Cargo.toml"@),
    }
}

/// A `Cargo.toml` content with the package version set to `v`, printed anew.
pub open spec fn cargo_updated_content(content: Seq<char>, v: Seq<char>) -> Result<Seq<char>, Seq<char>> {
    match toml_table_set(content, "package"@, "version"@, v) {
        Err(e) => Err("Failed to parse Cargo.toml: "@ + e),
        Ok((false, _, _)) => Err("Cargo.toml does not contain [package] table with version"@),
        Ok((true, _, Err(e))) => Err(e),
        Ok((true, _, Ok(s))) => Ok(s + "\n"@),
    }
}

/// Whether setting the package version to `v` in a `Cargo.toml` content sets the
/// entry: its `[package]` is a table.
pub open spec fn cargo_sets_version(content: Seq<char>, v: Seq<char>) -> bool {
    toml_table_set(content, "package"@, "version"@, v) matches Ok((_, true, _))
}

/// The current version of a Rust project.
pub open spec fn cargo_current_version(files: ProjectFiles, reads: FileReads) -> Result<Seq<char>, Seq<char>> {
    match read_safe(files, reads, CARGO_TOML@) {
        Err(e) => Err(e),
        Ok(c) => cargo_version_of(c),
    }
}

/// The update of a Rust project to `v`: back up `Cargo.toml`, read it, write it
/// with the new version.
pub open spec fn cargo_update_plan(files: ProjectFiles, reads: FileReads, v: Seq<char>) -> PlanModel {
    let p = path_in(files, CARGO_TOML@);
    let backup = seq![StepModel::Backup(p)];
    match read_safe(files, reads, CARGO_TOML@) {
        Err(e) => (backup, Err(e)),
        Ok(c) => match cargo_updated_content(c, v) {
            Err(e) => (backup, Err(e)),
            Ok(u) => (backup.push(StepModel::Write(p, normalized(u))), Ok(seq![p])),
        },
    }
}

/// The changes that setting a Rust project's version to `v` would make.
pub open spec fn cargo_preview(files: ProjectFiles, reads: FileReads, v: Seq<char>) -> Result<Seq<ChangeModel>, Seq<char>> {
    let p = path_in(files, CARGO_TOML@);
    if files.spec_exists(CARGO_TOML@) {
        match read_safe(files, reads, CARGO_TOML@) {
            Err(e) => Err(e),
            Ok(old) => match cargo_updated_content(old, v) {
                Err(e) => Err(e),
                Ok(new) => match cargo_current_version(files, reads) {
                    Err(e) => Err(e),
                    Ok(ov) => Ok(seq![(p, old, new, ov, v)]),
                },
            },
        }
    } else {
        Ok(Seq::empty())
    }
}

/// Reads and updates the version in `Cargo.toml`.
pub struct CargoUpdater;

impl CargoUpdater {
    pub fn new() -> (r: Self) {
        CargoUpdater
    }

    /// The content with the package version set to `new_version`. Where the
    /// `[package]` table took the entry, the version that the new content declares
    /// is `new_version`; every other entry of a table reads as before.
    pub fn update_cargo_toml_content(&self, content: &str, new_version: &str) -> (r: Result<String, String>)
        ensures
            result_text(r) == cargo_updated_content(content@, new_version@),
            r is Ok ==> !r->Ok_0@.contains('\r'),
            r is Ok && cargo_sets_version(content@, new_version@) ==> cargo_version_of(r->Ok_0@) == Ok::<Seq<char>, Seq<char>>(new_version@),
            r is Ok ==> forall|t: Seq<char>, k: Seq<char>| (t, k) != ("package"@, "version"@)
                ==> #[trigger] toml_entry(r->Ok_0@, t, k) == toml_entry(content@, t, k),
    {
        match toml_set_in_table(content, "package", "version", new_version) {
            Err(e) => Err(String::from_str("Failed to parse Cargo.toml: ").concat(e.as_str())),
            Ok((false, _, _)) => Err(String::from_str("Cargo.toml does not contain [package] table with version")),
            Ok((true, _, Err(e))) => Err(e),
            Ok((true, _, Ok(s))) => {
                let u = s.concat("\n");
                proof {
                    reveal_strlit("\n");
                    assert(u@ =~= s@.push('\n'));
                    assert(!u@.contains('\r')) by {
                        if u@.contains('\r') {
                            let i = choose|i: int| 0 <= i < u@.len() && u@[i] == '\r';
                            assert(i < s@.len());
                            assert(s@[i] == '\r');
                        }
                    }
                }
                Ok(u)
            },
        }
    }

    /// The version that a `Cargo.toml` content declares.
    pub fn version_of_content(&self, content: &str) -> (r: Result<String, String>)
        ensures
            result_text(r) == cargo_version_of(content@),
    {
        match toml_get_entry(content, "package", "version") {
            Err(e) => Err(String::from_str("Failed to parse Cargo.toml: ").concat(e.as_str())),
            Ok(Some(Some(v))) => Ok(v),
            Ok(_) => Err(String::from_str("No version field found in Cargo.toml")),
        }
    }
}

impl VersionUpdater for CargoUpdater {
    fn technology_name(&self) -> (r: &'static str)
        ensures
            r@ == "cargo"@,
    {
        "cargo"
    }

    fn can_handle(&self, files: &ProjectFiles) -> (r: bool)
        ensures
            r == files.spec_exists(CARGO_TOML@),
    {
        files.has_entry(CARGO_TOML)
    }

    fn validate_project(&self, files: &ProjectFiles, reads: &FileReads) -> (r: Result<(), String>)
        ensures
            unit_result(r) == if files.spec_exists(CARGO_TOML@) { Ok(()) } else { Err("Cargo.toml not found"@) },
    {
        if files.has_entry(CARGO_TOML) {
            Ok(())
        } else {
            Err(String::from_str("Cargo.toml not found"))
        }
    }

    fn get_primary_file(&self, files: &ProjectFiles) -> (r: Result<String, String>)
        ensures
            result_text(r) == if files.spec_exists(CARGO_TOML@) {
                Ok(path_in(*files, CARGO_TOML@))
            } else {
                Err("Cargo.toml not found"@)
            },
    {
        if files.has_entry(CARGO_TOML) {
            Ok(files.path_of(CARGO_TOML))
        } else {
            Err(String::from_str("Cargo.toml not found"))
        }
    }

    fn get_current_version(&self, files: &ProjectFiles, reads: &FileReads) -> (r: Result<String, String>)
        ensures
            result_text(r) == cargo_current_version(*files, *reads),
    {
        let content = read_file_safe(files, reads, CARGO_TOML)?;
        self.version_of_content(content.as_str())
    }

    /// Where `[package]` is a table, reading back what the update wrote gives the
    /// new version.
    fn update_version(&self, files: &ProjectFiles, reads: &FileReads, new_version: &str) -> (r: UpdatePlan)
        ensures
            plan_model(r) == cargo_update_plan(*files, *reads, new_version@),
            read_safe(*files, *reads, CARGO_TOML@) matches Ok(c) && cargo_sets_version(c, new_version@) && plan_model(r).1 is Ok
                ==> cargo_version_of(plan_model(r).0.last()->Write_1) == Ok::<Seq<char>, Seq<char>>(new_version@),
    {
        let p = files.path_of(CARGO_TOML);
        let mut steps: Vec<PlanStep> = Vec::new();
        steps.push(PlanStep::Backup(p.clone()));
        let ghost backup = seq![StepModel::Backup(p@)];
        assert(steps@.map_values(|s: PlanStep| step_model(s)) =~= backup);
        let outcome = match read_file_safe(files, reads, CARGO_TOML) {
            Err(e) => Err(e),
            Ok(c) => match self.update_cargo_toml_content(c.as_str(), new_version) {
                Err(e) => Err(e),
                Ok(u) => {
                    let w = normalize_line_endings(u.as_str());
                    proof {
                        lemma_normalized_without_cr(u@);
                    }
                    steps.push(PlanStep::Write(p.clone(), w));
                    assert(steps@.map_values(|s: PlanStep| step_model(s)) =~= backup.push(StepModel::Write(p@, w@)));
                    let files_updated = vec![p];
                    assert(files_updated@.map_values(|s: String| s@) =~= seq![p@]);
                    Ok(files_updated)
                },
            },
        };
        UpdatePlan { steps, outcome }
    }

    fn preview_changes(&self, files: &ProjectFiles, reads: &FileReads, new_version: &str) -> (r: Result<Vec<VersionChange>, String>)
        ensures
            changes_result(r) == cargo_preview(*files, *reads, new_version@),
    {
        if !files.has_entry(CARGO_TOML) {
            let changes: Vec<VersionChange> = Vec::new();
            assert(changes_model(changes@) =~= Seq::<ChangeModel>::empty());
            return Ok(changes);
        }
        let old_content = match read_file_safe(files, reads, CARGO_TOML) {
            Ok(c) => c,
            Err(e) => return Err(e),
        };
        let new_content = match self.update_cargo_toml_content(old_content.as_str(), new_version) {
            Ok(c) => c,
            Err(e) => return Err(e),
        };
        let old_version = match self.get_current_version(files, reads) {
            Ok(v) => v,
            Err(e) => return Err(e),
        };
        let change = VersionChange::new(files.path_of(CARGO_TOML), old_content, new_content, old_version, String::from_str(new_version));
        let changes = vec![change];
        assert(changes_model(changes@) =~= seq![change_model(change)]);
        Ok(changes)
    }
}

} // verus!
