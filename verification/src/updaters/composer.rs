//! Version of a PHP package, in `composer.json` and its lock file.
use crate::engine::project_files::ProjectFiles;
use crate::json_api::{
    json_get_string_member, json_has_member, json_member_present, json_member_set, json_reprint, json_reprinted,
    json_set_member, json_string_member,
};
use crate::updaters::traits::{
    change_model, changes_model, changes_result, lemma_normalized_without_cr, normalized, path_in, plan_model,
    read_file_safe, read_safe, result_text, step_model, unit_result, ChangeModel, FileReads,
    PlanModel, PlanStep, StepModel, UpdatePlan, VersionChange, VersionUpdater,
};
use crate::utils::files::normalize_line_endings;
use vstd::prelude::*;

verus! {

/// The manifest of a Composer package.
pub const COMPOSER_JSON: &'static str = "composer.json";

/// The lock file of Composer.
pub const COMPOSER_LOCK: &'static str = "composer.lock";

/// The version that a `composer.json` content declares.
pub open spec fn composer_version_of(content: Seq<char>) -> Result<Seq<char>, Seq<char>> {
    match json_string_member(content, "version"@) {
        Err(e) => Err("Failed to parse composer.json: "@ + e),
        Ok(Some(v)) => Ok(v),
        Ok(None) => Err("No version field found in composer.json"@),
    }
}

/// A `composer.json` content with its version set to `v`, printed anew.
pub open spec fn composer_updated_content(content: Seq<char>, v: Seq<char>) -> Result<Seq<char>, Seq<char>> {
    match json_member_set(content, "version"@, v) {
        Err(e) => Err("Failed to parse composer.json: "@ + e),
        Ok((false, _)) => Err("composer.json root is not an object"@),
        Ok((true, s)) => Ok(s),
    }
}

/// A JSON content printed anew, with the root's `version` set to `v` where the root
/// is an object that already has one.
pub open spec fn lock_version_replaced(content: Seq<char>, v: Seq<char>) -> Result<Seq<char>, Seq<char>> {
    match json_member_present(content, "version"@) {
        Err(e) => Err(e),
        Ok(true) => match json_member_set(content, "version"@, v) {
            Err(e) => Err(e),
            Ok((_, s)) => Ok(s),
        },
        Ok(false) => json_reprinted(content),
    }
}

/// A `composer.lock` content with its version, where it has one, set to `v`.
pub open spec fn composer_lock_updated(content: Seq<char>, v: Seq<char>) -> Result<Seq<char>, Seq<char>> {
    match lock_version_replaced(content, v) {
        Err(e) => Err("Failed to parse composer.lock: "@ + e),
        Ok(s) => Ok(s),
    }
}

/// The current version of a Composer project.
pub open spec fn composer_current_version(files: ProjectFiles, reads: FileReads) -> Result<Seq<char>, Seq<char>> {
    match read_safe(files, reads, COMPOSER_JSON@) {
        Err(e) => Err(e),
        Ok(c) => composer_version_of(c),
    }
}

/// The update of a Composer project to `v`: `composer.json` is read, backed up and
/// written; then the lock file, where it exists.
pub open spec fn composer_update_plan(files: ProjectFiles, reads: FileReads, v: Seq<char>) -> PlanModel {
    let j = path_in(files, COMPOSER_JSON@);
    let l = path_in(files, COMPOSER_LOCK@);
    match read_safe(files, reads, COMPOSER_JSON@) {
        Err(e) => (Seq::empty(), Err(e)),
        Ok(c) => {
            let s0 = seq![StepModel::Backup(j)];
            match composer_updated_content(c, v) {
                Err(e) => (s0, Err(e)),
                Ok(n) => {
                    let s1 = s0.push(StepModel::Write(j, normalized(n)));
                    if files.spec_exists(COMPOSER_LOCK@) {
                        match read_safe(files, reads, COMPOSER_LOCK@) {
                            Err(e) => (s1, Err(e)),
                            Ok(lc) => {
                                let s2 = s1.push(StepModel::Backup(l));
                                match composer_lock_updated(lc, v) {
                                    Err(e) => (s2, Err(e)),
                                    Ok(ln) => (s2.push(StepModel::Write(l, normalized(ln))), Ok(seq![j, l])),
                                }
                            },
                        }
                    } else {
                        (s1, Ok(seq![j]))
                    }
                },
            }
        },
    }
}

/// The changes that setting a Composer project's version to `v` would make.
pub open spec fn composer_preview(files: ProjectFiles, reads: FileReads, v: Seq<char>) -> Result<Seq<ChangeModel>, Seq<char>> {
    match read_safe(files, reads, COMPOSER_JSON@) {
        Err(e) => Err(e),
        Ok(old) => match composer_current_version(files, reads) {
            Err(e) => Err(e),
            Ok(ov) => match composer_updated_content(old, v) {
                Err(e) => Err(e),
                Ok(new) => {
                    let cs = seq![(path_in(files, COMPOSER_JSON@), old, new, ov, v)];
                    if files.spec_exists(COMPOSER_LOCK@) {
                        match read_safe(files, reads, COMPOSER_LOCK@) {
                            Err(e) => Err(e),
                            Ok(lc) => match lock_version_replaced(lc, v) {
                                Err(e) => Err(e),
                                Ok(nl) => Ok(cs.push((path_in(files, COMPOSER_LOCK@), lc, nl, ov, v))),
                            },
                        }
                    } else {
                        Ok(cs)
                    }
                },
            },
        },
    }
}

/// Reads and updates the version of a Composer package.
pub struct ComposerUpdater;

impl ComposerUpdater {
    pub fn new() -> (r: Self) {
        ComposerUpdater
    }

    /// The `composer.json` content with its version set to `new_version`; every
    /// other member of the root is still there, and each string member reads as
    /// before.
    pub fn update_composer_json_content(&self, content: &str, new_version: &str) -> (r: Result<String, String>)
        ensures
            result_text(r) == composer_updated_content(content@, new_version@),
            r is Ok ==> !r->Ok_0@.contains('\r'),
            r is Ok ==> composer_version_of(r->Ok_0@) == Ok::<Seq<char>, Seq<char>>(new_version@),
            r is Ok ==> forall|k: Seq<char>| k != "version"@
                ==> #[trigger] json_string_member(r->Ok_0@, k) == json_string_member(content@, k),
            r is Ok ==> forall|k: Seq<char>| #[trigger] json_member_present(r->Ok_0@, k)
                == (if k == "version"@ { Ok::<bool, Seq<char>>(true) } else { json_member_present(content@, k) }),
    {
        match json_set_member(content, "version", new_version) {
            Err(e) => Err(String::from_str("Failed to parse composer.json: ").concat(e.as_str())),
            Ok((false, _)) => Err(String::from_str("composer.json root is not an object")),
            Ok((true, s)) => Ok(s),
        }
    }

    /// The `composer.lock` content with its version, where it has one, set to
    /// `new_version`.
    pub fn update_composer_lock_content(&self, content: &str, new_version: &str) -> (r: Result<String, String>)
        ensures
            result_text(r) == composer_lock_updated(content@, new_version@),
    {
        match self.replace_lock_version(content, new_version) {
            Err(e) => Err(String::from_str("Failed to parse composer.lock: ").concat(e.as_str())),
            Ok(s) => Ok(s),
        }
    }

    /// The JSON content printed anew, with the root's `version` set to
    /// `new_version` where the root already has one.
    pub fn replace_lock_version(&self, content: &str, new_version: &str) -> (r: Result<String, String>)
        ensures
            result_text(r) == lock_version_replaced(content@, new_version@),
    {
        match json_has_member(content, "version") {
            Err(e) => Err(e),
            Ok(true) => match json_set_member(content, "version", new_version) {
                Err(e) => Err(e),
                Ok((_, s)) => Ok(s),
            },
            Ok(false) => json_reprint(content),
        }
    }
}

impl VersionUpdater for ComposerUpdater {
    fn technology_name(&self) -> (r: &'static str)
        ensures
            r@ == "composer"@,
    {
        "composer"
    }

    fn can_handle(&self, files: &ProjectFiles) -> (r: bool)
        ensures
            r == files.spec_exists(COMPOSER_JSON@),
    {
        files.has_entry(COMPOSER_JSON)
    }

    fn validate_project(&self, files: &ProjectFiles, reads: &FileReads) -> (r: Result<(), String>)
        ensures
            unit_result(r) == if files.spec_exists(COMPOSER_JSON@) {
                Ok(())
            } else {
                Err("composer.json not found. Not a valid Composer project."@)
            },
    {
        if files.has_entry(COMPOSER_JSON) {
            Ok(())
        } else {
            Err(String::from_str("composer.json not found. Not a valid Composer project."))
        }
    }

    fn get_primary_file(&self, files: &ProjectFiles) -> (r: Result<String, String>)
        ensures
            result_text(r) == if files.spec_exists(COMPOSER_JSON@) {
                Ok(path_in(*files, COMPOSER_JSON@))
            } else {
                Err("composer.json not found"@)
            },
    {
        if files.has_entry(COMPOSER_JSON) {
            Ok(files.path_of(COMPOSER_JSON))
        } else {
            Err(String::from_str("composer.json not found"))
        }
    }

    fn get_current_version(&self, files: &ProjectFiles, reads: &FileReads) -> (r: Result<String, String>)
        ensures
            result_text(r) == composer_current_version(*files, *reads),
    {
        let content = match read_file_safe(files, reads, COMPOSER_JSON) {
            Ok(c) => c,
            Err(e) => return Err(e),
        };
        match json_get_string_member(content.as_str(), "version") {
            Err(e) => Err(String::from_str("Failed to parse composer.json: ").concat(e.as_str())),
            Ok(Some(v)) => Ok(v),
            Ok(None) => Err(String::from_str("No version field found in composer.json")),
        }
    }

    /// Reading back what the update wrote to `composer.json` gives the new version.
    fn update_version(&self, files: &ProjectFiles, reads: &FileReads, new_version: &str) -> (r: UpdatePlan)
        ensures
            plan_model(r) == composer_update_plan(*files, *reads, new_version@),
            plan_model(r).1 is Ok ==> composer_version_of(plan_model(r).0[1]->Write_1) == Ok::<Seq<char>, Seq<char>>(new_version@),
    {
        let j = files.path_of(COMPOSER_JSON);
        let mut steps: Vec<PlanStep> = Vec::new();
        assert(steps@.map_values(|s: PlanStep| step_model(s)) =~= Seq::<StepModel>::empty());
        let content = match read_file_safe(files, reads, COMPOSER_JSON) {
            Ok(c) => c,
            Err(e) => return UpdatePlan { steps, outcome: Err(e) },
        };
        steps.push(PlanStep::Backup(j.clone()));
        let ghost s0 = seq![StepModel::Backup(j@)];
        assert(steps@.map_values(|s: PlanStep| step_model(s)) =~= s0);
        let updated = match self.update_composer_json_content(content.as_str(), new_version) {
            Ok(u) => u,
            Err(e) => return UpdatePlan { steps, outcome: Err(e) },
        };
        let w = normalize_line_endings(updated.as_str());
        proof {
            lemma_normalized_without_cr(updated@);
        }
        let ghost s1 = s0.push(StepModel::Write(j@, w@));
        steps.push(PlanStep::Write(j.clone(), w));
        assert(steps@.map_values(|s: PlanStep| step_model(s)) =~= s1);
        let mut updated_files: Vec<String> = vec![j];
        assert(updated_files@.map_values(|s: String| s@) =~= seq![j@]);
        if !files.has_entry(COMPOSER_LOCK) {
            return UpdatePlan { steps, outcome: Ok(updated_files) };
        }
        let l = files.path_of(COMPOSER_LOCK);
        let lock_content = match read_file_safe(files, reads, COMPOSER_LOCK) {
            Ok(c) => c,
            Err(e) => return UpdatePlan { steps, outcome: Err(e) },
        };
        steps.push(PlanStep::Backup(l.clone()));
        let ghost s2 = s1.push(StepModel::Backup(l@));
        assert(steps@.map_values(|s: PlanStep| step_model(s)) =~= s2);
        let lock_updated = match self.update_composer_lock_content(lock_content.as_str(), new_version) {
            Ok(u) => u,
            Err(e) => return UpdatePlan { steps, outcome: Err(e) },
        };
        let lw = normalize_line_endings(lock_updated.as_str());
        let ghost s3 = s2.push(StepModel::Write(l@, lw@));
        steps.push(PlanStep::Write(l.clone(), lw));
        assert(steps@.map_values(|s: PlanStep| step_model(s)) =~= s3);
        updated_files.push(l);
        assert(updated_files@.map_values(|s: String| s@) =~= seq![j@, l@]);
        UpdatePlan { steps, outcome: Ok(updated_files) }
    }

    fn preview_changes(&self, files: &ProjectFiles, reads: &FileReads, new_version: &str) -> (r: Result<Vec<VersionChange>, String>)
        ensures
            changes_result(r) == composer_preview(*files, *reads, new_version@),
    {
        let old_content = match read_file_safe(files, reads, COMPOSER_JSON) {
            Ok(c) => c,
            Err(e) => return Err(e),
        };
        let old_version = match self.get_current_version(files, reads) {
            Ok(v) => v,
            Err(e) => return Err(e),
        };
        let new_content = match self.update_composer_json_content(old_content.as_str(), new_version) {
            Ok(c) => c,
            Err(e) => return Err(e),
        };
        let ov = old_version.clone();
        let change = VersionChange::new(files.path_of(COMPOSER_JSON), old_content, new_content, old_version, String::from_str(new_version));
        let mut changes: Vec<VersionChange> = vec![change];
        let ghost cs = seq![change_model(change)];
        assert(changes_model(changes@) =~= cs);
        if files.has_entry(COMPOSER_LOCK) {
            let lock_content = match read_file_safe(files, reads, COMPOSER_LOCK) {
                Ok(c) => c,
                Err(e) => return Err(e),
            };
            let new_lock = match self.replace_lock_version(lock_content.as_str(), new_version) {
                Ok(s) => s,
                Err(e) => return Err(e),
            };
            let lock_change = VersionChange::new(files.path_of(COMPOSER_LOCK), lock_content, new_lock, ov, String::from_str(new_version));
            changes.push(lock_change);
            assert(changes_model(changes@) =~= cs.push(change_model(lock_change)));
        }
        Ok(changes)
    }
}

} // verus!
