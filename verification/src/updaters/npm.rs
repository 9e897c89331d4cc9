//! Version of an npm package, in `package.json` and its lock file.
use crate::engine::project_files::ProjectFiles;
use crate::json_api::{
    json_get_string_member, json_member_present, json_member_set, json_nested_member_set, json_set_member, json_set_nested_member,
    json_string_member,
};
use crate::updaters::traits::{
    change_model, changes_model, changes_result, path_in, plan_model, result_text, step_model,
    unit_result, ChangeModel, FileReads, PlanModel, PlanStep, StepModel, UpdatePlan,
    VersionChange, VersionUpdater,
};
use vstd::prelude::*;

verus! {

/// The manifest of an npm package.
pub const PACKAGE_JSON: &'static str = "package.json";

/// The lock file of npm.
pub const PACKAGE_LOCK: &'static str = "package-lock.json";

/// The shrinkwrap file of npm.
pub const NPM_SHRINKWRAP: &'static str = "npm-shrinkwrap.json";

/// The version that a `package.json` content declares.
pub open spec fn npm_version_of(content: Seq<char>) -> Result<Seq<char>, Seq<char>> {
    match json_string_member(content, "version"@) {
        Err(e) => Err("Failed to parse package.json: "@ + e),
        Ok(Some(v)) => Ok(v),
        Ok(None) => Err("No version field found in package.json"@),
    }
}

/// A `package.json` content with its version set to `v`, printed anew.
pub open spec fn npm_updated_content(content: Seq<char>, v: Seq<char>) -> Result<Seq<char>, Seq<char>> {
    match json_member_set(content, "version"@, v) {
        Err(e) => Err("Failed to parse package.json: "@ + e),
        Ok((false, _)) => Err("package.json root is not an object"@),
        Ok((true, s)) => Ok(s + "\n"@),
    }
}

/// A `package-lock.json` content with its version and that of its root package set
/// to `v`, printed anew.
pub open spec fn npm_lock_updated(content: Seq<char>, v: Seq<char>) -> Result<Seq<char>, Seq<char>> {
    match json_member_set(content, "version"@, v) {
        Err(e) => Err("Failed to parse package-lock.json: "@ + e),
        Ok((_, s)) => match json_nested_member_set(s, "packages"@, ""@, "version"@, v) {
            Err(e) => Err("Failed to parse package-lock.json: "@ + e),
            Ok(t) => Ok(t + "\n"@),
        },
    }
}

/// The current version of an npm project.
pub open spec fn npm_current_version(files: ProjectFiles, reads: FileReads) -> Result<Seq<char>, Seq<char>> {
    match reads.spec_read(PACKAGE_JSON@) {
        Err(e) => Err("Failed to read package.json: "@ + e),
        Ok(c) => npm_version_of(c),
    }
}

/// The outcome of checking an npm project.
pub open spec fn npm_validation(files: ProjectFiles, reads: FileReads) -> Result<(), Seq<char>> {
    if !files.spec_exists(PACKAGE_JSON@) {
        Err("package.json not found in "@ + files.root@)
    } else {
        match reads.spec_read(PACKAGE_JSON@) {
            Err(e) => Err(e),
            Ok(c) => match json_string_member(c, "version"@) {
                Err(e) => Err("Failed to parse package.json: "@ + e),
                Ok(None) => Err("package.json does not contain a valid version field"@),
                Ok(Some(_)) => Ok(()),
            },
        }
    }
}

/// The update of an npm project to `v`: `package.json`, then the lock file when it
/// is a regular file, each backed up, read and written.
pub open spec fn npm_update_plan(files: ProjectFiles, reads: FileReads, v: Seq<char>) -> PlanModel {
    let pkg = path_in(files, PACKAGE_JSON@);
    let lock = path_in(files, PACKAGE_LOCK@);
    let s0 = seq![StepModel::Backup(pkg)];
    match reads.spec_read(PACKAGE_JSON@) {
        Err(e) => (s0, Err(e)),
        Ok(c) => match npm_updated_content(c, v) {
            Err(e) => (s0, Err(e)),
            Ok(u) => {
                let s1 = s0.push(StepModel::Write(pkg, u));
                if files.spec_is_file(PACKAGE_LOCK@) {
                    let s2 = s1.push(StepModel::Backup(lock));
                    match reads.spec_read(PACKAGE_LOCK@) {
                        Err(e) => (s2, Err(e)),
                        Ok(lc) => match npm_lock_updated(lc, v) {
                            Err(e) => (s2, Err(e)),
                            Ok(lu) => (s2.push(StepModel::Write(lock, lu)), Ok(seq![pkg, lock])),
                        },
                    }
                } else {
                    (s1, Ok(seq![pkg]))
                }
            },
        },
    }
}

/// The change to `package.json`, where it exists.
pub open spec fn npm_manifest_preview(files: ProjectFiles, reads: FileReads, v: Seq<char>) -> Result<Seq<ChangeModel>, Seq<char>> {
    if files.spec_exists(PACKAGE_JSON@) {
        match reads.spec_read(PACKAGE_JSON@) {
            Err(e) => Err(e),
            Ok(old) => match npm_updated_content(old, v) {
                Err(e) => Err(e),
                Ok(new) => match npm_current_version(files, reads) {
                    Err(e) => Err(e),
                    Ok(ov) => Ok(seq![(path_in(files, PACKAGE_JSON@), old, new, ov, v)]),
                },
            },
        }
    } else {
        Ok(Seq::empty())
    }
}

/// The changes that setting an npm project's version to `v` would make: to
/// `package.json`, then to the lock file (its own version and its root package's).
pub open spec fn npm_preview(files: ProjectFiles, reads: FileReads, v: Seq<char>) -> Result<Seq<ChangeModel>, Seq<char>> {
    match npm_manifest_preview(files, reads, v) {
        Err(e) => Err(e),
        Ok(cs) => if files.spec_is_file(PACKAGE_LOCK@) {
            match reads.spec_read(PACKAGE_LOCK@) {
                Err(e) => Err(e),
                Ok(old) => match npm_lock_updated(old, v) {
                    Err(e) => Err(e),
                    Ok(s) => match npm_current_version(files, reads) {
                        Err(e) => Err(e),
                        Ok(ov) => Ok(cs.push((path_in(files, PACKAGE_LOCK@), old, s, ov, v))),
                    },
                },
            }
        } else {
            Ok(cs)
        },
    }
}

/// Reads and updates the version of an npm package.
pub struct NpmUpdater;

impl NpmUpdater {
    pub fn new() -> (r: Self) {
        NpmUpdater
    }

    /// The `package.json` content with its version set to `new_version`; the
    /// version that the new content declares is `new_version`, and every other
    /// member of the root is still there, each string member reading as before.
    pub fn update_package_json_content(&self, content: &str, new_version: &str) -> (r: Result<String, String>)
        ensures
            result_text(r) == npm_updated_content(content@, new_version@),
            r is Ok ==> npm_version_of(r->Ok_0@) == Ok::<Seq<char>, Seq<char>>(new_version@),
            r is Ok ==> forall|k: Seq<char>| k != "version"@
                ==> #[trigger] json_string_member(r->Ok_0@, k) == json_string_member(content@, k),
            r is Ok ==> forall|k: Seq<char>| #[trigger] json_member_present(r->Ok_0@, k)
                == (if k == "version"@ { Ok::<bool, Seq<char>>(true) } else { json_member_present(content@, k) }),
    {
        match json_set_member(content, "version", new_version) {
            Err(e) => Err(String::from_str("Failed to parse package.json: ").concat(e.as_str())),
            Ok((false, _)) => Err(String::from_str("package.json root is not an object")),
            Ok((true, s)) => {
                let u = s.concat("\n");
                proof {
                    reveal_strlit("\n");
                    assert(u@ =~= s@.push('\n'));
                }
                Ok(u)
            },
        }
    }

    /// The `package-lock.json` content with its versions set to `new_version`.
    pub fn update_package_lock_content(&self, content: &str, new_version: &str) -> (r: Result<String, String>)
        ensures
            result_text(r) == npm_lock_updated(content@, new_version@),
    {
        let s = match json_set_member(content, "version", new_version) {
            Err(e) => return Err(String::from_str("Failed to parse package-lock.json: ").concat(e.as_str())),
            Ok((_, s)) => s,
        };
        match json_set_nested_member(s.as_str(), "packages", "", "version", new_version) {
            Err(e) => Err(String::from_str("Failed to parse package-lock.json: ").concat(e.as_str())),
            Ok(t) => Ok(t.concat("\n")),
        }
    }

    /// The version that a `package.json` content declares.
    pub fn version_of_content(&self, content: &str) -> (r: Result<String, String>)
        ensures
            result_text(r) == npm_version_of(content@),
    {
        match json_get_string_member(content, "version") {
            Err(e) => Err(String::from_str("Failed to parse package.json: ").concat(e.as_str())),
            Ok(Some(v)) => Ok(v),
            Ok(None) => Err(String::from_str("No version field found in package.json")),
        }
    }

    /// The paths of the lock and shrinkwrap files that are regular files, in that
    /// order.
    pub fn find_related_files(&self, files: &ProjectFiles) -> (r: Vec<String>)
        ensures
            r@.map_values(|s: String| s@) == (if files.spec_is_file(PACKAGE_LOCK@) {
                seq![path_in(*files, PACKAGE_LOCK@)]
            } else {
                Seq::empty()
            }) + (if files.spec_is_file(NPM_SHRINKWRAP@) {
                seq![path_in(*files, NPM_SHRINKWRAP@)]
            } else {
                Seq::empty()
            }),
    {
        let mut out: Vec<String> = Vec::new();
        if files.is_file(PACKAGE_LOCK) {
            out.push(files.path_of(PACKAGE_LOCK));
        }
        let ghost first = out@.map_values(|s: String| s@);
        if files.is_file(NPM_SHRINKWRAP) {
            out.push(files.path_of(NPM_SHRINKWRAP));
        }
        assert(out@.map_values(|s: String| s@) =~= first + (if files.spec_is_file(NPM_SHRINKWRAP@) {
            seq![path_in(*files, NPM_SHRINKWRAP@)]
        } else {
            Seq::empty()
        }));
        out
    }
}

impl VersionUpdater for NpmUpdater {
    fn technology_name(&self) -> (r: &'static str)
        ensures
            r@ == "npm"@,
    {
        "npm"
    }

    fn can_handle(&self, files: &ProjectFiles) -> (r: bool)
        ensures
            r == files.spec_exists(PACKAGE_JSON@),
    {
        files.has_entry(PACKAGE_JSON)
    }

    fn validate_project(&self, files: &ProjectFiles, reads: &FileReads) -> (r: Result<(), String>)
        ensures
            unit_result(r) == npm_validation(*files, *reads),
    {
        if !files.has_entry(PACKAGE_JSON) {
            return Err(String::from_str("package.json not found in ").concat(files.root.as_str()));
        }
        let content = match reads.read(PACKAGE_JSON) {
            Ok(c) => c,
            Err(e) => return Err(e),
        };
        match json_get_string_member(content.as_str(), "version") {
            Err(e) => Err(String::from_str("Failed to parse package.json: ").concat(e.as_str())),
            Ok(None) => Err(String::from_str("package.json does not contain a valid version field")),
            Ok(Some(_)) => Ok(()),
        }
    }

    fn get_primary_file(&self, files: &ProjectFiles) -> (r: Result<String, String>)
        ensures
            result_text(r) == if files.spec_exists(PACKAGE_JSON@) {
                Ok(path_in(*files, PACKAGE_JSON@))
            } else {
                Err("package.json not found"@)
            },
    {
        if files.has_entry(PACKAGE_JSON) {
            Ok(files.path_of(PACKAGE_JSON))
        } else {
            Err(String::from_str("package.json not found"))
        }
    }

    fn get_current_version(&self, files: &ProjectFiles, reads: &FileReads) -> (r: Result<String, String>)
        ensures
            result_text(r) == npm_current_version(*files, *reads),
    {
        match reads.read(PACKAGE_JSON) {
            Err(e) => Err(String::from_str("Failed to read package.json: ").concat(e.as_str())),
            Ok(c) => self.version_of_content(c.as_str()),
        }
    }

    /// Reading back what the update wrote to `package.json` gives the new version.
    fn update_version(&self, files: &ProjectFiles, reads: &FileReads, new_version: &str) -> (r: UpdatePlan)
        ensures
            plan_model(r) == npm_update_plan(*files, *reads, new_version@),
            plan_model(r).1 is Ok ==> npm_version_of(plan_model(r).0[1]->Write_1) == Ok::<Seq<char>, Seq<char>>(new_version@),
    {
        let pkg = files.path_of(PACKAGE_JSON);
        let mut steps: Vec<PlanStep> = Vec::new();
        steps.push(PlanStep::Backup(pkg.clone()));
        let ghost s0 = seq![StepModel::Backup(pkg@)];
        assert(steps@.map_values(|s: PlanStep| step_model(s)) =~= s0);
        let content = match reads.read(PACKAGE_JSON) {
            Ok(c) => c,
            Err(e) => return UpdatePlan { steps, outcome: Err(e) },
        };
        let updated = match self.update_package_json_content(content.as_str(), new_version) {
            Ok(u) => u,
            Err(e) => return UpdatePlan { steps, outcome: Err(e) },
        };
        let ghost s1 = s0.push(StepModel::Write(pkg@, updated@));
        steps.push(PlanStep::Write(pkg.clone(), updated));
        assert(steps@.map_values(|s: PlanStep| step_model(s)) =~= s1);
        let mut updated_files: Vec<String> = vec![pkg];
        assert(updated_files@.map_values(|s: String| s@) =~= seq![pkg@]);
        if !files.is_file(PACKAGE_LOCK) {
            return UpdatePlan { steps, outcome: Ok(updated_files) };
        }
        let lock = files.path_of(PACKAGE_LOCK);
        steps.push(PlanStep::Backup(lock.clone()));
        let ghost s2 = s1.push(StepModel::Backup(lock@));
        assert(steps@.map_values(|s: PlanStep| step_model(s)) =~= s2);
        let lock_content = match reads.read(PACKAGE_LOCK) {
            Ok(c) => c,
            Err(e) => return UpdatePlan { steps, outcome: Err(e) },
        };
        let lock_updated = match self.update_package_lock_content(lock_content.as_str(), new_version) {
            Ok(u) => u,
            Err(e) => return UpdatePlan { steps, outcome: Err(e) },
        };
        let ghost s3 = s2.push(StepModel::Write(lock@, lock_updated@));
        steps.push(PlanStep::Write(lock.clone(), lock_updated));
        assert(steps@.map_values(|s: PlanStep| step_model(s)) =~= s3);
        updated_files.push(lock);
        assert(updated_files@.map_values(|s: String| s@) =~= seq![pkg@, lock@]);
        UpdatePlan { steps, outcome: Ok(updated_files) }
    }

    fn preview_changes(&self, files: &ProjectFiles, reads: &FileReads, new_version: &str) -> (r: Result<Vec<VersionChange>, String>)
        ensures
            changes_result(r) == npm_preview(*files, *reads, new_version@),
    {
        let mut changes: Vec<VersionChange> = Vec::new();
        if files.has_entry(PACKAGE_JSON) {
            let old_content = match reads.read(PACKAGE_JSON) {
                Ok(c) => c,
                Err(e) => return Err(e),
            };
            let new_content = match self.update_package_json_content(old_content.as_str(), new_version) {
                Ok(c) => c,
                Err(e) => return Err(e),
            };
            let old_version = match self.get_current_version(files, reads) {
                Ok(v) => v,
                Err(e) => return Err(e),
            };
            let change = VersionChange::new(files.path_of(PACKAGE_JSON), old_content, new_content, old_version, String::from_str(new_version));
            changes.push(change);
        }
        let ghost first = changes_model(changes@);
        assert(npm_manifest_preview(*files, *reads, new_version@) == Ok::<Seq<ChangeModel>, Seq<char>>(first)) by {
            assert(first =~= (if files.spec_exists(PACKAGE_JSON@) { seq![first[0]] } else { Seq::empty() }));
        }
        if files.is_file(PACKAGE_LOCK) {
            let old_content = match reads.read(PACKAGE_LOCK) {
                Ok(c) => c,
                Err(e) => return Err(e),
            };
            let new_content = match self.update_package_lock_content(old_content.as_str(), new_version) {
                Ok(s) => s,
                Err(e) => return Err(e),
            };
            let old_version = match self.get_current_version(files, reads) {
                Ok(v) => v,
                Err(e) => return Err(e),
            };
            let change = VersionChange::new(files.path_of(PACKAGE_LOCK), old_content, new_content, old_version, String::from_str(new_version));
            changes.push(change);
            assert(changes_model(changes@) =~= first.push(change_model(change)));
        }
        Ok(changes)
    }
}

} // verus!
