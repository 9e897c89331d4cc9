//! Version of a Python project, in `pyproject.toml` or `setup.py`.
use crate::engine::project_files::ProjectFiles;
use crate::regex_api::{regex_capture, regex_captured, regex_replace_first, regex_replaced_first};
use crate::text::{around_template, around_template_text};
use crate::toml_api::{toml_entry, toml_get_entry, toml_get_nested_entry, toml_nested_entry};
use crate::updaters::traits::{
    change_model, changes_model, changes_result, normalized, path_in, plan_model,
    read_file_safe, read_safe, result_text, step_model, unit_result, ChangeModel, FileReads,
    PlanModel, PlanStep, StepModel, UpdatePlan, VersionChange, VersionUpdater,
};
use crate::text::opt_text;
use crate::utils::files::normalize_line_endings;
use crate::updaters::pyproject::{lemma_set_versions_then_read, set_versions, set_versions_text, table_version, PyTable};
use vstd::prelude::*;

verus! {

/// The project file of a modern Python project.
pub const PYPROJECT_TOML: &'static str = "pyproject.toml";

/// The setup script of a classic Python project.
pub const SETUP_PY: &'static str = "setup.py";

/// A `version=` argument in `setup.py`; group 1 is the version.
pub const SETUP_VERSION_PATTERN: &'static str = r#"version\s*=\s*['\"]([0-9A-Za-z\.\-+_]+)['\"]"#;

/// The same, with the text before the version as group 1 and the closing quote as
/// group 3.
pub const SETUP_REPLACE_PATTERN: &'static str = r#"(version\s*=\s*['\"])([0-9A-Za-z\.\-+_]+)(['\"])"#;

/// The message when no version is found.
pub open spec fn python_no_version() -> Seq<char> {
    "No Python project version found (pyproject.toml or setup.py)"@
}

/// The version that a `pyproject.toml` content declares: `[project]`'s, where that
/// table has a version entry, else `[tool.poetry]`'s; nothing where the entry is not
/// a string or the content does not parse.
pub open spec fn pyproject_version_of(content: Seq<char>) -> Option<Seq<char>> {
    match toml_entry(content, "project"@, "version"@) {
        Err(_) => None,
        Ok(Some(x)) => x,
        Ok(None) => match toml_nested_entry(content, "tool"@, "poetry"@, "version"@) {
            Ok(Some(x)) => x,
            _ => None,
        },
    }
}

/// A `pyproject.toml` content with the quoted version of `[project]` and that of
/// `[tool.poetry]` set to `v` in place ([`set_versions`]): the rest of the text,
/// comments and quoting included, is kept. A content that does not parse as TOML
/// is refused with the parser's message.
pub open spec fn pyproject_updated(content: Seq<char>, v: Seq<char>) -> Result<Seq<char>, Seq<char>> {
    match toml_entry(content, "project"@, "version"@) {
        Err(e) => Err(e),
        Ok(_) => Ok(set_versions(content, v)),
    }
}

/// Updating `pyproject.toml` sets every version it declares: where the update
/// succeeds, reading the `version = "…"` line of `[project]` and that of
/// `[tool.poetry]` back gives the new version wherever the table declared one
/// (for a version without quotes or line feeds); a content that does not parse is
/// refused.
pub proof fn lemma_pyproject_update_then_read(c: Seq<char>, v: Seq<char>)
    requires
        !v.contains('"'),
        !v.contains('\''),
        !v.contains('\n'),
    ensures
        pyproject_updated(c, v) is Err <==> toml_entry(c, "project"@, "version"@) is Err,
        pyproject_updated(c, v) is Ok && table_version(c, PyTable::Project) is Some
            ==> table_version(pyproject_updated(c, v)->Ok_0, PyTable::Project) == Some(v),
        pyproject_updated(c, v) is Ok && table_version(c, PyTable::Poetry) is Some
            ==> table_version(pyproject_updated(c, v)->Ok_0, PyTable::Poetry) == Some(v),
{
    lemma_set_versions_then_read(c, v);
}

/// A `setup.py` content with its first version argument set to `v`.
pub open spec fn setup_updated(content: Seq<char>, v: Seq<char>) -> Seq<char> {
    regex_replaced_first(SETUP_REPLACE_PATTERN@, content, around_template(v))
}

/// The current version of a Python project: from `pyproject.toml`, else from
/// `setup.py`.
pub open spec fn python_current_version(files: ProjectFiles, reads: FileReads) -> Result<Seq<char>, Seq<char>> {
    let from_pyproject = if files.spec_exists(PYPROJECT_TOML@) {
        match read_safe(files, reads, PYPROJECT_TOML@) {
            Err(e) => Some(Err(e)),
            Ok(c) => match pyproject_version_of(c) {
                Some(v) => Some(Ok(v)),
                None => None,
            },
        }
    } else {
        None
    };
    match from_pyproject {
        Some(r) => r,
        None => if files.spec_exists(SETUP_PY@) {
            match read_safe(files, reads, SETUP_PY@) {
                Err(e) => Err(e),
                Ok(c) => match regex_captured(SETUP_VERSION_PATTERN@, c, 1) {
                    Some(v) => Ok(v),
                    None => Err(python_no_version()),
                },
            }
        } else {
            Err(python_no_version())
        },
    }
}

/// The rest of an update after `pyproject.toml`: `setup.py` where it exists, then
/// the outcome.
pub open spec fn python_plan_setup(files: ProjectFiles, reads: FileReads, v: Seq<char>, steps: Seq<StepModel>, done: Seq<Seq<char>>) -> PlanModel {
    let sp = path_in(files, SETUP_PY@);
    if files.spec_exists(SETUP_PY@) {
        let s1 = steps.push(StepModel::Backup(sp));
        match read_safe(files, reads, SETUP_PY@) {
            Err(e) => (s1, Err(e)),
            Ok(c) => (s1.push(StepModel::Write(sp, normalized(setup_updated(c, v)))), Ok(done.push(sp))),
        }
    } else if done.len() == 0 {
        (steps, Err("No Python project files updated"@))
    } else {
        (steps, Ok(done))
    }
}

/// The update of a Python project to `v`: `pyproject.toml`, then `setup.py`, each
/// where it exists, backed up, read and written.
pub open spec fn python_update_plan(files: ProjectFiles, reads: FileReads, v: Seq<char>) -> PlanModel {
    let pp = path_in(files, PYPROJECT_TOML@);
    if files.spec_exists(PYPROJECT_TOML@) {
        let s0 = seq![StepModel::Backup(pp)];
        match read_safe(files, reads, PYPROJECT_TOML@) {
            Err(e) => (s0, Err(e)),
            Ok(c) => match pyproject_updated(c, v) {
                Err(e) => (s0, Err(e)),
                Ok(u) => python_plan_setup(files, reads, v, s0.push(StepModel::Write(pp, normalized(u))), seq![pp]),
            },
        }
    } else {
        python_plan_setup(files, reads, v, Seq::empty(), Seq::empty())
    }
}

/// The change to `pyproject.toml`, where it exists.
pub open spec fn python_pyproject_preview(files: ProjectFiles, reads: FileReads, v: Seq<char>) -> Result<Seq<ChangeModel>, Seq<char>> {
    if files.spec_exists(PYPROJECT_TOML@) {
        match read_safe(files, reads, PYPROJECT_TOML@) {
            Err(e) => Err(e),
            Ok(old) => match pyproject_updated(old, v) {
                Err(e) => Err(e),
                Ok(new) => match python_current_version(files, reads) {
                    Err(e) => Err(e),
                    Ok(ov) => Ok(seq![(path_in(files, PYPROJECT_TOML@), old, new, ov, v)]),
                },
            },
        }
    } else {
        Ok(Seq::empty())
    }
}

/// The changes that setting a Python project's version to `v` would make.
pub open spec fn python_preview(files: ProjectFiles, reads: FileReads, v: Seq<char>) -> Result<Seq<ChangeModel>, Seq<char>> {
    match python_pyproject_preview(files, reads, v) {
        Err(e) => Err(e),
        Ok(cs) => if files.spec_exists(SETUP_PY@) {
            match read_safe(files, reads, SETUP_PY@) {
                Err(e) => Err(e),
                Ok(old) => match python_current_version(files, reads) {
                    Err(e) => Err(e),
                    Ok(ov) => Ok(cs.push((path_in(files, SETUP_PY@), old, setup_updated(old, v), ov, v))),
                },
            }
        } else {
            Ok(cs)
        },
    }
}

/// Reads and updates the version of a Python project.
pub struct PythonUpdater;

impl PythonUpdater {
    pub fn new() -> (r: Self) {
        PythonUpdater
    }

    /// The version that a `pyproject.toml` content declares.
    pub fn parse_pyproject_version(&self, content: &str) -> (r: Option<String>)
        ensures
            opt_text(r) == pyproject_version_of(content@),
    {
        match toml_get_entry(content, "project", "version") {
            Err(_) => None,
            Ok(Some(x)) => x,
            Ok(None) => match toml_get_nested_entry(content, "tool", "poetry", "version") {
                Ok(Some(x)) => x,
                _ => None,
            },
        }
    }

    /// The version that a `setup.py` content passes.
    pub fn find_setup_py_version(&self, content: &str) -> (r: Option<String>)
        ensures
            opt_text(r) == regex_captured(SETUP_VERSION_PATTERN@, content@, 1),
    {
        regex_capture(SETUP_VERSION_PATTERN, content, 1)
    }

    /// The `setup.py` content with its first version argument set to `new_version`.
    pub fn update_setup_py_content(&self, content: &str, new_version: &str) -> (r: Result<String, String>)
        ensures
            r is Ok,
            result_text(r) == Ok::<Seq<char>, Seq<char>>(setup_updated(content@, new_version@)),
    {
        Ok(regex_replace_first(SETUP_REPLACE_PATTERN, content, around_template_text(new_version).as_str()))
    }

    /// The `pyproject.toml` content with its versions set to `new_version` in place
    /// (see [`pyproject_updated`]).
    pub fn update_pyproject_content(&self, content: &str, new_version: &str) -> (r: Result<String, String>)
        ensures
            result_text(r) == pyproject_updated(content@, new_version@),
    {
        match toml_get_entry(content, "project", "version") {
            Err(e) => Err(e),
            Ok(_) => Ok(set_versions_text(content, new_version)),
        }
    }

    /// The steps after `pyproject.toml`: `setup.py`, then the outcome.
    fn plan_setup(&self, files: &ProjectFiles, reads: &FileReads, new_version: &str, steps: Vec<PlanStep>, done: Vec<String>) -> (r: UpdatePlan)
        ensures
            plan_model(r) == python_plan_setup(*files, *reads, new_version@, steps@.map_values(|s: PlanStep| step_model(s)), done@.map_values(|s: String| s@)),
    {
        let mut steps = steps;
        let mut done = done;
        let ghost s0 = steps@.map_values(|s: PlanStep| step_model(s));
        let ghost d0 = done@.map_values(|s: String| s@);
        if files.has_entry(SETUP_PY) {
            let sp = files.path_of(SETUP_PY);
            steps.push(PlanStep::Backup(sp.clone()));
            let ghost s1 = s0.push(StepModel::Backup(sp@));
            assert(steps@.map_values(|s: PlanStep| step_model(s)) =~= s1);
            let content = match read_file_safe(files, reads, SETUP_PY) {
                Ok(c) => c,
                Err(e) => return UpdatePlan { steps, outcome: Err(e) },
            };
            let updated = regex_replace_first(SETUP_REPLACE_PATTERN, content.as_str(), around_template_text(new_version).as_str());
            let w = normalize_line_endings(updated.as_str());
            steps.push(PlanStep::Write(sp.clone(), w));
            assert(steps@.map_values(|s: PlanStep| step_model(s)) =~= s1.push(StepModel::Write(sp@, w@)));
            done.push(sp);
            assert(done@.map_values(|s: String| s@) =~= d0.push(sp@));
            UpdatePlan { steps, outcome: Ok(done) }
        } else if done.len() == 0 {
            UpdatePlan { steps, outcome: Err(String::from_str("No Python project files updated")) }
        } else {
            UpdatePlan { steps, outcome: Ok(done) }
        }
    }
}

impl VersionUpdater for PythonUpdater {
    fn technology_name(&self) -> (r: &'static str)
        ensures
            r@ == "python"@,
    {
        "python"
    }

    fn can_handle(&self, files: &ProjectFiles) -> (r: bool)
        ensures
            r == (files.spec_exists(PYPROJECT_TOML@) || files.spec_exists(SETUP_PY@)),
    {
        files.has_entry(PYPROJECT_TOML) || files.has_entry(SETUP_PY)
    }

    fn validate_project(&self, files: &ProjectFiles, reads: &FileReads) -> (r: Result<(), String>)
        ensures
            unit_result(r) == if files.spec_exists(PYPROJECT_TOML@) || files.spec_exists(SETUP_PY@) {
                Ok(())
            } else {
                Err("No Python project files found (pyproject.toml, setup.py)"@)
            },
    {
        if files.has_entry(PYPROJECT_TOML) || files.has_entry(SETUP_PY) {
            Ok(())
        } else {
            Err(String::from_str("No Python project files found (pyproject.toml, setup.py)"))
        }
    }

    fn get_primary_file(&self, files: &ProjectFiles) -> (r: Result<String, String>)
        ensures
            result_text(r) == if files.spec_exists(PYPROJECT_TOML@) {
                Ok(path_in(*files, PYPROJECT_TOML@))
            } else if files.spec_exists(SETUP_PY@) {
                Ok(path_in(*files, SETUP_PY@))
            } else {
                Err("No Python project files found"@)
            },
    {
        if files.has_entry(PYPROJECT_TOML) {
            Ok(files.path_of(PYPROJECT_TOML))
        } else if files.has_entry(SETUP_PY) {
            Ok(files.path_of(SETUP_PY))
        } else {
            Err(String::from_str("No Python project files found"))
        }
    }

    fn get_current_version(&self, files: &ProjectFiles, reads: &FileReads) -> (r: Result<String, String>)
        ensures
            result_text(r) == python_current_version(*files, *reads),
    {
        if files.has_entry(PYPROJECT_TOML) {
            let content = match read_file_safe(files, reads, PYPROJECT_TOML) {
                Ok(c) => c,
                Err(e) => return Err(e),
            };
            if let Some(v) = self.parse_pyproject_version(content.as_str()) {
                return Ok(v);
            }
        }
        if files.has_entry(SETUP_PY) {
            let content = match read_file_safe(files, reads, SETUP_PY) {
                Ok(c) => c,
                Err(e) => return Err(e),
            };
            if let Some(v) = self.find_setup_py_version(content.as_str()) {
                return Ok(v);
            }
        }
        Err(String::from_str("No Python project version found (pyproject.toml or setup.py)"))
    }

    fn update_version(&self, files: &ProjectFiles, reads: &FileReads, new_version: &str) -> (r: UpdatePlan)
        ensures
            plan_model(r) == python_update_plan(*files, *reads, new_version@),
    {
        let mut steps: Vec<PlanStep> = Vec::new();
        let done: Vec<String> = Vec::new();
        if !files.has_entry(PYPROJECT_TOML) {
            assert(steps@.map_values(|s: PlanStep| step_model(s)) =~= Seq::<StepModel>::empty());
            assert(done@.map_values(|s: String| s@) =~= Seq::<Seq<char>>::empty());
            return self.plan_setup(files, reads, new_version, steps, done);
        }
        let pp = files.path_of(PYPROJECT_TOML);
        steps.push(PlanStep::Backup(pp.clone()));
        let ghost s0 = seq![StepModel::Backup(pp@)];
        assert(steps@.map_values(|s: PlanStep| step_model(s)) =~= s0);
        let content = match read_file_safe(files, reads, PYPROJECT_TOML) {
            Ok(c) => c,
            Err(e) => return UpdatePlan { steps, outcome: Err(e) },
        };
        let updated = match self.update_pyproject_content(content.as_str(), new_version) {
            Ok(u) => u,
            Err(e) => return UpdatePlan { steps, outcome: Err(e) },
        };
        let w = normalize_line_endings(updated.as_str());
        let ghost s1 = s0.push(StepModel::Write(pp@, w@));
        steps.push(PlanStep::Write(pp.clone(), w));
        assert(steps@.map_values(|s: PlanStep| step_model(s)) =~= s1);
        let done = vec![pp];
        assert(done@.map_values(|s: String| s@) =~= seq![pp@]);
        self.plan_setup(files, reads, new_version, steps, done)
    }

    fn preview_changes(&self, files: &ProjectFiles, reads: &FileReads, new_version: &str) -> (r: Result<Vec<VersionChange>, String>)
        ensures
            changes_result(r) == python_preview(*files, *reads, new_version@),
    {
        let mut changes: Vec<VersionChange> = Vec::new();
        if files.has_entry(PYPROJECT_TOML) {
            let old = match read_file_safe(files, reads, PYPROJECT_TOML) {
                Ok(c) => c,
                Err(e) => return Err(e),
            };
            let new_content = match self.update_pyproject_content(old.as_str(), new_version) {
                Ok(c) => c,
                Err(e) => return Err(e),
            };
            let old_version = match self.get_current_version(files, reads) {
                Ok(v) => v,
                Err(e) => return Err(e),
            };
            changes.push(VersionChange::new(files.path_of(PYPROJECT_TOML), old, new_content, old_version, String::from_str(new_version)));
        }
        let ghost first = changes_model(changes@);
        assert(python_pyproject_preview(*files, *reads, new_version@) == Ok::<Seq<ChangeModel>, Seq<char>>(first)) by {
            assert(first =~= (if files.spec_exists(PYPROJECT_TOML@) { seq![first[0]] } else { Seq::empty() }));
        }
        if files.has_entry(SETUP_PY) {
            let old = match read_file_safe(files, reads, SETUP_PY) {
                Ok(c) => c,
                Err(e) => return Err(e),
            };
            let new_content = regex_replace_first(SETUP_REPLACE_PATTERN, old.as_str(), around_template_text(new_version).as_str());
            let old_version = match self.get_current_version(files, reads) {
                Ok(v) => v,
                Err(e) => return Err(e),
            };
            let change = VersionChange::new(files.path_of(SETUP_PY), old, new_content, old_version, String::from_str(new_version));
            changes.push(change);
            assert(changes_model(changes@) =~= first.push(change_model(change)));
        }
        Ok(changes)
    }
}

} // verus!
