//! Version of a Maven project, in the first `<version>` of `pom.xml`.
use crate::engine::project_files::ProjectFiles;
use crate::regex_api::{
    regex_capture, regex_captured, regex_is_match, regex_matches, regex_replace_first,
    regex_replaced_first,
};
use crate::updaters::traits::{
    change_model, changes_model, changes_result, normalized, path_in, plan_model,
    read_file_safe, read_safe, result_text, step_model, unit_result, ChangeModel, FileReads,
    PlanModel, PlanStep, StepModel, UpdatePlan, VersionChange, VersionUpdater,
};
use crate::utils::files::normalize_line_endings;
use crate::text::{around_template, around_template_text};
use vstd::prelude::*;

verus! {

/// The project object model of a Maven project.
pub const MAVEN_POM: &'static str = "pom.xml";

/// The first `<version>` after the opening `<project>` tag; group 1 is the version.
pub const MAVEN_VERSION_PATTERN: &'static str = r"(?s)<project.*?>.*?<version>\s*([^<\s]+)\s*</version>";

/// The same, with the text before the version as group 1 and the text after it as
/// group 3.
pub const MAVEN_REPLACE_PATTERN: &'static str = r"(?s)(<project.*?>.*?<version>)\s*([^<\s]+)(\s*</version>)";

/// A `pom.xml` content with its first project version replaced by `v`.
pub open spec fn maven_replaced(content: Seq<char>, v: Seq<char>) -> Result<Seq<char>, Seq<char>> {
    if regex_matches(MAVEN_REPLACE_PATTERN@, content) {
        Ok(regex_replaced_first(MAVEN_REPLACE_PATTERN@, content, around_template(v)))
    } else {
        Err("No <version> tag found in pom.xml to replace"@)
    }
}

/// The current version of a Maven project.
pub open spec fn maven_current_version(files: ProjectFiles, reads: FileReads) -> Result<Seq<char>, Seq<char>> {
    match read_safe(files, reads, MAVEN_POM@) {
        Err(e) => Err(e),
        Ok(c) => match regex_captured(MAVEN_VERSION_PATTERN@, c, 1) {
            Some(v) => Ok(v),
            None => Err("No <version> found in pom.xml"@),
        },
    }
}

/// The update of a Maven project to `v`: back up `pom.xml`, read it, write it with
/// the new version.
pub open spec fn maven_update_plan(files: ProjectFiles, reads: FileReads, v: Seq<char>) -> PlanModel {
    let p = path_in(files, MAVEN_POM@);
    let s0 = seq![StepModel::Backup(p)];
    match read_safe(files, reads, MAVEN_POM@) {
        Err(e) => (s0, Err(e)),
        Ok(c) => match maven_replaced(c, v) {
            Err(e) => (s0, Err(e)),
            Ok(u) => (s0.push(StepModel::Write(p, normalized(u))), Ok(seq![p])),
        },
    }
}

/// The changes that setting a Maven project's version to `v` would make.
pub open spec fn maven_preview(files: ProjectFiles, reads: FileReads, v: Seq<char>) -> Result<Seq<ChangeModel>, Seq<char>> {
    if files.spec_exists(MAVEN_POM@) {
        match read_safe(files, reads, MAVEN_POM@) {
            Err(e) => Err(e),
            Ok(old) => match maven_replaced(old, v) {
                Err(e) => Err(e),
                Ok(new) => match maven_current_version(files, reads) {
                    Err(e) => Err(e),
                    Ok(ov) => Ok(seq![(path_in(files, MAVEN_POM@), old, new, ov, v)]),
                },
            },
        }
    } else {
        Ok(Seq::empty())
    }
}

/// Reads and updates the version in `pom.xml`.
pub struct MavenUpdater;

impl MavenUpdater {
    pub fn new() -> (r: Self) {
        MavenUpdater
    }

    /// The first project version in a `pom.xml` content.
    pub fn extract_version(&self, content: &str) -> (r: Option<String>)
        ensures
            match r {
                Some(v) => regex_captured(MAVEN_VERSION_PATTERN@, content@, 1) == Some(v@),
                None => regex_captured(MAVEN_VERSION_PATTERN@, content@, 1) is None,
            },
    {
        regex_capture(MAVEN_VERSION_PATTERN, content, 1)
    }

    /// The content with its first project version replaced by `new_version`.
    pub fn replace_version(&self, content: &str, new_version: &str) -> (r: Result<String, String>)
        ensures
            result_text(r) == maven_replaced(content@, new_version@),
    {
        if regex_is_match(MAVEN_REPLACE_PATTERN, content) {
            Ok(regex_replace_first(MAVEN_REPLACE_PATTERN, content, around_template_text(new_version).as_str()))
        } else {
            Err(String::from_str("No <version> tag found in pom.xml to replace"))
        }
    }
}

impl VersionUpdater for MavenUpdater {
    fn technology_name(&self) -> (r: &'static str)
        ensures
            r@ == "maven"@,
    {
        "maven"
    }

    fn can_handle(&self, files: &ProjectFiles) -> (r: bool)
        ensures
            r == files.spec_exists(MAVEN_POM@),
    {
        files.has_entry(MAVEN_POM)
    }

    fn validate_project(&self, files: &ProjectFiles, reads: &FileReads) -> (r: Result<(), String>)
        ensures
            unit_result(r) == if files.spec_exists(MAVEN_POM@) { Ok(()) } else { Err("pom.xml not found"@) },
    {
        if files.has_entry(MAVEN_POM) {
            Ok(())
        } else {
            Err(String::from_str("pom.xml not found"))
        }
    }

    fn get_primary_file(&self, files: &ProjectFiles) -> (r: Result<String, String>)
        ensures
            result_text(r) == if files.spec_exists(MAVEN_POM@) {
                Ok(path_in(*files, MAVEN_POM@))
            } else {
                Err("pom.xml not found"@)
            },
    {
        if files.has_entry(MAVEN_POM) {
            Ok(files.path_of(MAVEN_POM))
        } else {
            Err(String::from_str("pom.xml not found"))
        }
    }

    fn get_current_version(&self, files: &ProjectFiles, reads: &FileReads) -> (r: Result<String, String>)
        ensures
            result_text(r) == maven_current_version(*files, *reads),
    {
        let content = match read_file_safe(files, reads, MAVEN_POM) {
            Ok(c) => c,
            Err(e) => return Err(e),
        };
        match self.extract_version(content.as_str()) {
            Some(v) => Ok(v),
            None => Err(String::from_str("No <version> found in pom.xml")),
        }
    }

    fn update_version(&self, files: &ProjectFiles, reads: &FileReads, new_version: &str) -> (r: UpdatePlan)
        ensures
            plan_model(r) == maven_update_plan(*files, *reads, new_version@),
    {
        let p = files.path_of(MAVEN_POM);
        let mut steps: Vec<PlanStep> = Vec::new();
        steps.push(PlanStep::Backup(p.clone()));
        let ghost s0 = seq![StepModel::Backup(p@)];
        assert(steps@.map_values(|s: PlanStep| step_model(s)) =~= s0);
        let content = match read_file_safe(files, reads, MAVEN_POM) {
            Ok(c) => c,
            Err(e) => return UpdatePlan { steps, outcome: Err(e) },
        };
        let updated = match self.replace_version(content.as_str(), new_version) {
            Ok(u) => u,
            Err(e) => return UpdatePlan { steps, outcome: Err(e) },
        };
        let w = normalize_line_endings(updated.as_str());
        let ghost s1 = s0.push(StepModel::Write(p@, w@));
        steps.push(PlanStep::Write(p.clone(), w));
        assert(steps@.map_values(|s: PlanStep| step_model(s)) =~= s1);
        let updated_files: Vec<String> = vec![p];
        assert(updated_files@.map_values(|s: String| s@) =~= seq![p@]);
        UpdatePlan { steps, outcome: Ok(updated_files) }
    }

    fn preview_changes(&self, files: &ProjectFiles, reads: &FileReads, new_version: &str) -> (r: Result<Vec<VersionChange>, String>)
        ensures
            changes_result(r) == maven_preview(*files, *reads, new_version@),
    {
        if !files.has_entry(MAVEN_POM) {
            let changes: Vec<VersionChange> = Vec::new();
            assert(changes_model(changes@) =~= Seq::<ChangeModel>::empty());
            return Ok(changes);
        }
        let old_content = match read_file_safe(files, reads, MAVEN_POM) {
            Ok(c) => c,
            Err(e) => return Err(e),
        };
        let new_content = match self.replace_version(old_content.as_str(), new_version) {
            Ok(c) => c,
            Err(e) => return Err(e),
        };
        let old_version = match self.get_current_version(files, reads) {
            Ok(v) => v,
            Err(e) => return Err(e),
        };
        let change = VersionChange::new(files.path_of(MAVEN_POM), old_content, new_content, old_version, String::from_str(new_version));
        let changes = vec![change];
        assert(changes_model(changes@) =~= seq![change_model(change)]);
        Ok(changes)
    }
}

} // verus!
