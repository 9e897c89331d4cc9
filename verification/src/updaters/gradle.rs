//! Version of a Gradle project, in `gradle.properties`, `build.gradle` or
//! `build.gradle.kts`, looked at in that order.
use crate::engine::project_files::ProjectFiles;
use crate::regex_api::{
    regex_capture, regex_captured, regex_is_match, regex_matches, regex_replace_first,
    regex_replaced_first,
};
use crate::text::{chars_of, contains_char, opt_text, string_of, trim, trim_chars};
use crate::updaters::traits::{
    change_model, changes_model, changes_result, normalized, path_in, plan_model,
    read_file_safe, read_safe, result_text, step_model, unit_result, ChangeModel, FileReads,
    PlanModel, PlanStep, StepModel, UpdatePlan, VersionChange, VersionUpdater,
};
use crate::utils::files::normalize_line_endings;
use vstd::prelude::*;

verus! {

/// The properties file of a Gradle project.
pub const GRADLE_PROPERTIES: &'static str = "gradle.properties";

/// The Groovy build script of a Gradle project.
pub const GRADLE_BUILD: &'static str = "build.gradle";

/// The Kotlin build script of a Gradle project.
pub const GRADLE_BUILD_KTS: &'static str = "build.gradle.kts";

/// A `version=` line of `gradle.properties`; group 1 is the value.
pub const PROPERTIES_VERSION_PATTERN: &'static str = r"(?m)^version\s*=\s*(.+)$";

/// A whole `version=` line of `gradle.properties`.
pub const PROPERTIES_REPLACE_PATTERN: &'static str = r"(?m)^version\s*=\s*.+$";

/// A quoted version declaration of `build.gradle`; group 1 is the version.
pub const GROOVY_VERSION_PATTERN: &'static str = r#"(?m)^\s*version\s*=?\s*['"]([^'"]+)['"]"#;

/// The same, with the text before the quote as group 1.
pub const GROOVY_REPLACE_PATTERN: &'static str = r#"(?m)^(\s*version\s*=?\s*)['"]([^'"]+)['"]"#;

/// A `version = "..."` declaration of `build.gradle.kts`; group 1 is the version.
pub const KOTLIN_VERSION_PATTERN: &'static str = r#"(?m)^\s*version\s*=\s*"([^"]+)""#;

/// The same, with the text before the quote as group 1.
pub const KOTLIN_REPLACE_PATTERN: &'static str = r#"(?m)^(\s*version\s*=\s*)"([^"]+)""#;

/// The Gradle files in the order they are looked at.
pub open spec fn gradle_file(k: int) -> Seq<char> {
    if k == 0 {
        GRADLE_PROPERTIES@
    } else if k == 1 {
        GRADLE_BUILD@
    } else {
        GRADLE_BUILD_KTS@
    }
}

/// The version that the content of Gradle file `k` declares.
pub open spec fn gradle_version_in(k: int, content: Seq<char>) -> Option<Seq<char>> {
    if k == 0 {
        match regex_captured(PROPERTIES_VERSION_PATTERN@, content, 1) {
            Some(v) => Some(trim(v)),
            None => None,
        }
    } else if k == 1 {
        regex_captured(GROOVY_VERSION_PATTERN@, content, 1)
    } else {
        regex_captured(KOTLIN_VERSION_PATTERN@, content, 1)
    }
}

/// The quote that a Groovy declaration uses: `'` where the match holds one.
pub open spec fn groovy_quote(whole: Seq<char>) -> char {
    if whole.contains('\'') {
        '\''
    } else {
        '"'
    }
}

/// The content of Gradle file `k` with its version declaration set to `v`.
pub open spec fn gradle_updated_in(k: int, content: Seq<char>, v: Seq<char>) -> Result<Seq<char>, Seq<char>> {
    if k == 0 {
        if regex_matches(PROPERTIES_REPLACE_PATTERN@, content) {
            Ok(regex_replaced_first(PROPERTIES_REPLACE_PATTERN@, content, "version="@ + v))
        } else {
            Err("No version property found in gradle.properties"@)
        }
    } else if k == 1 {
        match regex_captured(GROOVY_REPLACE_PATTERN@, content, 0) {
            None => Err("No version declaration found in build.gradle"@),
            Some(whole) => {
                let q = groovy_quote(whole);
                let head = match regex_captured(GROOVY_REPLACE_PATTERN@, content, 1) {
                    Some(g) => g,
                    None => Seq::empty(),
                };
                Ok(regex_replaced_first(GROOVY_REPLACE_PATTERN@, content, head + seq![q] + v + seq![q]))
            },
        }
    } else {
        if regex_matches(KOTLIN_REPLACE_PATTERN@, content) {
            Ok(regex_replaced_first(KOTLIN_REPLACE_PATTERN@, content, "${1}\""@ + v + "\""@))
        } else {
            Err("No version declaration found in build.gradle.kts"@)
        }
    }
}

/// The first version declared by the Gradle files from `k` on.
pub open spec fn gradle_version_from(files: ProjectFiles, reads: FileReads, k: int) -> Result<Seq<char>, Seq<char>>
    decreases 3 - k,
{
    if k >= 3 {
        Err("No version found in Gradle files"@)
    } else if files.spec_exists(gradle_file(k)) {
        match read_safe(files, reads, gradle_file(k)) {
            Err(e) => Err(e),
            Ok(c) => match gradle_version_in(k, c) {
                Some(v) => Ok(v),
                None => gradle_version_from(files, reads, k + 1),
            },
        }
    } else {
        gradle_version_from(files, reads, k + 1)
    }
}

/// The current version of a Gradle project.
pub open spec fn gradle_current_version(files: ProjectFiles, reads: FileReads) -> Result<Seq<char>, Seq<char>> {
    gradle_version_from(files, reads, 0)
}

/// The rest of an update from Gradle file `k` on: each file whose declaration can be
/// rewritten is backed up and written; a file that cannot be rewritten is skipped.
pub open spec fn gradle_plan_from(files: ProjectFiles, reads: FileReads, v: Seq<char>, k: int, steps: Seq<StepModel>, done: Seq<Seq<char>>) -> PlanModel
    decreases 3 - k,
{
    if k >= 3 {
        if done.len() == 0 {
            (steps, Err("No Gradle files were updated"@))
        } else {
            (steps, Ok(done))
        }
    } else if files.spec_exists(gradle_file(k)) {
        let p = path_in(files, gradle_file(k));
        match read_safe(files, reads, gradle_file(k)) {
            Err(e) => (steps, Err(e)),
            Ok(c) => match gradle_updated_in(k, c, v) {
                Ok(n) => gradle_plan_from(files, reads, v, k + 1, steps.push(StepModel::Backup(p)).push(StepModel::Write(p, normalized(n))), done.push(p)),
                Err(_) => gradle_plan_from(files, reads, v, k + 1, steps, done),
            },
        }
    } else {
        gradle_plan_from(files, reads, v, k + 1, steps, done)
    }
}

/// The update of a Gradle project to `v`.
pub open spec fn gradle_update_plan(files: ProjectFiles, reads: FileReads, v: Seq<char>) -> PlanModel {
    gradle_plan_from(files, reads, v, 0, Seq::empty(), Seq::empty())
}

/// The changes from Gradle file `k` on, after the changes `cs`.
pub open spec fn gradle_preview_from(files: ProjectFiles, reads: FileReads, v: Seq<char>, k: int, cs: Seq<ChangeModel>) -> Result<Seq<ChangeModel>, Seq<char>>
    decreases 3 - k,
{
    if k >= 3 {
        Ok(cs)
    } else if files.spec_exists(gradle_file(k)) {
        match read_safe(files, reads, gradle_file(k)) {
            Err(e) => Err(e),
            Ok(c) => match gradle_updated_in(k, c, v) {
                Ok(n) => match gradle_current_version(files, reads) {
                    Err(e) => Err(e),
                    Ok(ov) => gradle_preview_from(files, reads, v, k + 1, cs.push((path_in(files, gradle_file(k)), c, n, ov, v))),
                },
                Err(_) => gradle_preview_from(files, reads, v, k + 1, cs),
            },
        }
    } else {
        gradle_preview_from(files, reads, v, k + 1, cs)
    }
}

/// The changes that setting a Gradle project's version to `v` would make.
pub open spec fn gradle_preview(files: ProjectFiles, reads: FileReads, v: Seq<char>) -> Result<Seq<ChangeModel>, Seq<char>> {
    gradle_preview_from(files, reads, v, 0, Seq::empty())
}

/// Whether any Gradle file exists.
pub open spec fn any_gradle_file(files: ProjectFiles) -> bool {
    files.spec_exists(gradle_file(0)) || files.spec_exists(gradle_file(1)) || files.spec_exists(gradle_file(2))
}

/// The name of Gradle file `k`.
fn gradle_file_name(k: usize) -> (r: &'static str)
    requires
        k < 3,
    ensures
        r@ == gradle_file(k as int),
{
    if k == 0 {
        GRADLE_PROPERTIES
    } else if k == 1 {
        GRADLE_BUILD
    } else {
        GRADLE_BUILD_KTS
    }
}

/// Reads and updates the version of a Gradle project.
pub struct GradleUpdater;

impl GradleUpdater {
    pub fn new() -> (r: Self) {
        GradleUpdater
    }

    /// The paths of the Gradle files that exist, in the order they are looked at.
    pub fn find_gradle_files(&self, files: &ProjectFiles) -> (r: Vec<String>)
        ensures
            r@.len() == 0 <==> !any_gradle_file(*files),
            forall|i: int| 0 <= i < r@.len() ==> exists|k: int| 0 <= k < 3 && files.spec_exists(gradle_file(k)) && (#[trigger] r@[i])@ == path_in(*files, gradle_file(k)),
    {
        let mut out: Vec<String> = Vec::new();
        let mut k: usize = 0;
        while k < 3
            invariant
                k <= 3,
                out@.len() == 0 <==> (forall|j: int| 0 <= j < k ==> !files.spec_exists(#[trigger] gradle_file(j))),
                forall|i: int| 0 <= i < out@.len() ==> exists|j: int| 0 <= j < 3 && files.spec_exists(gradle_file(j)) && (#[trigger] out@[i])@ == path_in(*files, gradle_file(j)),
            decreases 3 - k,
        {
            let name = gradle_file_name(k);
            if files.has_entry(name) {
                out.push(files.path_of(name));
            }
            k = k + 1;
        }
        assert(!any_gradle_file(*files) <==> forall|j: int| 0 <= j < 3 ==> !files.spec_exists(#[trigger] gradle_file(j))) by {
            assert(gradle_file(0) == GRADLE_PROPERTIES@);
        }
        out
    }

    /// The version that the content of Gradle file `k` declares.
    fn version_in(&self, k: usize, content: &str) -> (r: Option<String>)
        requires
            k < 3,
        ensures
            opt_text(r) == gradle_version_in(k as int, content@),
    {
        if k == 0 {
            match regex_capture(PROPERTIES_VERSION_PATTERN, content, 1) {
                Some(v) => Some(string_of(&trim_chars(&chars_of(v.as_str())))),
                None => None,
            }
        } else if k == 1 {
            regex_capture(GROOVY_VERSION_PATTERN, content, 1)
        } else {
            regex_capture(KOTLIN_VERSION_PATTERN, content, 1)
        }
    }

    /// The content of `gradle.properties` with its version line set to `new_version`.
    pub fn update_properties_content(&self, content: &str, new_version: &str) -> (r: Result<String, String>)
        ensures
            result_text(r) == gradle_updated_in(0, content@, new_version@),
    {
        if regex_is_match(PROPERTIES_REPLACE_PATTERN, content) {
            let replacement = String::from_str("version=").concat(new_version);
            Ok(regex_replace_first(PROPERTIES_REPLACE_PATTERN, content, replacement.as_str()))
        } else {
            Err(String::from_str("No version property found in gradle.properties"))
        }
    }

    /// The content of `build.gradle` with its version declaration set to
    /// `new_version`, in the quotes it used.
    pub fn update_groovy_content(&self, content: &str, new_version: &str) -> (r: Result<String, String>)
        ensures
            result_text(r) == gradle_updated_in(1, content@, new_version@),
    {
        match regex_capture(GROOVY_REPLACE_PATTERN, content, 0) {
            None => Err(String::from_str("No version declaration found in build.gradle")),
            Some(whole) => {
                let q = if contains_char(&chars_of(whole.as_str()), '\'') { '\'' } else { '"' };
                let mut rep: Vec<char> = match regex_capture(GROOVY_REPLACE_PATTERN, content, 1) {
                    Some(g) => chars_of(g.as_str()),
                    None => Vec::new(),
                };
                let ghost head = rep@;
                rep.push(q);
                crate::text::append_chars(&mut rep, &chars_of(new_version));
                rep.push(q);
                assert(rep@ =~= head + seq![q] + new_version@ + seq![q]);
                Ok(regex_replace_first(GROOVY_REPLACE_PATTERN, content, string_of(&rep).as_str()))
            },
        }
    }

    /// The content of `build.gradle.kts` with its version declaration set to
    /// `new_version`.
    pub fn update_kotlin_content(&self, content: &str, new_version: &str) -> (r: Result<String, String>)
        ensures
            result_text(r) == gradle_updated_in(2, content@, new_version@),
    {
        if regex_is_match(KOTLIN_REPLACE_PATTERN, content) {
            let replacement = String::from_str("${1}\"").concat(new_version).concat("\"");
            Ok(regex_replace_first(KOTLIN_REPLACE_PATTERN, content, replacement.as_str()))
        } else {
            Err(String::from_str("No version declaration found in build.gradle.kts"))
        }
    }

    /// The content of Gradle file `k` with its version set to `new_version`.
    fn updated_in(&self, k: usize, content: &str, new_version: &str) -> (r: Result<String, String>)
        requires
            k < 3,
        ensures
            result_text(r) == gradle_updated_in(k as int, content@, new_version@),
    {
        if k == 0 {
            self.update_properties_content(content, new_version)
        } else if k == 1 {
            self.update_groovy_content(content, new_version)
        } else {
            self.update_kotlin_content(content, new_version)
        }
    }
}

impl VersionUpdater for GradleUpdater {
    fn technology_name(&self) -> (r: &'static str)
        ensures
            r@ == "gradle"@,
    {
        "gradle"
    }

    fn can_handle(&self, files: &ProjectFiles) -> (r: bool)
        ensures
            r == any_gradle_file(*files),
    {
        self.find_gradle_files(files).len() > 0
    }

    fn validate_project(&self, files: &ProjectFiles, reads: &FileReads) -> (r: Result<(), String>)
        ensures
            unit_result(r) == if any_gradle_file(*files) {
                Ok(())
            } else {
                Err("No Gradle files found. Not a valid Gradle project."@)
            },
    {
        if self.find_gradle_files(files).len() == 0 {
            Err(String::from_str("No Gradle files found. Not a valid Gradle project."))
        } else {
            Ok(())
        }
    }

    fn get_primary_file(&self, files: &ProjectFiles) -> (r: Result<String, String>)
        ensures
            result_text(r) == if files.spec_exists(gradle_file(0)) {
                Ok(path_in(*files, gradle_file(0)))
            } else if files.spec_exists(gradle_file(1)) {
                Ok(path_in(*files, gradle_file(1)))
            } else if files.spec_exists(gradle_file(2)) {
                Ok(path_in(*files, gradle_file(2)))
            } else {
                Err("No Gradle files found"@)
            },
    {
        if files.has_entry(GRADLE_PROPERTIES) {
            return Ok(files.path_of(GRADLE_PROPERTIES));
        }
        if files.has_entry(GRADLE_BUILD) {
            return Ok(files.path_of(GRADLE_BUILD));
        }
        if files.has_entry(GRADLE_BUILD_KTS) {
            return Ok(files.path_of(GRADLE_BUILD_KTS));
        }
        Err(String::from_str("No Gradle files found"))
    }

    fn get_current_version(&self, files: &ProjectFiles, reads: &FileReads) -> (r: Result<String, String>)
        ensures
            result_text(r) == gradle_current_version(*files, *reads),
    {
        let mut k: usize = 0;
        while k < 3
            invariant
                k <= 3,
                gradle_version_from(*files, *reads, k as int) == gradle_version_from(*files, *reads, 0),
            decreases 3 - k,
        {
            let name = gradle_file_name(k);
            if files.has_entry(name) {
                let content = match read_file_safe(files, reads, name) {
                    Ok(c) => c,
                    Err(e) => return Err(e),
                };
                if let Some(v) = self.version_in(k, content.as_str()) {
                    return Ok(v);
                }
            }
            k = k + 1;
        }
        Err(String::from_str("No version found in Gradle files"))
    }

    fn update_version(&self, files: &ProjectFiles, reads: &FileReads, new_version: &str) -> (r: UpdatePlan)
        ensures
            plan_model(r) == gradle_update_plan(*files, *reads, new_version@),
    {
        let mut steps: Vec<PlanStep> = Vec::new();
        let mut done: Vec<String> = Vec::new();
        let mut k: usize = 0;
        assert(steps@.map_values(|s: PlanStep| step_model(s)) =~= Seq::<StepModel>::empty());
        assert(done@.map_values(|s: String| s@) =~= Seq::<Seq<char>>::empty());
        while k < 3
            invariant
                k <= 3,
                gradle_plan_from(*files, *reads, new_version@, k as int, steps@.map_values(|s: PlanStep| step_model(s)), done@.map_values(|s: String| s@))
                    == gradle_update_plan(*files, *reads, new_version@),
            decreases 3 - k,
        {
            let name = gradle_file_name(k);
            if files.has_entry(name) {
                let content = match read_file_safe(files, reads, name) {
                    Ok(c) => c,
                    Err(e) => return UpdatePlan { steps, outcome: Err(e) },
                };
                if let Ok(n) = self.updated_in(k, content.as_str(), new_version) {
                    let p = files.path_of(name);
                    let w = normalize_line_endings(n.as_str());
                    let ghost s0 = steps@.map_values(|s: PlanStep| step_model(s));
                    let ghost d0 = done@.map_values(|s: String| s@);
                    steps.push(PlanStep::Backup(p.clone()));
                    steps.push(PlanStep::Write(p.clone(), w));
                    assert(steps@.map_values(|s: PlanStep| step_model(s)) =~= s0.push(StepModel::Backup(p@)).push(StepModel::Write(p@, w@)));
                    done.push(p);
                    assert(done@.map_values(|s: String| s@) =~= d0.push(p@));
                }
            }
            k = k + 1;
        }
        if done.len() == 0 {
            UpdatePlan { steps, outcome: Err(String::from_str("No Gradle files were updated")) }
        } else {
            UpdatePlan { steps, outcome: Ok(done) }
        }
    }

    fn preview_changes(&self, files: &ProjectFiles, reads: &FileReads, new_version: &str) -> (r: Result<Vec<VersionChange>, String>)
        ensures
            changes_result(r) == gradle_preview(*files, *reads, new_version@),
    {
        let mut changes: Vec<VersionChange> = Vec::new();
        let mut k: usize = 0;
        assert(changes_model(changes@) =~= Seq::<ChangeModel>::empty());
        while k < 3
            invariant
                k <= 3,
                gradle_preview_from(*files, *reads, new_version@, k as int, changes_model(changes@))
                    == gradle_preview(*files, *reads, new_version@),
            decreases 3 - k,
        {
            let name = gradle_file_name(k);
            if files.has_entry(name) {
                let content = match read_file_safe(files, reads, name) {
                    Ok(c) => c,
                    Err(e) => return Err(e),
                };
                if let Ok(n) = self.updated_in(k, content.as_str(), new_version) {
                    let old_version = match self.get_current_version(files, reads) {
                        Ok(v) => v,
                        Err(e) => return Err(e),
                    };
                    let ghost c0 = changes_model(changes@);
                    let change = VersionChange::new(files.path_of(name), content, n, old_version, String::from_str(new_version));
                    changes.push(change);
                    assert(changes_model(changes@) =~= c0.push(change_model(change)));
                }
            }
            k = k + 1;
        }
        Ok(changes)
    }
}

/// The current version of a Gradle project is the first version that its Gradle
/// files declare, in the order `gradle.properties`, `build.gradle`,
/// `build.gradle.kts`: a file that is absent, or present and read but declaring
/// no version, is passed over, and the search goes on to the next.
pub proof fn lemma_gradle_first_declared_version(files: ProjectFiles, reads: FileReads, j: int, v: Seq<char>)
    requires
        0 <= j < 3,
        files.spec_exists(gradle_file(j)),
        read_safe(files, reads, gradle_file(j)) is Ok,
        gradle_version_in(j, read_safe(files, reads, gradle_file(j))->Ok_0) == Some(v),
        forall|i: int| 0 <= i < j && files.spec_exists(#[trigger] gradle_file(i)) ==> read_safe(files, reads, gradle_file(i)) is Ok
            && gradle_version_in(i, read_safe(files, reads, gradle_file(i))->Ok_0) is None,
    ensures
        gradle_current_version(files, reads) == Ok::<Seq<char>, Seq<char>>(v),
{
    lemma_gradle_version_from(files, reads, j, v, 0);
}

proof fn lemma_gradle_version_from(files: ProjectFiles, reads: FileReads, j: int, v: Seq<char>, k: int)
    requires
        0 <= k <= j < 3,
        files.spec_exists(gradle_file(j)),
        read_safe(files, reads, gradle_file(j)) is Ok,
        gradle_version_in(j, read_safe(files, reads, gradle_file(j))->Ok_0) == Some(v),
        forall|i: int| 0 <= i < j && files.spec_exists(#[trigger] gradle_file(i)) ==> read_safe(files, reads, gradle_file(i)) is Ok
            && gradle_version_in(i, read_safe(files, reads, gradle_file(i))->Ok_0) is None,
    ensures
        gradle_version_from(files, reads, k) == Ok::<Seq<char>, Seq<char>>(v),
    decreases j - k,
{
    if k < j {
        lemma_gradle_version_from(files, reads, j, v, k + 1);
    }
}

} // verus!
