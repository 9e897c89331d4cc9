//! Choosing the updater for a technology.
use crate::engine::detector::{
    detected, nothing_detected_message, technology_from_name, unsupported_technology_message,
    Technology, TechnologyDetector,
};
use crate::engine::project_files::ProjectFiles;
use crate::text::ascii_lower;
use crate::updaters::cargo::{
    cargo_current_version, cargo_preview, cargo_update_plan, cargo_updated_content, CargoUpdater, CARGO_TOML,
};
use crate::updaters::composer::{
    composer_current_version, composer_lock_updated, composer_preview, composer_update_plan,
    composer_updated_content, ComposerUpdater, COMPOSER_JSON, COMPOSER_LOCK,
};
use crate::updaters::generic::{
    found_version_file, generic_content_for, generic_current_version, generic_preview, generic_update_plan,
    generic_validation, target_version_file, GenericUpdater,
};
use crate::updaters::go::{
    go_current_version, go_preview, go_update_plan, with_v_prefix, GoUpdater, GO_MOD, GO_VERSION_FILE,
};
use crate::updaters::gradle::{
    any_gradle_file, gradle_current_version, gradle_file, gradle_plan_from, gradle_preview,
    gradle_preview_from, gradle_update_plan, gradle_updated_in,
    GradleUpdater,
};
use crate::updaters::maven::{
    maven_current_version, maven_preview, maven_replaced, maven_update_plan, MavenUpdater, MAVEN_POM,
};
use crate::updaters::npm::{
    npm_current_version, npm_lock_updated, npm_preview, npm_update_plan, npm_updated_content,
    npm_validation, NpmUpdater, PACKAGE_JSON, PACKAGE_LOCK,
};
use crate::updaters::python::{
    pyproject_updated, python_current_version, python_plan_setup, python_preview, python_update_plan,
    setup_updated, PythonUpdater, PYPROJECT_TOML, SETUP_PY,
};
use crate::updaters::traits::{
    changes_result, normalized, path_in, plan_model, read_safe, result_text, unit_result, ChangeModel,
    FileReads, PlanModel, StepModel, UpdatePlan, VersionChange, VersionUpdater,
};
use vstd::prelude::*;

verus! {

/// Whether the updater of `t` can handle the project.
pub open spec fn tech_can_handle(t: Technology, files: ProjectFiles) -> bool {
    match t {
        Technology::Npm => files.spec_exists(PACKAGE_JSON@),
        Technology::Cargo => files.spec_exists(CARGO_TOML@),
        Technology::Maven => files.spec_exists(MAVEN_POM@),
        Technology::Python => files.spec_exists(PYPROJECT_TOML@) || files.spec_exists(SETUP_PY@),
        Technology::Go => files.spec_exists(GO_MOD@),
        Technology::Composer => files.spec_exists(COMPOSER_JSON@),
        Technology::Gradle => any_gradle_file(files),
        Technology::Generic => found_version_file(files) is Some,
    }
}

/// A check that succeeds where a file exists.
pub open spec fn needs_file(files: ProjectFiles, name: Seq<char>, message: Seq<char>) -> Result<(), Seq<char>> {
    if files.spec_exists(name) {
        Ok(())
    } else {
        Err(message)
    }
}

/// The outcome of the updater of `t` checking the project.
pub open spec fn tech_validation(t: Technology, files: ProjectFiles, reads: FileReads) -> Result<(), Seq<char>> {
    match t {
        Technology::Npm => npm_validation(files, reads),
        Technology::Cargo => needs_file(files, CARGO_TOML@, "Cargo.toml not found"@),
        Technology::Maven => needs_file(files, MAVEN_POM@, "pom.xml not found"@),
        Technology::Python => if files.spec_exists(PYPROJECT_TOML@) || files.spec_exists(SETUP_PY@) {
            Ok(())
        } else {
            Err("No Python project files found (pyproject.toml, setup.py)"@)
        },
        Technology::Go => needs_file(files, GO_MOD@, "go.mod not found. Not a valid Go module project."@),
        Technology::Composer => needs_file(files, COMPOSER_JSON@, "composer.json not found. Not a valid Composer project."@),
        Technology::Gradle => if any_gradle_file(files) {
            Ok(())
        } else {
            Err("No Gradle files found. Not a valid Gradle project."@)
        },
        Technology::Generic => generic_validation(files, reads),
    }
}

/// The path of a file, where it exists.
pub open spec fn file_path_if(files: ProjectFiles, name: Seq<char>, message: Seq<char>) -> Result<Seq<char>, Seq<char>> {
    if files.spec_exists(name) {
        Ok(path_in(files, name))
    } else {
        Err(message)
    }
}

/// The primary file that the updater of `t` names.
pub open spec fn tech_primary_file(t: Technology, files: ProjectFiles) -> Result<Seq<char>, Seq<char>> {
    match t {
        Technology::Npm => file_path_if(files, PACKAGE_JSON@, "package.json not found"@),
        Technology::Cargo => file_path_if(files, CARGO_TOML@, "Cargo.toml not found"@),
        Technology::Maven => file_path_if(files, MAVEN_POM@, "pom.xml not found"@),
        Technology::Python => if files.spec_exists(PYPROJECT_TOML@) {
            Ok(path_in(files, PYPROJECT_TOML@))
        } else {
            file_path_if(files, SETUP_PY@, "No Python project files found"@)
        },
        Technology::Go => file_path_if(files, GO_MOD@, "go.mod not found"@),
        Technology::Composer => file_path_if(files, COMPOSER_JSON@, "composer.json not found"@),
        Technology::Gradle => if files.spec_exists(gradle_file(0)) {
            Ok(path_in(files, gradle_file(0)))
        } else if files.spec_exists(gradle_file(1)) {
            Ok(path_in(files, gradle_file(1)))
        } else {
            file_path_if(files, gradle_file(2), "No Gradle files found"@)
        },
        Technology::Generic => Ok(path_in(files, target_version_file(files))),
    }
}

/// The current version that the updater of `t` reads.
pub open spec fn tech_current_version(t: Technology, files: ProjectFiles, reads: FileReads) -> Result<Seq<char>, Seq<char>> {
    match t {
        Technology::Npm => npm_current_version(files, reads),
        Technology::Cargo => cargo_current_version(files, reads),
        Technology::Maven => maven_current_version(files, reads),
        Technology::Python => python_current_version(files, reads),
        Technology::Go => go_current_version(files, reads),
        Technology::Composer => composer_current_version(files, reads),
        Technology::Gradle => gradle_current_version(files, reads),
        Technology::Generic => generic_current_version(files, reads),
    }
}

/// The update to `v` that the updater of `t` plans.
pub open spec fn tech_update_plan(t: Technology, files: ProjectFiles, reads: FileReads, v: Seq<char>) -> PlanModel {
    match t {
        Technology::Npm => npm_update_plan(files, reads, v),
        Technology::Cargo => cargo_update_plan(files, reads, v),
        Technology::Maven => maven_update_plan(files, reads, v),
        Technology::Python => python_update_plan(files, reads, v),
        Technology::Go => go_update_plan(files, reads, v),
        Technology::Composer => composer_update_plan(files, reads, v),
        Technology::Gradle => gradle_update_plan(files, reads, v),
        Technology::Generic => generic_update_plan(files, reads, v),
    }
}

/// The changes to `v` that the updater of `t` previews.
pub open spec fn tech_preview(t: Technology, files: ProjectFiles, reads: FileReads, v: Seq<char>) -> Result<Seq<ChangeModel>, Seq<char>> {
    match t {
        Technology::Npm => npm_preview(files, reads, v),
        Technology::Cargo => cargo_preview(files, reads, v),
        Technology::Maven => maven_preview(files, reads, v),
        Technology::Python => python_preview(files, reads, v),
        Technology::Go => go_preview(files, reads, v),
        Technology::Composer => composer_preview(files, reads, v),
        Technology::Gradle => gradle_preview(files, reads, v),
        Technology::Generic => generic_preview(files, reads, v),
    }
}

/// The updater of one technology.
pub enum Updater {
    Npm(NpmUpdater),
    Cargo(CargoUpdater),
    Maven(MavenUpdater),
    Python(PythonUpdater),
    Go(GoUpdater),
    Composer(ComposerUpdater),
    Gradle(GradleUpdater),
    Generic(GenericUpdater),
}

impl Updater {
    /// The technology this updater handles.
    pub open spec fn technology(&self) -> Technology {
        match self {
            Updater::Npm(_) => Technology::Npm,
            Updater::Cargo(_) => Technology::Cargo,
            Updater::Maven(_) => Technology::Maven,
            Updater::Python(_) => Technology::Python,
            Updater::Go(_) => Technology::Go,
            Updater::Composer(_) => Technology::Composer,
            Updater::Gradle(_) => Technology::Gradle,
            Updater::Generic(_) => Technology::Generic,
        }
    }

    /// The updater of a technology.
    pub fn for_technology(t: Technology) -> (r: Self)
        ensures
            r.technology() == t,
    {
        match t {
            Technology::Npm => Updater::Npm(NpmUpdater::new()),
            Technology::Cargo => Updater::Cargo(CargoUpdater::new()),
            Technology::Maven => Updater::Maven(MavenUpdater::new()),
            Technology::Python => Updater::Python(PythonUpdater::new()),
            Technology::Go => Updater::Go(GoUpdater::new()),
            Technology::Composer => Updater::Composer(ComposerUpdater::new()),
            Technology::Gradle => Updater::Gradle(GradleUpdater::new()),
            Technology::Generic => Updater::Generic(GenericUpdater::new()),
        }
    }
}

impl VersionUpdater for Updater {
    fn technology_name(&self) -> (r: &'static str)
        ensures
            r@ == self.technology().spec_name(),
    {
        proof {
            reveal_strlit("npm");
            reveal_strlit("cargo");
            reveal_strlit("maven");
            reveal_strlit("python");
            reveal_strlit("go");
            reveal_strlit("composer");
            reveal_strlit("gradle");
            reveal_strlit("generic");
        }
        match self {
            Updater::Npm(u) => u.technology_name(),
            Updater::Cargo(u) => u.technology_name(),
            Updater::Maven(u) => u.technology_name(),
            Updater::Python(u) => u.technology_name(),
            Updater::Go(u) => u.technology_name(),
            Updater::Composer(u) => u.technology_name(),
            Updater::Gradle(u) => u.technology_name(),
            Updater::Generic(u) => u.technology_name(),
        }
    }

    fn can_handle(&self, files: &ProjectFiles) -> (r: bool)
        ensures
            r == tech_can_handle(self.technology(), *files),
    {
        match self {
            Updater::Npm(u) => u.can_handle(files),
            Updater::Cargo(u) => u.can_handle(files),
            Updater::Maven(u) => u.can_handle(files),
            Updater::Python(u) => u.can_handle(files),
            Updater::Go(u) => u.can_handle(files),
            Updater::Composer(u) => u.can_handle(files),
            Updater::Gradle(u) => u.can_handle(files),
            Updater::Generic(u) => u.can_handle(files),
        }
    }

    fn validate_project(&self, files: &ProjectFiles, reads: &FileReads) -> (r: Result<(), String>)
        ensures
            unit_result(r) == tech_validation(self.technology(), *files, *reads),
    {
        match self {
            Updater::Npm(u) => u.validate_project(files, reads),
            Updater::Cargo(u) => u.validate_project(files, reads),
            Updater::Maven(u) => u.validate_project(files, reads),
            Updater::Python(u) => u.validate_project(files, reads),
            Updater::Go(u) => u.validate_project(files, reads),
            Updater::Composer(u) => u.validate_project(files, reads),
            Updater::Gradle(u) => u.validate_project(files, reads),
            Updater::Generic(u) => u.validate_project(files, reads),
        }
    }

    fn get_primary_file(&self, files: &ProjectFiles) -> (r: Result<String, String>)
        ensures
            result_text(r) == tech_primary_file(self.technology(), *files),
    {
        match self {
            Updater::Npm(u) => u.get_primary_file(files),
            Updater::Cargo(u) => u.get_primary_file(files),
            Updater::Maven(u) => u.get_primary_file(files),
            Updater::Python(u) => u.get_primary_file(files),
            Updater::Go(u) => u.get_primary_file(files),
            Updater::Composer(u) => u.get_primary_file(files),
            Updater::Gradle(u) => u.get_primary_file(files),
            Updater::Generic(u) => u.get_primary_file(files),
        }
    }

    fn get_current_version(&self, files: &ProjectFiles, reads: &FileReads) -> (r: Result<String, String>)
        ensures
            result_text(r) == tech_current_version(self.technology(), *files, *reads),
    {
        match self {
            Updater::Npm(u) => u.get_current_version(files, reads),
            Updater::Cargo(u) => u.get_current_version(files, reads),
            Updater::Maven(u) => u.get_current_version(files, reads),
            Updater::Python(u) => u.get_current_version(files, reads),
            Updater::Go(u) => u.get_current_version(files, reads),
            Updater::Composer(u) => u.get_current_version(files, reads),
            Updater::Gradle(u) => u.get_current_version(files, reads),
            Updater::Generic(u) => u.get_current_version(files, reads),
        }
    }

    fn update_version(&self, files: &ProjectFiles, reads: &FileReads, new_version: &str) -> (r: UpdatePlan)
        ensures
            plan_model(r) == tech_update_plan(self.technology(), *files, *reads, new_version@),
    {
        match self {
            Updater::Npm(u) => u.update_version(files, reads, new_version),
            Updater::Cargo(u) => u.update_version(files, reads, new_version),
            Updater::Maven(u) => u.update_version(files, reads, new_version),
            Updater::Python(u) => u.update_version(files, reads, new_version),
            Updater::Go(u) => u.update_version(files, reads, new_version),
            Updater::Composer(u) => u.update_version(files, reads, new_version),
            Updater::Gradle(u) => u.update_version(files, reads, new_version),
            Updater::Generic(u) => u.update_version(files, reads, new_version),
        }
    }

    fn preview_changes(&self, files: &ProjectFiles, reads: &FileReads, new_version: &str) -> (r: Result<Vec<VersionChange>, String>)
        ensures
            changes_result(r) == tech_preview(self.technology(), *files, *reads, new_version@),
    {
        match self {
            Updater::Npm(u) => u.preview_changes(files, reads, new_version),
            Updater::Cargo(u) => u.preview_changes(files, reads, new_version),
            Updater::Maven(u) => u.preview_changes(files, reads, new_version),
            Updater::Python(u) => u.preview_changes(files, reads, new_version),
            Updater::Go(u) => u.preview_changes(files, reads, new_version),
            Updater::Composer(u) => u.preview_changes(files, reads, new_version),
            Updater::Gradle(u) => u.preview_changes(files, reads, new_version),
            Updater::Generic(u) => u.preview_changes(files, reads, new_version),
        }
    }
}

/// The technologies of the updaters tried on every project, in order.
pub open spec fn all_updater_techs() -> Seq<Technology> {
    seq![
        Technology::Npm,
        Technology::Cargo,
        Technology::Maven,
        Technology::Python,
        Technology::Go,
        Technology::Composer,
        Technology::Generic,
    ]
}

/// The technologies of `s` whose updater can handle the project, in order.
pub open spec fn compatible_techs(s: Seq<Technology>, files: ProjectFiles) -> Seq<Technology>
    decreases s.len(),
{
    if s.len() == 0 {
        s
    } else {
        let rest = compatible_techs(s.drop_last(), files);
        if tech_can_handle(s.last(), files) {
            rest.push(s.last())
        } else {
            rest
        }
    }
}

/// The technologies of a list of updaters.
pub open spec fn updater_techs(v: Seq<Updater>) -> Seq<Technology> {
    v.map_values(|u: Updater| u.technology())
}

/// Creates the updater for a technology.
pub struct UpdaterFactory;

impl UpdaterFactory {
    /// The updater for a technology named `technology` (any ASCII case; `golang`
    /// and `php` are accepted), or the error for an unsupported name.
    pub fn create(technology: &str) -> (r: Result<Updater, String>)
        ensures
            match technology_from_name(technology@) {
                Some(t) => r is Ok && r->Ok_0.technology() == t,
                None => r is Err && r->Err_0@ == unsupported_technology_message(technology@),
            },
    {
        match Technology::parse_name(technology) {
            Ok(t) => Ok(Updater::for_technology(t)),
            Err(e) => Err(e),
        }
    }

    /// The updater for the technology detected in the project.
    pub fn create_auto(files: &ProjectFiles) -> (r: Result<Updater, String>)
        ensures
            match detected(*files) {
                Some(t) => r is Ok && r->Ok_0.technology() == t,
                None => r is Err && r->Err_0@ == nothing_detected_message(files.root@),
            },
    {
        let detector = TechnologyDetector::new();
        let name = match detector.detect(files) {
            Ok(n) => n,
            Err(e) => return Err(e),
        };
        proof {
            if let Some(t) = detected(*files) {
                lemma_name_names_technology(t);
            }
        }
        Self::create(name.as_str())
    }

    /// The updaters tried on every project: npm, cargo, maven, python, go, composer
    /// and generic.
    pub fn get_all_updaters() -> (r: Vec<Updater>)
        ensures
            updater_techs(r@) == all_updater_techs(),
    {
        let r = vec![
            Updater::Npm(NpmUpdater::new()),
            Updater::Cargo(CargoUpdater::new()),
            Updater::Maven(MavenUpdater::new()),
            Updater::Python(PythonUpdater::new()),
            Updater::Go(GoUpdater::new()),
            Updater::Composer(ComposerUpdater::new()),
            Updater::Generic(GenericUpdater::new()),
        ];
        assert(updater_techs(r@) =~= all_updater_techs());
        r
    }

    /// The updaters, of those tried on every project, that can handle it, in order.
    pub fn find_compatible_updaters(files: &ProjectFiles) -> (r: Vec<Updater>)
        ensures
            updater_techs(r@) == compatible_techs(all_updater_techs(), *files),
    {
        let techs = vec![
            Technology::Npm,
            Technology::Cargo,
            Technology::Maven,
            Technology::Python,
            Technology::Go,
            Technology::Composer,
            Technology::Generic,
        ];
        assert(techs@ =~= all_updater_techs());
        let mut out: Vec<Updater> = Vec::new();
        let mut i: usize = 0;
        assert(techs@.subrange(0, 0) =~= Seq::<Technology>::empty());
        assert(updater_techs(out@) =~= Seq::<Technology>::empty());
        while i < techs.len()
            invariant
                techs@ == all_updater_techs(),
                i <= techs@.len(),
                updater_techs(out@) == compatible_techs(techs@.subrange(0, i as int), *files),
            decreases techs@.len() - i,
        {
            let u = Updater::for_technology(techs[i]);
            let ghost before = updater_techs(out@);
            assert(techs@.subrange(0, i + 1).drop_last() =~= techs@.subrange(0, i as int));
            if u.can_handle(files) {
                out.push(u);
                assert(updater_techs(out@) =~= before.push(u.technology()));
            }
            i = i + 1;
        }
        assert(techs@.subrange(0, techs@.len() as int) =~= techs@);
        out
    }
}

/// Whether every write among the steps comes after a backup of the same file.
pub open spec fn writes_backed_up(steps: Seq<StepModel>) -> bool {
    forall|i: int|
        0 <= i < steps.len() ==> match #[trigger] steps[i] {
            StepModel::Write(p, _) => exists|j: int| 0 <= j < i && steps[j] == StepModel::Backup(p),
            StepModel::Backup(_) => true,
        }
}

/// A backup and then a write of the same file keep every write backed up.
proof fn lemma_backup_then_write(steps: Seq<StepModel>, p: Seq<char>, c: Seq<char>)
    requires
        writes_backed_up(steps),
    ensures
        writes_backed_up(steps.push(StepModel::Backup(p))),
        writes_backed_up(steps.push(StepModel::Backup(p)).push(StepModel::Write(p, c))),
{
    let s1 = steps.push(StepModel::Backup(p));
    let s2 = s1.push(StepModel::Write(p, c));
    assert forall|i: int| 0 <= i < s1.len() implies match #[trigger] s1[i] {
        StepModel::Write(q, _) => exists|j: int| 0 <= j < i && s1[j] == StepModel::Backup(q),
        StepModel::Backup(_) => true,
    } by {
        if i < steps.len() {
            assert(s1[i] == steps[i]);
            if let StepModel::Write(q, _) = steps[i] {
                let j = choose|j: int| 0 <= j < i && steps[j] == StepModel::Backup(q);
                assert(s1[j] == steps[j]);
            }
        }
    }
    assert forall|i: int| 0 <= i < s2.len() implies match #[trigger] s2[i] {
        StepModel::Write(q, _) => exists|j: int| 0 <= j < i && s2[j] == StepModel::Backup(q),
        StepModel::Backup(_) => true,
    } by {
        if i < s1.len() {
            assert(s2[i] == s1[i]);
            if let StepModel::Write(q, _) = s1[i] {
                let j = choose|j: int| 0 <= j < i && s1[j] == StepModel::Backup(q);
                assert(s2[j] == s1[j]);
            }
        } else {
            assert(s2[s1.len() - 1] == StepModel::Backup(p));
        }
    }
}

/// The rest of a Gradle update keeps every write backed up.
proof fn lemma_gradle_backed_up(files: ProjectFiles, reads: FileReads, v: Seq<char>, k: int, steps: Seq<StepModel>, done: Seq<Seq<char>>)
    requires
        writes_backed_up(steps),
    ensures
        writes_backed_up(gradle_plan_from(files, reads, v, k, steps, done).0),
    decreases 3 - k,
{
    if k < 3 && files.spec_exists(gradle_file(k)) {
        let p = path_in(files, gradle_file(k));
        match read_safe(files, reads, gradle_file(k)) {
            Err(_) => {},
            Ok(c) => match gradle_updated_in(k, c, v) {
                Ok(n) => {
                    lemma_backup_then_write(steps, p, normalized(n));
                    lemma_gradle_backed_up(files, reads, v, k + 1, steps.push(StepModel::Backup(p)).push(StepModel::Write(p, normalized(n))), done.push(p));
                },
                Err(_) => lemma_gradle_backed_up(files, reads, v, k + 1, steps, done),
            },
        }
    } else if k < 3 {
        lemma_gradle_backed_up(files, reads, v, k + 1, steps, done);
    }
}

/// The steps of `setup.py` keep every write backed up.
proof fn lemma_python_setup_backed_up(files: ProjectFiles, reads: FileReads, v: Seq<char>, steps: Seq<StepModel>, done: Seq<Seq<char>>)
    requires
        writes_backed_up(steps),
    ensures
        writes_backed_up(python_plan_setup(files, reads, v, steps, done).0),
{
    let sp = path_in(files, SETUP_PY@);
    if files.spec_exists(SETUP_PY@) {
        if let Ok(c) = read_safe(files, reads, SETUP_PY@) {
            lemma_backup_then_write(steps, sp, normalized(setup_updated(c, v)));
        } else {
            lemma_backup_then_write(steps, sp, Seq::empty());
        }
    }
}

/// An update never writes a file before saving a backup of it, except a version
/// file that the generic updater creates because there was none.
pub proof fn lemma_writes_follow_backups(t: Technology, files: ProjectFiles, reads: FileReads, v: Seq<char>)
    requires
        t == Technology::Generic ==> files.spec_exists(target_version_file(files)),
    ensures
        writes_backed_up(tech_update_plan(t, files, reads, v).0),
{
    let e = Seq::<StepModel>::empty();
    assert(writes_backed_up(e));
    match t {
        Technology::Npm => {
            let pkg = path_in(files, PACKAGE_JSON@);
            let lock = path_in(files, PACKAGE_LOCK@);
            lemma_backup_then_write(e, pkg, Seq::empty());
            assert(seq![StepModel::Backup(pkg)] =~= e.push(StepModel::Backup(pkg)));
            if let Ok(c) = reads.spec_read(PACKAGE_JSON@) {
                if let Ok(u) = npm_updated_content(c, v) {
                    let s1 = seq![StepModel::Backup(pkg)].push(StepModel::Write(pkg, u));
                    lemma_backup_then_write(e, pkg, u);
                    lemma_backup_then_write(s1, lock, Seq::empty());
                    if let Ok(lc) = reads.spec_read(PACKAGE_LOCK@) {
                        if let Ok(lu) = npm_lock_updated(lc, v) {
                            lemma_backup_then_write(s1, lock, lu);
                        }
                    }
                }
            }
        },
        Technology::Cargo => {
            let p = path_in(files, CARGO_TOML@);
            lemma_backup_then_write(e, p, Seq::empty());
            assert(seq![StepModel::Backup(p)] =~= e.push(StepModel::Backup(p)));
            if let Ok(c) = read_safe(files, reads, CARGO_TOML@) {
                if let Ok(u) = cargo_updated_content(c, v) {
                    lemma_backup_then_write(e, p, normalized(u));
                }
            }
        },
        Technology::Maven => {
            let p = path_in(files, MAVEN_POM@);
            lemma_backup_then_write(e, p, Seq::empty());
            assert(seq![StepModel::Backup(p)] =~= e.push(StepModel::Backup(p)));
            if let Ok(c) = read_safe(files, reads, MAVEN_POM@) {
                if let Ok(u) = maven_replaced(c, v) {
                    lemma_backup_then_write(e, p, normalized(u));
                }
            }
        },
        Technology::Python => {
            let pp = path_in(files, PYPROJECT_TOML@);
            lemma_backup_then_write(e, pp, Seq::empty());
            assert(seq![StepModel::Backup(pp)] =~= e.push(StepModel::Backup(pp)));
            if files.spec_exists(PYPROJECT_TOML@) {
                if let Ok(c) = read_safe(files, reads, PYPROJECT_TOML@) {
                    if let Ok(u) = pyproject_updated(c, v) {
                        lemma_backup_then_write(e, pp, normalized(u));
                        lemma_python_setup_backed_up(files, reads, v, seq![StepModel::Backup(pp)].push(StepModel::Write(pp, normalized(u))), seq![pp]);
                    }
                }
            } else {
                lemma_python_setup_backed_up(files, reads, v, e, Seq::empty());
            }
        },
        Technology::Go => {
            let p = path_in(files, GO_VERSION_FILE@);
            lemma_backup_then_write(e, p, normalized(with_v_prefix(v)));
            assert(seq![StepModel::Backup(p), StepModel::Write(p, normalized(with_v_prefix(v)))] =~= e.push(StepModel::Backup(p)).push(StepModel::Write(p, normalized(with_v_prefix(v)))));
        },
        Technology::Composer => {
            let j = path_in(files, COMPOSER_JSON@);
            let l = path_in(files, COMPOSER_LOCK@);
            lemma_backup_then_write(e, j, Seq::empty());
            assert(seq![StepModel::Backup(j)] =~= e.push(StepModel::Backup(j)));
            if let Ok(c) = read_safe(files, reads, COMPOSER_JSON@) {
                if let Ok(n) = composer_updated_content(c, v) {
                    let s1 = seq![StepModel::Backup(j)].push(StepModel::Write(j, normalized(n)));
                    lemma_backup_then_write(e, j, normalized(n));
                    lemma_backup_then_write(s1, l, Seq::empty());
                    if let Ok(lc) = read_safe(files, reads, COMPOSER_LOCK@) {
                        if let Ok(ln) = composer_lock_updated(lc, v) {
                            lemma_backup_then_write(s1, l, normalized(ln));
                        }
                    }
                }
            }
        },
        Technology::Gradle => {
            lemma_gradle_backed_up(files, reads, v, 0, e, Seq::empty());
        },
        Technology::Generic => {
            let p = path_in(files, target_version_file(files));
            lemma_backup_then_write(e, p, Seq::empty());
            assert(seq![StepModel::Backup(p)] =~= e.push(StepModel::Backup(p)));
            if let Ok(o) = read_safe(files, reads, target_version_file(files)) {
                lemma_backup_then_write(e, p, normalized(generic_content_for(v, Some(o))));
            }
        },
    }
}

/// What an update writes for a previewed new content: the content itself for npm,
/// else the content with its line endings normalized.
pub open spec fn written_form(t: Technology, content: Seq<char>) -> Seq<char> {
    if t == Technology::Npm {
        content
    } else {
        normalized(content)
    }
}

/// Whether the steps write every previewed change as the updater of `t` writes it.
pub open spec fn writes_changes(t: Technology, files: ProjectFiles, cs: Seq<ChangeModel>, steps: Seq<StepModel>) -> bool {
    forall|i: int|
        0 <= i < cs.len() ==> #[trigger] steps.contains(StepModel::Write(cs[i].0, written_form(t, cs[i].2)))
}

/// What a sequence holds, it still holds with more at its end.
proof fn lemma_contains_push(s: Seq<StepModel>, a: StepModel, x: StepModel)
    requires
        s.contains(x),
    ensures
        s.push(a).contains(x),
{
    let j = choose|j: int| 0 <= j < s.len() && s[j] == x;
    assert(s.push(a)[j] == x);
}

/// The rest of a Gradle update writes what the rest of its preview lists.
proof fn lemma_gradle_writes_changes(files: ProjectFiles, reads: FileReads, v: Seq<char>, k: int, cs: Seq<ChangeModel>, steps: Seq<StepModel>, done: Seq<Seq<char>>)
    requires
        gradle_preview_from(files, reads, v, k, cs) is Ok,
        writes_changes(Technology::Gradle, files, cs, steps),
    ensures
        writes_changes(Technology::Gradle, files, gradle_preview_from(files, reads, v, k, cs)->Ok_0, gradle_plan_from(files, reads, v, k, steps, done).0),
    decreases 3 - k,
{
    if k < 3 && files.spec_exists(gradle_file(k)) {
        let p = path_in(files, gradle_file(k));
        match read_safe(files, reads, gradle_file(k)) {
            Err(_) => {},
            Ok(c) => match gradle_updated_in(k, c, v) {
                Ok(n) => {
                    let ov = gradle_current_version(files, reads)->Ok_0;
                    let cs2 = cs.push((p, c, n, ov, v));
                    let s2 = steps.push(StepModel::Backup(p)).push(StepModel::Write(p, normalized(n)));
                    assert forall|i: int| 0 <= i < cs2.len() implies #[trigger] s2.contains(StepModel::Write(cs2[i].0, written_form(Technology::Gradle, cs2[i].2))) by {
                        if i < cs.len() {
                            assert(cs2[i] == cs[i]);
                            assert(steps.contains(StepModel::Write(cs[i].0, written_form(Technology::Gradle, cs[i].2))));
                            lemma_contains_push(steps, StepModel::Backup(p), StepModel::Write(cs[i].0, written_form(Technology::Gradle, cs[i].2)));
                            lemma_contains_push(steps.push(StepModel::Backup(p)), StepModel::Write(p, normalized(n)), StepModel::Write(cs[i].0, written_form(Technology::Gradle, cs[i].2)));
                        } else {
                            assert(s2[steps.len() + 1int] == StepModel::Write(p, normalized(n)));
                        }
                    }
                    lemma_gradle_writes_changes(files, reads, v, k + 1, cs2, s2, done.push(p));
                },
                Err(_) => lemma_gradle_writes_changes(files, reads, v, k + 1, cs, steps, done),
            },
        }
    } else if k < 3 {
        lemma_gradle_writes_changes(files, reads, v, k + 1, cs, steps, done);
    }
}

/// The steps of `setup.py` keep the steps before them, and write the updated
/// `setup.py` where it exists and reads.
proof fn lemma_python_setup_writes(files: ProjectFiles, reads: FileReads, v: Seq<char>, steps: Seq<StepModel>, done: Seq<Seq<char>>, x: StepModel)
    ensures
        steps.contains(x) ==> python_plan_setup(files, reads, v, steps, done).0.contains(x),
        files.spec_exists(SETUP_PY@) && read_safe(files, reads, SETUP_PY@) is Ok ==> python_plan_setup(files, reads, v, steps, done).0.contains(
            StepModel::Write(path_in(files, SETUP_PY@), normalized(setup_updated(read_safe(files, reads, SETUP_PY@)->Ok_0, v))),
        ),
{
    let sp = path_in(files, SETUP_PY@);
    if files.spec_exists(SETUP_PY@) {
        let s1 = steps.push(StepModel::Backup(sp));
        if steps.contains(x) {
            lemma_contains_push(steps, StepModel::Backup(sp), x);
        }
        if let Ok(c) = read_safe(files, reads, SETUP_PY@) {
            let w = StepModel::Write(sp, normalized(setup_updated(c, v)));
            if steps.contains(x) {
                lemma_contains_push(s1, w, x);
            }
            assert(s1.push(w)[s1.len() as int] == w);
        }
    }
}

/// A preview shows what the update writes: every file that a successful preview
/// lists, the update writes with the previewed new content (its line endings
/// normalized, except for npm, which writes as it prints). For npm, whose
/// preview lists the lock file even where `package.json` cannot be updated, the
/// update is taken to succeed.
pub proof fn lemma_preview_matches_update(t: Technology, files: ProjectFiles, reads: FileReads, v: Seq<char>)
    requires
        tech_preview(t, files, reads, v) is Ok,
        t == Technology::Npm ==> tech_update_plan(t, files, reads, v).1 is Ok,
    ensures
        writes_changes(t, files, tech_preview(t, files, reads, v)->Ok_0, tech_update_plan(t, files, reads, v).0),
{
    let cs = tech_preview(t, files, reads, v)->Ok_0;
    let steps = tech_update_plan(t, files, reads, v).0;
    match t {
        Technology::Npm => {
            assert forall|i: int| 0 <= i < cs.len()
                implies #[trigger] steps.contains(StepModel::Write(cs[i].0, written_form(t, cs[i].2))) by {
                if files.spec_exists(PACKAGE_JSON@) {
                    if i == 0 {
                        assert(steps[1] == StepModel::Write(cs[0].0, cs[0].2));
                    } else {
                        assert(i == 1);
                        assert(steps[3] == StepModel::Write(cs[1].0, cs[1].2));
                    }
                } else {
                    assert(i == 0);
                    assert(steps[3] == StepModel::Write(cs[0].0, cs[0].2));
                }
            }
        },
        Technology::Cargo => {
            if cs.len() > 0 {
                assert(steps[1] == StepModel::Write(cs[0].0, normalized(cs[0].2)));
            }
        },
        Technology::Maven => {
            if cs.len() > 0 {
                assert(steps[1] == StepModel::Write(cs[0].0, normalized(cs[0].2)));
            }
        },
        Technology::Go => {
            if cs.len() > 0 {
                assert(steps[1] == StepModel::Write(cs[0].0, normalized(cs[0].2)));
            }
        },
        Technology::Generic => {
            let name = target_version_file(files);
            if files.spec_exists(name) {
                assert(steps[1] == StepModel::Write(cs[0].0, normalized(cs[0].2)));
            } else {
                assert(steps[0] == StepModel::Write(cs[0].0, normalized(cs[0].2)));
            }
        },
        Technology::Composer => {
            assert(steps[1] == StepModel::Write(cs[0].0, normalized(cs[0].2)));
            if cs.len() > 1 {
                assert(steps[3] == StepModel::Write(cs[1].0, normalized(cs[1].2)));
            }
        },
        Technology::Python => {
            let pp = path_in(files, PYPROJECT_TOML@);
            if files.spec_exists(PYPROJECT_TOML@) {
                let c = read_safe(files, reads, PYPROJECT_TOML@)->Ok_0;
                let u = pyproject_updated(c, v)->Ok_0;
                let s1 = seq![StepModel::Backup(pp)].push(StepModel::Write(pp, normalized(u)));
                let w0 = StepModel::Write(pp, normalized(u));
                assert(s1[1] == w0);
                lemma_python_setup_writes(files, reads, v, s1, seq![pp], w0);
                assert(cs[0].0 == pp && cs[0].2 == u);
            } else {
                lemma_python_setup_writes(files, reads, v, Seq::empty(), Seq::empty(), StepModel::Backup(pp));
            }
        },
        Technology::Gradle => {
            lemma_gradle_writes_changes(files, reads, v, 0, Seq::empty(), Seq::empty(), Seq::empty());
        },
    }
}

/// The name of a technology is read back as that technology.
pub proof fn lemma_name_names_technology(t: Technology)
    ensures
        technology_from_name(t.spec_name()) == Some(t),
{
    let n = t.spec_name();
    assert(ascii_lower(n) =~= n);
}

} // verus!
