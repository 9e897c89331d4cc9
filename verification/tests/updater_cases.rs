use autoversion::engine::project_files::ProjectFiles;
use autoversion::updaters::composer::ComposerUpdater;
use autoversion::updaters::generic::GenericUpdater;
use autoversion::updaters::go::GoUpdater;
use autoversion::updaters::gradle::GradleUpdater;
use autoversion::updaters::traits::{FileReads, PlanStep, UpdatePlan, VersionUpdater};

const ROOT: &str = "/srv/project";

/// A project directory holding the given files, with what reading them gives.
fn dir(files: &[(&str, &str)]) -> (ProjectFiles, FileReads) {
    let mut pf = ProjectFiles::new(ROOT);
    let mut reads = FileReads::new();
    for (name, content) in files {
        pf.add(name, true);
        reads.add(name, Ok(content.to_string()));
    }
    (pf, reads)
}

fn at(name: &str) -> String {
    format!("{}/{}", ROOT, name)
}

/// The content that a plan writes to a file, if any.
fn content_written(plan: &UpdatePlan, name: &str) -> Option<String> {
    let mut out = None;
    for step in &plan.steps {
        if let PlanStep::Write(p, c) = step {
            if *p == at(name) {
                out = Some(c.clone());
            }
        }
    }
    out
}

/// Whether a plan saves a backup of a file before it writes it.
fn backed_up_before_write(plan: &UpdatePlan, name: &str) -> bool {
    let backup = plan.steps.iter().position(|s| matches!(s, PlanStep::Backup(p) if *p == at(name)));
    let write = plan.steps.iter().position(|s| matches!(s, PlanStep::Write(p, _) if *p == at(name)));
    matches!((backup, write), (Some(b), Some(w)) if b < w)
}

#[test]
fn test_can_handle_with_composer_json() {
    let (pf, _) = dir(&[("composer.json", r#"{"name": "vendor/package", "version": "1.0.0"}"#)]);
    assert!(ComposerUpdater::new().can_handle(&pf), "Should detect composer.json");
}

#[test]
fn test_can_handle_without_composer_json() {
    let (pf, _) = dir(&[("index.php", "<?php\necho 'Hello';\n")]);
    assert!(!ComposerUpdater::new().can_handle(&pf), "Should not detect without composer.json");
}

#[test]
fn composer_test_validate_project_success() {
    let (pf, reads) = dir(&[("composer.json", r#"{"name": "vendor/package"}"#)]);
    assert!(ComposerUpdater::new().validate_project(&pf, &reads).is_ok());
}

#[test]
fn composer_test_get_current_version() {
    let (pf, reads) = dir(&[(
        "composer.json",
        r#"{
                "name": "vendor/package",
                "version": "1.2.3",
                "require": {
                    "php": "^8.0"
                }
            }"#,
    )]);
    assert_eq!(ComposerUpdater::new().get_current_version(&pf, &reads).unwrap(), "1.2.3");
}

#[test]
fn test_get_current_version_missing_field() {
    let (pf, reads) = dir(&[("composer.json", r#"{"name": "vendor/package"}"#)]);
    let result = ComposerUpdater::new().get_current_version(&pf, &reads);
    assert!(result.is_err());
    assert!(result.unwrap_err().contains("version"));
}

#[test]
fn test_update_version_composer_json() {
    let (pf, reads) = dir(&[("composer.json", r#"{"name": "vendor/package", "version": "1.0.0"}"#)]);
    let plan = ComposerUpdater::new().update_version(&pf, &reads, "2.0.0");
    let updated_files = plan.outcome.clone().unwrap();
    assert_eq!(updated_files.len(), 1);
    assert!(updated_files[0].contains("composer.json"));
    assert!(content_written(&plan, "composer.json").unwrap().contains("2.0.0"));
}

#[test]
fn test_update_preserves_json_structure() {
    let (pf, reads) = dir(&[(
        "composer.json",
        r#"{
                "name": "vendor/package",
                "version": "1.0.0",
                "require": {
                    "php": "^8.0",
                    "symfony/console": "^6.0"
                }
            }"#,
    )]);
    let plan = ComposerUpdater::new().update_version(&pf, &reads, "2.0.0");
    let content = content_written(&plan, "composer.json").unwrap();
    let json: serde_json::Value = serde_json::from_str(&content).unwrap();
    assert_eq!(json["version"], "2.0.0");
    assert_eq!(json["name"], "vendor/package");
    assert_eq!(json["require"]["php"], "^8.0");
}

#[test]
fn test_update_with_composer_lock() {
    let (pf, reads) = dir(&[
        ("composer.json", r#"{"name": "vendor/package", "version": "1.0.0"}"#),
        ("composer.lock", r#"{"packages": []}"#),
    ]);
    let updated_files = ComposerUpdater::new().update_version(&pf, &reads, "2.0.0").outcome.unwrap();
    assert_eq!(updated_files.len(), 2);
    assert!(updated_files.iter().any(|f| f.contains("composer.json")));
    assert!(updated_files.iter().any(|f| f.contains("composer.lock")));
}

#[test]
fn composer_test_preview_changes() {
    let (pf, reads) = dir(&[("composer.json", r#"{"name": "vendor/package", "version": "1.0.0"}"#)]);
    let changes = ComposerUpdater::new().preview_changes(&pf, &reads, "2.0.0").unwrap();
    assert_eq!(changes.len(), 1);
    assert_eq!(changes[0].old_version, "1.0.0");
    assert_eq!(changes[0].new_version, "2.0.0");
}

#[test]
fn composer_test_get_primary_file() {
    let (pf, _) = dir(&[("composer.json", r#"{"name": "vendor/package"}"#)]);
    assert!(ComposerUpdater::new().get_primary_file(&pf).unwrap().ends_with("composer.json"));
}

#[test]
fn composer_test_backup_created_on_update() {
    let (pf, reads) = dir(&[("composer.json", r#"{"name": "vendor/package", "version": "1.0.0"}"#)]);
    let plan = ComposerUpdater::new().update_version(&pf, &reads, "2.0.0");
    assert!(backed_up_before_write(&plan, "composer.json"), "Backup should be created");
}

#[test]
fn test_get_version_malformed_json() {
    let (pf, reads) = dir(&[("composer.json", r#"{"name": "vendor/package", "version": }"#)]);
    assert!(ComposerUpdater::new().get_current_version(&pf, &reads).is_err());
}

#[test]
fn test_update_without_composer_lock() {
    let (pf, reads) = dir(&[("composer.json", r#"{"name": "vendor/package", "version": "1.0.0"}"#)]);
    let updated_files = ComposerUpdater::new().update_version(&pf, &reads, "2.0.0").outcome.unwrap();
    assert_eq!(updated_files.len(), 1);
    assert!(updated_files[0].contains("composer.json"));
}

#[test]
fn test_can_handle_with_go_mod() {
    let (pf, _) = dir(&[("go.mod", "module github.com/user/project\n\ngo 1.21\n")]);
    assert!(GoUpdater::new().can_handle(&pf));
}

#[test]
fn test_can_handle_without_go_mod() {
    let (pf, _) = dir(&[("main.go", "package main\n")]);
    assert!(!GoUpdater::new().can_handle(&pf));
}

#[test]
fn go_test_validate_project_success() {
    let (pf, reads) = dir(&[("go.mod", "module test\n")]);
    assert!(GoUpdater::new().validate_project(&pf, &reads).is_ok());
}

#[test]
fn test_get_current_version_from_file() {
    let (pf, reads) = dir(&[("go.mod", "module test\n"), ("VERSION", "v1.2.3\n")]);
    assert_eq!(GoUpdater::new().get_current_version(&pf, &reads).unwrap(), "v1.2.3");
}

#[test]
fn test_get_current_version_adds_v_prefix() {
    let (pf, reads) = dir(&[("go.mod", "module test\n"), ("VERSION", "1.2.3\n")]);
    assert_eq!(GoUpdater::new().get_current_version(&pf, &reads).unwrap(), "v1.2.3");
}

#[test]
fn test_get_current_version_no_file() {
    let (pf, reads) = dir(&[("go.mod", "module test\n")]);
    let result = GoUpdater::new().get_current_version(&pf, &reads);
    assert!(result.is_err());
    assert!(result.unwrap_err().contains("VERSION file"));
}

#[test]
fn test_update_version_with_version_file() {
    let (pf, reads) = dir(&[("go.mod", "module test\n"), ("VERSION", "v1.0.0\n")]);
    let plan = GoUpdater::new().update_version(&pf, &reads, "1.2.3");
    let updated_files = plan.outcome.clone().unwrap();
    assert_eq!(updated_files.len(), 1);
    assert!(updated_files[0].contains("VERSION"));
    assert_eq!(content_written(&plan, "VERSION").unwrap().trim(), "v1.2.3");
}

#[test]
fn test_update_version_adds_v_prefix() {
    let (pf, reads) = dir(&[("go.mod", "module test\n"), ("VERSION", "1.0.0\n")]);
    let plan = GoUpdater::new().update_version(&pf, &reads, "2.0.0");
    assert_eq!(content_written(&plan, "VERSION").unwrap().trim(), "v2.0.0");
}

#[test]
fn test_update_version_without_version_file() {
    let (pf, reads) = dir(&[("go.mod", "module test\n")]);
    let updated_files = GoUpdater::new().update_version(&pf, &reads, "1.2.3").outcome.unwrap();
    assert_eq!(updated_files.len(), 0);
}

#[test]
fn test_preview_changes_with_version_file() {
    let (pf, reads) = dir(&[("go.mod", "module test\n"), ("VERSION", "v1.0.0\n")]);
    let changes = GoUpdater::new().preview_changes(&pf, &reads, "2.0.0").unwrap();
    assert_eq!(changes.len(), 1);
    assert_eq!(changes[0].old_version, "v1.0.0");
    assert_eq!(changes[0].new_version, "v2.0.0");
}

#[test]
fn test_preview_changes_without_version_file() {
    let (pf, reads) = dir(&[("go.mod", "module test\n")]);
    assert_eq!(GoUpdater::new().preview_changes(&pf, &reads, "1.0.0").unwrap().len(), 0);
}

#[test]
fn go_test_get_primary_file() {
    let (pf, _) = dir(&[("go.mod", "module test\n")]);
    assert!(GoUpdater::new().get_primary_file(&pf).unwrap().ends_with("go.mod"));
}

#[test]
fn go_test_backup_created_on_update() {
    let (pf, reads) = dir(&[("go.mod", "module test\n"), ("VERSION", "v1.0.0\n")]);
    let plan = GoUpdater::new().update_version(&pf, &reads, "1.2.3");
    assert!(backed_up_before_write(&plan, "VERSION"));
}

#[test]
fn test_can_handle_with_gradle_files() {
    let (pf, _) = dir(&[("build.gradle", "version = '1.0.0'")]);
    assert!(GradleUpdater::new().can_handle(&pf));
}

#[test]
fn test_get_version_from_properties() {
    let (pf, reads) = dir(&[("gradle.properties", "version=1.2.3\n")]);
    assert_eq!(GradleUpdater::new().get_current_version(&pf, &reads).unwrap(), "1.2.3");
}

#[test]
fn test_get_version_from_groovy_single_quotes() {
    let (pf, reads) = dir(&[("build.gradle", "version = '1.2.3'\n")]);
    assert_eq!(GradleUpdater::new().get_current_version(&pf, &reads).unwrap(), "1.2.3");
}

#[test]
fn test_get_version_from_groovy_double_quotes() {
    let (pf, reads) = dir(&[("build.gradle", "version = \"1.2.3\"\n")]);
    assert_eq!(GradleUpdater::new().get_current_version(&pf, &reads).unwrap(), "1.2.3");
}

#[test]
fn test_get_version_from_kotlin_dsl() {
    let (pf, reads) = dir(&[("build.gradle.kts", "version = \"1.2.3\"\n")]);
    assert_eq!(GradleUpdater::new().get_current_version(&pf, &reads).unwrap(), "1.2.3");
}

#[test]
fn test_update_version_in_properties() {
    let (pf, reads) = dir(&[("gradle.properties", "version=1.0.0\n")]);
    let plan = GradleUpdater::new().update_version(&pf, &reads, "2.0.0");
    assert_eq!(plan.outcome.as_ref().map(|v| v.len()), Ok(1));
    assert!(content_written(&plan, "gradle.properties").unwrap().contains("version=2.0.0"));
}

#[test]
fn test_update_version_in_groovy_preserves_quotes() {
    let (pf, reads) = dir(&[("build.gradle", "version = '1.0.0'\n")]);
    let plan = GradleUpdater::new().update_version(&pf, &reads, "2.0.0");
    assert!(content_written(&plan, "build.gradle").unwrap().contains("version = '2.0.0'"));
}

#[test]
fn test_update_version_in_kotlin_dsl() {
    let (pf, reads) = dir(&[("build.gradle.kts", "version = \"1.0.0\"\n")]);
    let plan = GradleUpdater::new().update_version(&pf, &reads, "2.0.0");
    assert!(content_written(&plan, "build.gradle.kts").unwrap().contains("version = \"2.0.0\""));
}

#[test]
fn gradle_test_validate_project_success() {
    let (pf, reads) = dir(&[("build.gradle", "version = '1.0.0'")]);
    assert!(GradleUpdater::new().validate_project(&pf, &reads).is_ok());
}

#[test]
fn test_get_primary_file_prefers_properties() {
    let (pf, _) = dir(&[("gradle.properties", "version=1.0.0"), ("build.gradle", "version = '1.0.0'")]);
    assert!(GradleUpdater::new().get_primary_file(&pf).unwrap().ends_with("gradle.properties"));
}

#[test]
fn gradle_test_preview_changes() {
    let (pf, reads) = dir(&[("build.gradle", "version = '1.0.0'\n")]);
    let changes = GradleUpdater::new().preview_changes(&pf, &reads, "2.0.0").unwrap();
    assert_eq!(changes.len(), 1);
    assert_eq!(changes[0].old_version, "1.0.0");
    assert_eq!(changes[0].new_version, "2.0.0");
}

#[test]
fn test_handles_snapshot_versions() {
    let (pf, reads) = dir(&[("gradle.properties", "version=1.2.3-SNAPSHOT\n")]);
    let updater = GradleUpdater::new();
    assert_eq!(updater.get_current_version(&pf, &reads).unwrap(), "1.2.3-SNAPSHOT");
    let plan = updater.update_version(&pf, &reads, "1.2.3");
    let content = content_written(&plan, "gradle.properties").unwrap();
    assert!(content.contains("version=1.2.3"));
    assert!(!content.contains("SNAPSHOT"));
}

#[test]
fn test_find_version_file() {
    let updater = GenericUpdater::new();
    let (empty, _) = dir(&[]);
    assert!(updater.find_version_file(&empty).is_none());
    let (pf, _) = dir(&[("VERSION", "1.0.0")]);
    assert_eq!(updater.find_version_file(&pf), Some("VERSION".to_string()));
}

#[test]
fn generic_test_get_current_version() {
    let (pf, reads) = dir(&[("VERSION", "1.2.3")]);
    assert_eq!(GenericUpdater::new().get_current_version(&pf, &reads).unwrap(), "1.2.3");
}

#[test]
fn test_update_version_existing_file() {
    let (pf, reads) = dir(&[("VERSION", "1.0.0")]);
    let updater = GenericUpdater::new();
    let plan = updater.update_version(&pf, &reads, "2.0.0");
    assert_eq!(plan.outcome.as_ref().map(|v| v.len()), Ok(1));
    let written = content_written(&plan, "VERSION").unwrap();
    let (pf2, reads2) = dir(&[("VERSION", written.as_str())]);
    assert_eq!(updater.get_current_version(&pf2, &reads2).unwrap(), "2.0.0");
}

#[test]
fn generic_test_can_handle() {
    let updater = GenericUpdater::new();
    let (empty, _) = dir(&[]);
    assert!(!updater.can_handle(&empty));
    let (pf, _) = dir(&[("VERSION", "1.0.0")]);
    assert!(updater.can_handle(&pf));
}

#[test]
fn generic_test_preview_changes() {
    let (pf, reads) = dir(&[("VERSION", "1.0.0")]);
    let changes = GenericUpdater::new().preview_changes(&pf, &reads, "2.0.0").unwrap();
    assert_eq!(changes.len(), 1);
    assert_eq!(changes[0].old_version, "1.0.0");
    assert_eq!(changes[0].new_version, "2.0.0");
    assert_eq!(changes[0].new_content, "2.0.0\n");
}
