use autoversion::engine::project_files::ProjectFiles;
use autoversion::updaters::cargo::CargoUpdater;
use autoversion::updaters::composer::ComposerUpdater;
use autoversion::updaters::factory::UpdaterFactory;
use autoversion::updaters::generic::GenericUpdater;
use autoversion::updaters::go::GoUpdater;
use autoversion::updaters::gradle::GradleUpdater;
use autoversion::updaters::maven::MavenUpdater;
use autoversion::updaters::npm::NpmUpdater;
use autoversion::updaters::python::PythonUpdater;
use autoversion::updaters::traits::{FileReads, PlanStep, UpdatePlan, VersionUpdater};

const ROOT: &str = "/work/app";
const MISSING: &str = "No such file or directory (os error 2)";
const KNOWN: &[&str] = &[
    "package.json",
    "package-lock.json",
    "Cargo.toml",
    "pom.xml",
    "pyproject.toml",
    "setup.py",
    "go.mod",
    "composer.json",
    "composer.lock",
    "gradle.properties",
    "build.gradle",
    "build.gradle.kts",
    "VERSION",
    "version.txt",
    ".version",
    "version",
    "VERSION.txt",
];

fn project(files: &[(&str, &str)]) -> (ProjectFiles, FileReads) {
    let mut pf = ProjectFiles::new(ROOT);
    let mut reads = FileReads::new();
    for (name, content) in files {
        pf.add(name, true);
        reads.add(name, Ok(content.to_string()));
    }
    for name in KNOWN {
        if !files.iter().any(|(n, _)| n == name) {
            reads.add(name, Err(MISSING.to_string()));
        }
    }
    (pf, reads)
}

fn path(name: &str) -> String {
    format!("{}/{}", ROOT, name)
}

fn written(plan: &UpdatePlan, name: &str) -> Option<String> {
    let mut out = None;
    for step in &plan.steps {
        if let PlanStep::Write(p, c) = step {
            if *p == path(name) {
                out = Some(c.clone());
            }
        }
    }
    out
}

fn after(files: &[(&str, &str)], plan: &UpdatePlan) -> Vec<(String, String)> {
    let mut out: Vec<(String, String)> = files.iter().map(|(n, c)| (n.to_string(), c.to_string())).collect();
    for (n, c) in out.iter_mut() {
        if let Some(w) = written(plan, n) {
            *c = w;
        }
    }
    out
}

fn project_of(files: &[(String, String)]) -> (ProjectFiles, FileReads) {
    let borrowed: Vec<(&str, &str)> = files.iter().map(|(n, c)| (n.as_str(), c.as_str())).collect();
    project(&borrowed)
}

fn cargo_toml(version: &str) -> String {
    format!("[package]\nname = \"test-package\"\nversion = \"{}\"\n\n[dependencies]\n", version)
}

fn pom(version: &str) -> String {
    format!(
        "<project>\n  <modelVersion>4.0.0</modelVersion>\n  <groupId>com.example</groupId>\n  <artifactId>test</artifactId>\n  <version>{}</version>\n</project>",
        version
    )
}

fn package_json(version: &str) -> String {
    format!(
        "{{\n  \"name\": \"test-package\",\n  \"version\": \"{}\",\n  \"description\": \"Test package\",\n  \"main\": \"index.js\",\n  \"dependencies\": {{\n    \"lodash\": \"^4.17.21\"\n  }}\n}}",
        version
    )
}

fn package_lock(version: &str) -> String {
    format!(
        "{{\n  \"name\": \"test-package\",\n  \"version\": \"{}\",\n  \"lockfileVersion\": 2,\n  \"requires\": true,\n  \"packages\": {{\n    \"\": {{\n      \"name\": \"test-package\",\n      \"version\": \"{}\",\n      \"dependencies\": {{\n        \"lodash\": \"^4.17.21\"\n      }}\n    }}\n  }}\n}}",
        version, version
    )
}

fn pyproject(version: &str) -> String {
    format!("[project]\nname = \"test\"\nversion = \"{}\"\n", version)
}

fn setup_py(version: &str) -> String {
    format!("from setuptools import setup\nsetup(name=\"test\", version=\"{}\")\n", version)
}

#[test]
fn cargo_test_technology_name() {
    assert_eq!(CargoUpdater::new().technology_name(), "cargo");
}

#[test]
fn composer_test_technology_name() {
    assert_eq!(ComposerUpdater::new().technology_name(), "composer");
}

#[test]
fn generic_test_technology_name() {
    assert_eq!(GenericUpdater::new().technology_name(), "generic");
}

#[test]
fn go_test_technology_name() {
    assert_eq!(GoUpdater::new().technology_name(), "go");
}

#[test]
fn gradle_test_technology_name() {
    assert_eq!(GradleUpdater::new().technology_name(), "gradle");
}

#[test]
fn maven_test_technology_name() {
    assert_eq!(MavenUpdater::new().technology_name(), "maven");
}

#[test]
fn npm_test_technology_name() {
    assert_eq!(NpmUpdater::new().technology_name(), "npm");
}

#[test]
fn python_test_technology_name() {
    assert_eq!(PythonUpdater::new().technology_name(), "python");
}

#[test]
fn test_create_npm_updater() -> Result<(), String> {
    let updater = UpdaterFactory::create("npm")?;
    assert_eq!(updater.technology_name(), "npm");
    Ok(())
}

#[test]
fn test_create_cargo_updater() -> Result<(), String> {
    let updater = UpdaterFactory::create("cargo")?;
    assert_eq!(updater.technology_name(), "cargo");
    Ok(())
}

#[test]
fn test_create_invalid_technology() {
    let result = UpdaterFactory::create("invalid");
    assert!(result.is_err());
}

#[test]
fn test_auto_detection() -> Result<(), String> {
    let (files, _) = project(&[("package.json", r#"{"name": "test", "version": "1.0.0"}"#)]);
    let updater = UpdaterFactory::create_auto(&files)?;
    assert_eq!(updater.technology_name(), "npm");
    Ok(())
}

#[test]
fn test_find_compatible_updaters() {
    let (files, _) = project(&[("package.json", r#"{"name": "test", "version": "1.0.0"}"#), ("VERSION", "1.0.0")]);
    let updaters = UpdaterFactory::find_compatible_updaters(&files);
    assert!(updaters.len() >= 2);
    let technologies: Vec<&str> = updaters.iter().map(|u| u.technology_name()).collect();
    assert!(technologies.contains(&"npm"));
    assert!(technologies.contains(&"generic"));
}

#[test]
fn all_updaters_in_order() {
    let names: Vec<&str> = UpdaterFactory::get_all_updaters().iter().map(|u| u.technology_name()).collect();
    assert_eq!(names, vec!["npm", "cargo", "maven", "python", "go", "composer", "generic"]);
    assert_eq!(UpdaterFactory::create("PHP").unwrap().technology_name(), "composer");
    assert_eq!(UpdaterFactory::create("gradle").unwrap().technology_name(), "gradle");
}

#[test]
fn test_parse_version_plain() -> Result<(), String> {
    let updater = GenericUpdater::new();
    assert_eq!(updater.parse_version_content("1.2.3")?, "1.2.3");
    assert_eq!(updater.parse_version_content("1.2.3\n")?, "1.2.3");
    assert_eq!(updater.parse_version_content("  1.2.3  \n")?, "1.2.3");
    Ok(())
}

#[test]
fn test_parse_version_with_prefix() -> Result<(), String> {
    let updater = GenericUpdater::new();
    assert_eq!(updater.parse_version_content("v1.2.3")?, "1.2.3");
    assert_eq!(updater.parse_version_content("version=1.2.3")?, "1.2.3");
    assert_eq!(updater.parse_version_content("VERSION=1.2.3")?, "1.2.3");
    Ok(())
}

#[test]
fn test_parse_version_multiline() -> Result<(), String> {
    let updater = GenericUpdater::new();
    let content = "# Version file\n# Generated automatically\nversion=1.2.3\nbuild=123";
    assert_eq!(updater.parse_version_content(content)?, "1.2.3");
    Ok(())
}

#[test]
fn test_parse_version_empty() {
    let updater = GenericUpdater::new();
    assert!(updater.parse_version_content("").is_err());
    assert!(updater.parse_version_content("   \n\n  ").is_err());
}

#[test]
fn generic_test_parse_version_invalid() {
    let updater = GenericUpdater::new();
    assert!(updater.parse_version_content("not-a-version").is_err());
    assert!(updater.parse_version_content("1.2").is_err());
}

#[test]
fn test_looks_like_version() {
    let updater = GenericUpdater::new();
    assert!(updater.looks_like_version("1.2.3"));
    assert!(updater.looks_like_version("0.1.0"));
    assert!(updater.looks_like_version("10.20.30"));
    assert!(updater.looks_like_version("1.2.3-alpha.1"));
    assert!(updater.looks_like_version("1.2.3+build.1"));
    assert!(!updater.looks_like_version("1.2"));
    assert!(!updater.looks_like_version("not-a-version"));
    assert!(!updater.looks_like_version(""));
}

#[test]
fn test_create_version_content() {
    let updater = GenericUpdater::new();
    assert_eq!(updater.create_version_content("1.2.3", None), "1.2.3\n");
    assert_eq!(updater.create_version_content("1.2.3", Some("v1.0.0")), "v1.2.3\n");
    assert_eq!(updater.create_version_content("1.2.3", Some("version=1.0.0")), "version=1.2.3\n");
    assert_eq!(updater.create_version_content("1.2.3", Some("VERSION=1.0.0")), "VERSION=1.2.3\n");
    assert_eq!(updater.create_version_content("1.2.3", Some("1.0.0")), "1.2.3\n");
}

#[test]
fn test_update_version_new_file() -> Result<(), String> {
    let (files, reads) = project(&[]);
    let updater = GenericUpdater::new();
    let plan = updater.update_version(&files, &reads, "1.0.0");
    let updated = plan.outcome.clone()?;
    assert_eq!(updated.len(), 1);
    let content = written(&plan, "VERSION").unwrap();
    let (files2, reads2) = project(&[("VERSION", content.as_str())]);
    assert_eq!(updater.get_current_version(&files2, &reads2)?, "1.0.0");
    Ok(())
}

#[test]
fn generic_update_keeps_style() {
    let files = [("version.txt", "# release\nversion=0.9.0\n")];
    let (pf, reads) = project(&files);
    let updater = GenericUpdater::new();
    assert_eq!(updater.get_current_version(&pf, &reads), Ok("0.9.0".to_string()));
    let plan = updater.update_version(&pf, &reads, "1.0.0");
    assert_eq!(plan.outcome, Ok(vec![path("version.txt")]));
    assert_eq!(written(&plan, "version.txt"), Some("# release\nversion=1.0.0\n".to_string()));
    let preview = updater.preview_changes(&pf, &reads, "1.0.0").unwrap();
    assert_eq!(preview[0].old_version, "0.9.0");
    assert_eq!(updater.get_primary_file(&pf), Ok(path("version.txt")));
}

#[test]
fn cargo_test_get_current_version() {
    let content = cargo_toml("1.2.3");
    let (files, reads) = project(&[("Cargo.toml", content.as_str())]);
    assert_eq!(CargoUpdater::new().get_current_version(&files, &reads), Ok("1.2.3".to_string()));
}

#[test]
fn cargo_test_update_version() {
    let content = cargo_toml("0.1.0");
    let (files, reads) = project(&[("Cargo.toml", content.as_str())]);
    let plan = CargoUpdater::new().update_version(&files, &reads, "0.2.0");
    assert_eq!(plan.outcome.as_ref().map(|v| v.len()), Ok(1));
    assert!(written(&plan, "Cargo.toml").unwrap().contains("version = \"0.2.0\""));
    assert!(matches!(&plan.steps[0], PlanStep::Backup(p) if *p == path("Cargo.toml")));
}

#[test]
fn cargo_test_validate_and_can_handle() {
    let (empty, _) = project(&[]);
    assert!(!CargoUpdater::new().can_handle(&empty));
    let content = cargo_toml("1.0.0");
    let (files, reads) = project(&[("Cargo.toml", content.as_str())]);
    assert!(CargoUpdater::new().can_handle(&files));
    assert!(CargoUpdater::new().validate_project(&files, &reads).is_ok());
}

#[test]
fn cargo_test_preview_changes() {
    let content = cargo_toml("1.0.0");
    let (files, reads) = project(&[("Cargo.toml", content.as_str())]);
    let changes = CargoUpdater::new().preview_changes(&files, &reads, "2.0.0").unwrap();
    assert_eq!(changes.len(), 1);
    assert_eq!(changes[0].old_version, "1.0.0");
    assert_eq!(changes[0].new_version, "2.0.0");
}

#[test]
fn cargo_errors() {
    let (files, reads) = project(&[("Cargo.toml", "[workspace]\nmembers = []\n")]);
    assert_eq!(
        CargoUpdater::new().get_current_version(&files, &reads),
        Err("No version field found in Cargo.toml".to_string())
    );
    assert_eq!(
        CargoUpdater::new().update_cargo_toml_content("[workspace]\n", "1.0.0"),
        Err("Cargo.toml does not contain [package] table with version".to_string())
    );
    assert!(CargoUpdater::new().update_cargo_toml_content("not = = toml", "1.0.0").unwrap_err().starts_with("Failed to parse Cargo.toml: "));
    let (empty, reads) = project(&[]);
    assert_eq!(
        CargoUpdater::new().get_current_version(&empty, &reads),
        Err(format!("Failed to read {}: {}", path("Cargo.toml"), MISSING))
    );
}

#[test]
fn maven_test_get_current_version() {
    let content = pom("1.2.3");
    let (files, reads) = project(&[("pom.xml", content.as_str())]);
    assert_eq!(MavenUpdater::new().get_current_version(&files, &reads), Ok("1.2.3".to_string()));
}

#[test]
fn maven_test_update_version() {
    let content = pom("0.1.0");
    let (files, reads) = project(&[("pom.xml", content.as_str())]);
    let plan = MavenUpdater::new().update_version(&files, &reads, "0.2.0");
    assert_eq!(plan.outcome.as_ref().map(|v| v.len()), Ok(1));
    assert!(written(&plan, "pom.xml").unwrap().contains("<version>0.2.0</version>"));
}

#[test]
fn maven_test_preview_changes() {
    let content = pom("1.0.0");
    let (files, reads) = project(&[("pom.xml", content.as_str())]);
    let changes = MavenUpdater::new().preview_changes(&files, &reads, "2.0.0").unwrap();
    assert_eq!(changes.len(), 1);
    assert_eq!(changes[0].old_version, "1.0.0");
    assert_eq!(changes[0].new_version, "2.0.0");
}

#[test]
fn maven_test_validate_and_can_handle() {
    let (empty, _) = project(&[]);
    assert!(!MavenUpdater::new().can_handle(&empty));
    let content = pom("1.0.0");
    let (files, reads) = project(&[("pom.xml", content.as_str())]);
    assert!(MavenUpdater::new().can_handle(&files));
    assert!(MavenUpdater::new().validate_project(&files, &reads).is_ok());
}

#[test]
fn maven_without_version_tag() {
    assert_eq!(
        MavenUpdater::new().replace_version("<project></project>", "1.0.0"),
        Err("No <version> tag found in pom.xml to replace".to_string())
    );
}

#[test]
fn npm_test_get_current_version() {
    let content = package_json("1.2.3");
    let (files, reads) = project(&[("package.json", content.as_str())]);
    assert_eq!(NpmUpdater::new().get_current_version(&files, &reads), Ok("1.2.3".to_string()));
}

#[test]
fn npm_test_update_version() {
    let pkg = package_json("1.2.3");
    let lock = package_lock("1.2.3");
    let files = [("package.json", pkg.as_str()), ("package-lock.json", lock.as_str())];
    let (pf, reads) = project(&files);
    let updater = NpmUpdater::new();
    let plan = updater.update_version(&pf, &reads, "1.3.0");
    assert_eq!(plan.outcome.as_ref().map(|v| v.len()), Ok(2));
    let (pf2, reads2) = project_of(&after(&files, &plan));
    assert_eq!(updater.get_current_version(&pf2, &reads2), Ok("1.3.0".to_string()));
    let lock_content = written(&plan, "package-lock.json").unwrap();
    assert!(lock_content.contains(r#""version": "1.3.0""#));
    assert!(!lock_content.contains("1.2.3"));
}

#[test]
fn test_validate_project_valid() {
    let content = package_json("1.0.0");
    let (files, reads) = project(&[("package.json", content.as_str())]);
    assert!(NpmUpdater::new().validate_project(&files, &reads).is_ok());
}

#[test]
fn test_validate_project_missing_file() {
    let (files, reads) = project(&[]);
    let result = NpmUpdater::new().validate_project(&files, &reads);
    assert!(result.is_err());
    assert!(result.unwrap_err().contains("package.json not found"));
}

#[test]
fn test_validate_project_no_version() {
    let (files, reads) = project(&[("package.json", r#"{"name": "test"}"#)]);
    let result = NpmUpdater::new().validate_project(&files, &reads);
    assert!(result.is_err());
    assert!(result.unwrap_err().contains("does not contain a valid version field"));
}

#[test]
fn npm_test_can_handle() {
    let (empty, _) = project(&[]);
    assert!(!NpmUpdater::new().can_handle(&empty));
    let content = package_json("1.0.0");
    let (files, _) = project(&[("package.json", content.as_str())]);
    assert!(NpmUpdater::new().can_handle(&files));
}

#[test]
fn npm_test_preview_changes() {
    let content = package_json("1.0.0");
    let (files, reads) = project(&[("package.json", content.as_str())]);
    let changes = NpmUpdater::new().preview_changes(&files, &reads, "2.0.0").unwrap();
    assert_eq!(changes.len(), 1);
    assert_eq!(changes[0].old_version, "1.0.0");
    assert_eq!(changes[0].new_version, "2.0.0");
    assert!(changes[0].new_content.contains(r#""version": "2.0.0""#));
}

#[test]
fn npm_root_must_be_object() {
    assert_eq!(
        NpmUpdater::new().update_package_json_content("[1, 2]", "1.0.0"),
        Err("package.json root is not an object".to_string())
    );
    assert!(NpmUpdater::new().update_package_json_content("{", "1.0.0").unwrap_err().starts_with("Failed to parse package.json: "));
}

#[test]
fn test_pyproject_version() {
    let content = pyproject("1.2.3");
    let (files, reads) = project(&[("pyproject.toml", content.as_str())]);
    assert_eq!(PythonUpdater::new().get_current_version(&files, &reads), Ok("1.2.3".to_string()));
}

#[test]
fn test_setup_py_version() {
    let content = setup_py("0.1.0");
    let (files, reads) = project(&[("setup.py", content.as_str())]);
    assert_eq!(PythonUpdater::new().get_current_version(&files, &reads), Ok("0.1.0".to_string()));
}

#[test]
fn test_update_pyproject() {
    let content = pyproject("0.1.0");
    let (files, reads) = project(&[("pyproject.toml", content.as_str())]);
    let plan = PythonUpdater::new().update_version(&files, &reads, "0.2.0");
    assert_eq!(plan.outcome.as_ref().map(|v| v.len()), Ok(1));
    assert!(written(&plan, "pyproject.toml").unwrap().contains("version = \"0.2.0\""));
}

#[test]
fn test_update_setup_py() {
    let content = setup_py("0.1.0");
    let (files, reads) = project(&[("setup.py", content.as_str())]);
    let plan = PythonUpdater::new().update_version(&files, &reads, "0.2.0");
    assert_eq!(plan.outcome.as_ref().map(|v| v.len()), Ok(1));
    assert!(written(&plan, "setup.py").unwrap().contains("version=\"0.2.0\""));
}

#[test]
fn python_test_preview_changes() {
    let content = pyproject("1.0.0");
    let (files, reads) = project(&[("pyproject.toml", content.as_str())]);
    let changes = PythonUpdater::new().preview_changes(&files, &reads, "2.0.0").unwrap();
    assert_eq!(changes.len(), 1);
    assert_eq!(changes[0].old_version, "1.0.0");
    assert_eq!(changes[0].new_version, "2.0.0");
}

#[test]
fn python_test_validate_and_can_handle() {
    let (empty, _) = project(&[]);
    assert!(!PythonUpdater::new().can_handle(&empty));
    let content = pyproject("1.0.0");
    let (files, reads) = project(&[("pyproject.toml", content.as_str())]);
    assert!(PythonUpdater::new().can_handle(&files));
    assert!(PythonUpdater::new().validate_project(&files, &reads).is_ok());
}

#[test]
fn python_poetry_and_no_files() {
    let (files, reads) = project(&[("pyproject.toml", "[tool.poetry]\nname = \"x\"\nversion = \"3.1.4\"\n")]);
    assert_eq!(PythonUpdater::new().get_current_version(&files, &reads), Ok("3.1.4".to_string()));
    let (empty, reads) = project(&[]);
    assert_eq!(PythonUpdater::new().update_version(&empty, &reads, "1.0.0").outcome, Err("No Python project files updated".to_string()));
}

#[test]
fn test_validate_project_missing_composer_json() {
    let (files, reads) = project(&[]);
    let result = ComposerUpdater::new().validate_project(&files, &reads);
    assert!(result.is_err());
    assert!(result.unwrap_err().contains("composer.json"));
}

#[test]
fn composer_updates_lock_only_where_it_has_a_version() {
    let files = [
        ("composer.json", "{\"name\": \"vendor/pkg\", \"version\": \"1.0.0\"}"),
        ("composer.lock", "{\"content-hash\": \"abc\"}"),
    ];
    let (pf, reads) = project(&files);
    let updater = ComposerUpdater::new();
    assert_eq!(updater.get_current_version(&pf, &reads), Ok("1.0.0".to_string()));
    let plan = updater.update_version(&pf, &reads, "1.1.0");
    assert_eq!(plan.outcome, Ok(vec![path("composer.json"), path("composer.lock")]));
    assert!(written(&plan, "composer.json").unwrap().contains("\"version\": \"1.1.0\""));
    assert!(!written(&plan, "composer.lock").unwrap().contains("1.1.0"));
}

#[test]
fn test_validate_project_missing_go_mod() {
    let (files, reads) = project(&[]);
    let result = GoUpdater::new().validate_project(&files, &reads);
    assert!(result.is_err());
    assert!(result.unwrap_err().contains("go.mod not found"));
}

#[test]
fn go_version_gets_prefix() {
    let (files, reads) = project(&[("go.mod", "module example.com/x\n"), ("VERSION", " 1.4.0 \n")]);
    let updater = GoUpdater::new();
    assert_eq!(updater.get_current_version(&files, &reads), Ok("v1.4.0".to_string()));
    let plan = updater.update_version(&files, &reads, "1.5.0");
    assert_eq!(written(&plan, "VERSION"), Some("v1.5.0".to_string()));
    let (files, reads) = project(&[("go.mod", "module example.com/x\n")]);
    assert!(updater.get_current_version(&files, &reads).unwrap_err().starts_with("No VERSION file found. Go modules"));
    assert_eq!(updater.update_version(&files, &reads, "1.5.0").outcome, Ok(vec![]));
}

#[test]
fn test_cannot_handle_without_gradle_files() {
    let (files, _) = project(&[]);
    assert!(!GradleUpdater::new().can_handle(&files));
}

#[test]
fn test_validate_project_fails_without_files() {
    let (files, reads) = project(&[]);
    assert!(GradleUpdater::new().validate_project(&files, &reads).is_err());
}

#[test]
fn gradle_versions_and_updates() {
    let updater = GradleUpdater::new();
    let (files, reads) = project(&[("gradle.properties", "group=x\nversion = 1.0.0 \n")]);
    assert_eq!(updater.get_current_version(&files, &reads), Ok("1.0.0".to_string()));
    let plan = updater.update_version(&files, &reads, "1.1.0");
    assert_eq!(written(&plan, "gradle.properties"), Some("group=x\nversion=1.1.0\n".to_string()));

    let (files, reads) = project(&[("build.gradle", "plugins {}\nversion '2.0.0'\n")]);
    assert_eq!(updater.get_current_version(&files, &reads), Ok("2.0.0".to_string()));
    let plan = updater.update_version(&files, &reads, "2.1.0");
    assert_eq!(written(&plan, "build.gradle"), Some("plugins {}\nversion '2.1.0'\n".to_string()));

    let (files, reads) = project(&[("build.gradle.kts", "version = \"3.0.0-SNAPSHOT\"\n")]);
    assert_eq!(updater.get_current_version(&files, &reads), Ok("3.0.0-SNAPSHOT".to_string()));
    let plan = updater.update_version(&files, &reads, "3.0.0");
    assert_eq!(written(&plan, "build.gradle.kts"), Some("version = \"3.0.0\"\n".to_string()));

    let (files, reads) = project(&[("build.gradle", "plugins {}\n")]);
    assert_eq!(updater.update_version(&files, &reads, "1.0.0").outcome, Err("No Gradle files were updated".to_string()));
}

#[test]
fn cargo_update_then_read_gives_new_version() {
    let content = "[package]\r\nname = \"crate\"\r\nversion = \"0.9.9\"\r\ndescription = \"line\\r\\nbreak\"\r\n";
    let files = [("Cargo.toml", content)];
    let (pf, reads) = project(&files);
    let updater = CargoUpdater::new();
    let plan = updater.update_version(&pf, &reads, "1.0.0-rc.1");
    assert_eq!(plan.outcome, Ok(vec![path("Cargo.toml")]));
    assert!(!written(&plan, "Cargo.toml").unwrap().contains('\r'));
    let (pf2, reads2) = project_of(&after(&files, &plan));
    assert_eq!(updater.get_current_version(&pf2, &reads2), Ok("1.0.0-rc.1".to_string()));
}

#[test]
fn python_update_then_read_gives_new_version() {
    let content = pyproject("0.1.0");
    let files = [("pyproject.toml", content.as_str())];
    let (pf, reads) = project(&files);
    let updater = PythonUpdater::new();
    let plan = updater.update_version(&pf, &reads, "0.2.0");
    let (pf2, reads2) = project_of(&after(&files, &plan));
    assert_eq!(updater.get_current_version(&pf2, &reads2), Ok("0.2.0".to_string()));
}

#[test]
fn composer_update_then_read_gives_new_version() {
    let files = [("composer.json", "{\r\n  \"name\": \"vendor/pkg\",\r\n  \"version\": \"1.0.0\"\r\n}")];
    let (pf, reads) = project(&files);
    let updater = ComposerUpdater::new();
    let plan = updater.update_version(&pf, &reads, "2.0.0");
    let (pf2, reads2) = project_of(&after(&files, &plan));
    assert_eq!(updater.get_current_version(&pf2, &reads2), Ok("2.0.0".to_string()));
}

#[test]
fn preview_shows_what_update_writes() {
    let gradle = GradleUpdater::new();
    let files = [("gradle.properties", "version=1.0.0\r\n"), ("build.gradle", "version '1.0.0'\n")];
    let (pf, reads) = project(&files);
    let changes = gradle.preview_changes(&pf, &reads, "1.0.1").unwrap();
    let plan = gradle.update_version(&pf, &reads, "1.0.1");
    assert_eq!(changes.len(), 2);
    for change in &changes {
        let name = change.file_path.rsplit('/').next().unwrap();
        assert_eq!(written(&plan, name), Some(change.new_content.replace("\r\n", "\n")));
    }

    let cargo = CargoUpdater::new();
    let content = cargo_toml("0.1.0");
    let (pf, reads) = project(&[("Cargo.toml", content.as_str())]);
    let changes = cargo.preview_changes(&pf, &reads, "0.2.0").unwrap();
    let plan = cargo.update_version(&pf, &reads, "0.2.0");
    assert_eq!(written(&plan, "Cargo.toml"), Some(changes[0].new_content.clone()));
}

#[test]
fn composer_updater_validates_composer_json_presence() {
    let (pf, reads) = project(&[]);
    let updater = ComposerUpdater::new();
    let result = updater.validate_project(&pf, &reads);
    assert!(result.is_err(), "Should fail validation without composer.json");
    assert!(result.unwrap_err().contains("composer.json"), "Error should mention composer.json");
}

#[test]
fn go_updater_validates_go_mod_presence() {
    let (pf, reads) = project(&[]);
    let updater = GoUpdater::new();
    let result = updater.validate_project(&pf, &reads);
    assert!(result.is_err(), "Should fail validation without go.mod");
    assert!(result.unwrap_err().contains("go.mod"), "Error should mention go.mod");
}

const NPM_PROJECT: &str = "{\n  \"name\": \"test-project\",\n  \"version\": \"1.0.0\",\n  \"description\": \"Test\"\n}";

#[test]
fn test_integration_version_extraction_after_update() {
    let files = [("package.json", NPM_PROJECT)];
    let (pf, reads) = project(&files);
    let updater = NpmUpdater::new();
    let version1 = updater.get_current_version(&pf, &reads).unwrap();
    assert_eq!(version1, "1.0.0");
    let plan = updater.update_version(&pf, &reads, "4.5.6");
    assert!(plan.outcome.is_ok());
    let (pf2, reads2) = project_of(&after(&files, &plan));
    let version2 = updater.get_current_version(&pf2, &reads2).unwrap();
    assert_eq!(version2, "4.5.6");
}

#[test]
fn test_integration_error_recovery_invalid_version() {
    let (pf, reads) = project(&[("package.json", NPM_PROJECT)]);
    let updater = NpmUpdater::new();
    let result = updater.update_version(&pf, &reads, "invalid").outcome;
    assert!(result.is_ok());
}

#[test]
fn test_integration_error_missing_manifest() {
    let (pf, reads) = project(&[]);
    let updater = NpmUpdater::new();
    let result = updater.get_current_version(&pf, &reads);
    assert!(result.is_err());
}

#[test]
fn pyproject_update_keeps_comments_and_quotes() {
    let content = "# project metadata\n[project]\nname = 'x'\nversion = '0.1.0'\n\n[tool.other]\nversion = \"9.9.9\"\n";
    let (files, reads) = project(&[("pyproject.toml", content)]);
    let plan = PythonUpdater::new().update_version(&files, &reads, "0.2.0");
    assert_eq!(plan.outcome, Ok(vec![path("pyproject.toml")]));
    assert_eq!(
        written(&plan, "pyproject.toml"),
        Some("# project metadata\n[project]\nname = 'x'\nversion = '0.2.0'\n\n[tool.other]\nversion = \"9.9.9\"\n".to_string())
    );
}

#[test]
fn npm_preview_shows_the_lock_as_written() {
    let pkg = package_json("1.2.3");
    let lock = package_lock("1.2.3");
    let files = [("package.json", pkg.as_str()), ("package-lock.json", lock.as_str())];
    let (pf, reads) = project(&files);
    let updater = NpmUpdater::new();
    let changes = updater.preview_changes(&pf, &reads, "1.3.0").unwrap();
    let plan = updater.update_version(&pf, &reads, "1.3.0");
    assert_eq!(changes.len(), 2);
    assert_eq!(written(&plan, "package-lock.json"), Some(changes[1].new_content.clone()));
    assert_eq!(written(&plan, "package.json"), Some(changes[0].new_content.clone()));
}

#[test]
fn maven_version_with_dollar_is_written_literally() {
    let content = pom("1.0.0");
    let (files, reads) = project(&[("pom.xml", content.as_str())]);
    let plan = MavenUpdater::new().update_version(&files, &reads, "2.0.0-$1");
    assert!(written(&plan, "pom.xml").unwrap().contains("<version>2.0.0-$1</version>"));
}

#[test]
fn generic_reads_a_labelled_version() {
    let updater = GenericUpdater::new();
    assert_eq!(updater.parse_version_content("Version: 1.2.3\nBuild: 2024-01-01"), Ok("1.2.3".to_string()));
    assert_eq!(updater.parse_version_content("version:2.0.0"), Ok("2.0.0".to_string()));
    assert_eq!(
        updater.create_version_content("1.3.0", Some("Version: 1.2.3\nBuild: 2024-01-01")),
        "Version: 1.3.0\nBuild: 2024-01-01\n"
    );
}

#[test]
fn generic_update_keeps_the_other_lines() {
    let (pf, reads) = project(&[("VERSION", "v1.2.3\n# build notes\n")]);
    let updater = GenericUpdater::new();
    let plan = updater.update_version(&pf, &reads, "2.0.0");
    assert_eq!(plan.outcome, Ok(vec![path("VERSION")]));
    assert_eq!(written(&plan, "VERSION"), Some("v2.0.0\n# build notes\n".to_string()));
    assert_eq!(
        updater.create_version_content("2.0.0", Some("  # header\n  1.0.0  \nrest\n\n")),
        "  # header\n  2.0.0  \nrest\n\n"
    );
    assert_eq!(updater.create_version_content("2.0.0", Some("no version here")), "2.0.0\n");
}

#[test]
fn json_updates_keep_the_other_members() {
    let content = "{\n  \"name\": \"demo\",\n  \"version\": \"1.0.0\",\n  \"license\": \"MIT\"\n}\n";
    let updated = NpmUpdater::new().update_package_json_content(content, "1.1.0").unwrap();
    assert!(updated.contains("\"name\": \"demo\""));
    assert!(updated.contains("\"license\": \"MIT\""));
    assert!(updated.contains("\"version\": \"1.1.0\""));
    let updated = ComposerUpdater::new().update_composer_json_content(content, "2.0.0").unwrap();
    assert!(updated.contains("\"name\": \"demo\""));
    assert!(updated.contains("\"license\": \"MIT\""));
    assert!(updated.contains("\"version\": \"2.0.0\""));
}

#[test]
fn cargo_update_keeps_the_other_entries() {
    let content = "[package]\nname = \"demo\"\nversion = \"0.1.0\"\nedition = \"2021\"\n\n[dependencies]\nserde = \"1\"\n";
    let updated = CargoUpdater::new().update_cargo_toml_content(content, "0.2.0").unwrap();
    assert!(updated.contains("name = \"demo\""));
    assert!(updated.contains("edition = \"2021\""));
    assert!(updated.contains("serde = \"1\""));
    assert!(updated.contains("version = \"0.2.0\""));
}

#[test]
fn generic_update_of_a_crlf_file_reads_back() -> Result<(), String> {
    let (pf, reads) = project(&[("VERSION", "v1.0.0\r\n# notes\r\n")]);
    let updater = GenericUpdater::new();
    let plan = updater.update_version(&pf, &reads, "2.0.0");
    let content = written(&plan, "VERSION").unwrap();
    assert_eq!(content, "v2.0.0\n# notes\n");
    let (pf2, reads2) = project(&[("VERSION", content.as_str())]);
    assert_eq!(updater.get_current_version(&pf2, &reads2)?, "2.0.0");
    Ok(())
}
