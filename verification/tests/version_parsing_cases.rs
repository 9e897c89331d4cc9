use autoversion::engine::project_files::ProjectFiles;
use autoversion::updaters::maven::MavenUpdater;
use autoversion::updaters::npm::NpmUpdater;
use autoversion::updaters::traits::{FileReads, PlanStep, VersionUpdater};

/// A project directory holding one file, with what reading it gives.
fn one_file(name: &str, content: &str) -> (ProjectFiles, FileReads) {
    let mut pf = ProjectFiles::new("/data/app");
    let mut reads = FileReads::new();
    pf.add(name, true);
    reads.add(name, Ok(content.to_string()));
    (pf, reads)
}

#[test]
fn test_malformed_json() {
    let (pf, reads) = one_file("package.json", r#"{"version": "1.0.0", invalid json}"#);
    let result = NpmUpdater::new().get_current_version(&pf, &reads);
    assert!(result.is_err(), "Should reject malformed JSON");
}

#[test]
fn test_missing_version_field() {
    let (pf, reads) = one_file("package.json", r#"{"name": "test-package"}"#);
    let result = NpmUpdater::new().get_current_version(&pf, &reads);
    assert!(result.is_err(), "Should require version field");
}

#[test]
fn test_invalid_version_format() {
    let (pf, reads) = one_file("package.json", r#"{"version": "not-a-version"}"#);
    let result = NpmUpdater::new().get_current_version(&pf, &reads);
    assert_eq!(result, Ok("not-a-version".to_string()));
}

#[test]
fn test_version_with_build_metadata() {
    let (pf, reads) = one_file("package.json", r#"{"version": "1.2.3+build.123"}"#);
    let version = NpmUpdater::new().get_current_version(&pf, &reads).unwrap();
    assert!(version.contains("1.2.3"));
}

#[test]
fn test_prerelease_versions() {
    let (pf, reads) = one_file("package.json", r#"{"version": "2.0.0-beta.1"}"#);
    assert_eq!(NpmUpdater::new().get_current_version(&pf, &reads).unwrap(), "2.0.0-beta.1");
}

#[test]
fn test_unicode_in_json() {
    let (pf, reads) = one_file("package.json", r#"{"name": "测试", "version": "1.0.0", "description": "テスト 🚀"}"#);
    let updater = NpmUpdater::new();
    assert_eq!(updater.get_current_version(&pf, &reads).unwrap(), "1.0.0");
    let plan = updater.update_version(&pf, &reads, "1.0.1");
    assert!(plan.outcome.is_ok(), "Should handle Unicode in JSON");
    let content = plan
        .steps
        .iter()
        .find_map(|s| match s {
            PlanStep::Write(p, c) if p.ends_with("package.json") => Some(c.clone()),
            _ => None,
        })
        .unwrap();
    assert!(content.contains("1.0.1"), "Should update version");
    assert!(content.contains("测试") && content.contains("🚀"));
}

#[test]
fn test_deeply_nested_json() {
    let (pf, reads) = one_file(
        "package.json",
        r#"{
  "version": "1.0.0",
  "config": {
    "nested": {
      "deep": {
        "version": "should-not-match"
      }
    }
  }
}"#,
    );
    assert_eq!(NpmUpdater::new().get_current_version(&pf, &reads).unwrap(), "1.0.0");
}

#[test]
fn test_maven_with_namespaces() {
    let (pf, reads) = one_file(
        "pom.xml",
        r#"<?xml version="1.0" encoding="UTF-8"?>
<project xmlns="http://maven.apache.org/POM/4.0.0"
         xmlns:xsi="http://www.w3.org/2001/XMLSchema-instance"
         xsi:schemaLocation="http://maven.apache.org/POM/4.0.0
         http://maven.apache.org/xsd/maven-4.0.0.xsd">
    <modelVersion>4.0.0</modelVersion>
    <groupId>com.example</groupId>
    <artifactId>test</artifactId>
    <version>1.0.0</version>
</project>"#,
    );
    assert_eq!(MavenUpdater::new().get_current_version(&pf, &reads).unwrap(), "1.0.0");
}

#[test]
fn test_maven_with_parent() {
    let (pf, reads) = one_file(
        "pom.xml",
        r#"<?xml version="1.0"?>
<project>
    <parent>
        <groupId>com.example</groupId>
        <artifactId>parent</artifactId>
        <version>2.0.0</version>
    </parent>
    <artifactId>child</artifactId>
    <version>1.5.0</version>
</project>"#,
    );
    let version = MavenUpdater::new().get_current_version(&pf, &reads).unwrap();
    assert!(version == "1.5.0" || version == "2.0.0", "Should find a version");
}

#[test]
fn test_maven_with_comments() {
    let (pf, reads) = one_file(
        "pom.xml",
        r#"<?xml version="1.0"?>
<project>
    <!-- This is the version -->
    <version>3.2.1</version>
    <!-- <version>should-not-match</version> -->
</project>"#,
    );
    assert_eq!(MavenUpdater::new().get_current_version(&pf, &reads).unwrap(), "3.2.1");
}

#[test]
fn test_maven_with_cdata() {
    let (pf, reads) = one_file(
        "pom.xml",
        r#"<?xml version="1.0"?>
<project>
    <version>1.2.3</version>
    <description><![CDATA[Version: should-not-match]]></description>
</project>"#,
    );
    assert_eq!(MavenUpdater::new().get_current_version(&pf, &reads).unwrap(), "1.2.3");
}

#[test]
fn test_extremely_long_version() {
    let long_version = format!("1.0.0-{}", "a".repeat(1000));
    let content = format!(r#"{{"version": "{}"}}"#, long_version);
    let (pf, reads) = one_file("package.json", &content);
    assert_eq!(NpmUpdater::new().get_current_version(&pf, &reads), Ok(long_version));
}

#[test]
fn test_whitespace_variations() {
    let (pf, reads) = one_file(
        "package.json",
        r#"{
    "version"   :   "1.0.0"   ,
    "name": "test"
}"#,
    );
    assert_eq!(NpmUpdater::new().get_current_version(&pf, &reads).unwrap(), "1.0.0");
}
