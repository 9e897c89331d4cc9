use autoversion::engine::config::AutoversionConfig;
use autoversion::engine::detector::{Technology, TechnologyDetector};
use autoversion::engine::project_files::ProjectFiles;
use autoversion::engine::semver::{BumpType, VersionBumper};
use autoversion::git::history::{CommitAnalysis, CommitAnalyzer};
use autoversion::git::operations::{
    check_revert, check_tag_deletion, commit_message, latest_tag, release_tag_name, signature_identity, tag_message,
};
use autoversion::rollback::{find_backup_files, plan_rollback, RollbackOptions};

fn project(names: &[&str]) -> ProjectFiles {
    let mut files = ProjectFiles::new("/work/project");
    for n in names {
        files.add(n, true);
    }
    files
}

#[test]
fn test_technology_parsing() {
    assert_eq!("npm".parse::<Technology>().unwrap(), Technology::Npm);
    assert_eq!("cargo".parse::<Technology>().unwrap(), Technology::Cargo);
    assert_eq!("maven".parse::<Technology>().unwrap(), Technology::Maven);
    assert_eq!("python".parse::<Technology>().unwrap(), Technology::Python);
    assert_eq!("generic".parse::<Technology>().unwrap(), Technology::Generic);

    assert!("invalid".parse::<Technology>().is_err());
}

#[test]
fn test_npm_detection() {
    let detector = TechnologyDetector::new();
    assert_eq!(detector.detect(&project(&["package.json"])).unwrap(), "npm");
}

#[test]
fn test_cargo_detection() {
    let detector = TechnologyDetector::new();
    assert_eq!(detector.detect(&project(&["Cargo.toml"])).unwrap(), "cargo");
}

#[test]
fn test_maven_detection() {
    let detector = TechnologyDetector::new();
    assert_eq!(detector.detect(&project(&["pom.xml"])).unwrap(), "maven");
}

#[test]
fn test_python_detection() {
    let detector = TechnologyDetector::new();
    assert_eq!(detector.detect(&project(&["pyproject.toml"])).unwrap(), "python");
}

#[test]
fn test_generic_detection() {
    let detector = TechnologyDetector::new();
    assert_eq!(detector.detect(&project(&["VERSION"])).unwrap(), "generic");
}

#[test]
fn test_priority_detection() {
    let detector = TechnologyDetector::new();
    assert_eq!(detector.detect(&project(&["package.json", "VERSION"])).unwrap(), "npm");
}

#[test]
fn test_no_technology_detected() {
    let detector = TechnologyDetector::new();
    let result = detector.detect(&project(&[]));
    assert!(result.is_err());
    assert!(result.unwrap_err().contains("No supported technology detected"));
}

#[test]
fn test_has_technology() {
    let detector = TechnologyDetector::new();
    let files = project(&["package.json"]);
    assert!(detector.has_technology(&files, &Technology::Npm).unwrap());
    assert!(!detector.has_technology(&files, &Technology::Cargo).unwrap());
}

#[test]
fn detection_confidence_percentages() {
    let detector = TechnologyDetector::new();
    let ds = detector.detections(&project(&["package.json", "package-lock.json", "Cargo.toml", "VERSION"]));
    let summary: Vec<(String, u32)> = ds.iter().map(|d| (d.technology.name(), d.confidence)).collect();
    assert_eq!(
        summary,
        vec![("npm".to_string(), 100), ("cargo".to_string(), 85), ("generic".to_string(), 10)]
    );
}

#[test]
fn test_parse_version_clean() {
    let bumper = VersionBumper::new();
    assert_eq!(bumper.parse_version("1.2.3").unwrap().to_text(), "1.2.3");
    assert_eq!(bumper.parse_version("v1.2.3").unwrap().to_text(), "1.2.3");
    assert_eq!(bumper.parse_version("=1.2.3").unwrap().to_text(), "1.2.3");
    assert_eq!(bumper.parse_version(" 1.2.3 ").unwrap().to_text(), "1.2.3");
}

#[test]
fn semver_test_parse_version_invalid() {
    let bumper = VersionBumper::new();
    assert!(bumper.parse_version("1.2").is_err());
    assert!(bumper.parse_version("1.2.3.4").is_err());
    assert!(bumper.parse_version("not-a-version").is_err());
}

#[test]
fn test_manual_bump_patch() {
    let bumper = VersionBumper::new();
    let (new_version, bump_type) = bumper.manual_bump("1.2.3", "patch").unwrap();
    assert_eq!(new_version, "1.2.4");
    assert_eq!(bump_type, "patch");
}

#[test]
fn test_manual_bump_minor() {
    let bumper = VersionBumper::new();
    let (new_version, bump_type) = bumper.manual_bump("1.2.3", "minor").unwrap();
    assert_eq!(new_version, "1.3.0");
    assert_eq!(bump_type, "minor");
}

#[test]
fn test_manual_bump_major() {
    let bumper = VersionBumper::new();
    let (new_version, bump_type) = bumper.manual_bump("1.2.3", "major").unwrap();
    assert_eq!(new_version, "2.0.0");
    assert_eq!(bump_type, "major");
}

#[test]
fn test_is_greater() {
    let bumper = VersionBumper::new();
    assert!(bumper.is_greater("1.2.4", "1.2.3").unwrap());
    assert!(bumper.is_greater("1.3.0", "1.2.3").unwrap());
    assert!(bumper.is_greater("2.0.0", "1.2.3").unwrap());
    assert!(!bumper.is_greater("1.2.3", "1.2.4").unwrap());
}

#[test]
fn test_preview_bump() {
    let bumper = VersionBumper::new();
    assert_eq!(bumper.preview_bump("1.2.3", "patch").unwrap(), "1.2.4");
    assert_eq!(bumper.preview_bump("1.2.3", "minor").unwrap(), "1.3.0");
    assert_eq!(bumper.preview_bump("1.2.3", "major").unwrap(), "2.0.0");
}

#[test]
fn test_bump_type_parsing() {
    assert_eq!("major".parse::<BumpType>().unwrap(), BumpType::Major);
    assert_eq!("minor".parse::<BumpType>().unwrap(), BumpType::Minor);
    assert_eq!("patch".parse::<BumpType>().unwrap(), BumpType::Patch);
    assert_eq!("MAJOR".parse::<BumpType>().unwrap(), BumpType::Major);
    assert!("invalid".parse::<BumpType>().is_err());
}

#[test]
fn test_prerelease_clearing() {
    let bumper = VersionBumper::new();
    let (new_version, _) = bumper.manual_bump("1.2.3-alpha.1", "patch").unwrap();
    assert_eq!(new_version, "1.2.4");
}

#[test]
fn test_maven_snapshot_clearing() {
    let bumper = VersionBumper::new();
    let (new_version, _) = bumper.manual_bump("1.2.3-SNAPSHOT", "patch").unwrap();
    assert_eq!(new_version, "1.2.4");
    let (new_version, _) = bumper.manual_bump("1.2.3-SNAPSHOT", "minor").unwrap();
    assert_eq!(new_version, "1.3.0");
    let (new_version, _) = bumper.manual_bump("1.2.3-SNAPSHOT", "major").unwrap();
    assert_eq!(new_version, "2.0.0");
}

#[test]
fn bump_overflow_is_refused() {
    let bumper = VersionBumper::new();
    assert!(bumper.manual_bump("18446744073709551615.0.0", "major").is_err());
    assert!(bumper.manual_bump("1.2.3", "huge").is_err());
}

#[test]
fn test_commit_patterns() {
    let analyzer = CommitAnalyzer::new();

    assert!(analyzer.is_breaking_change("feat!: breaking change"));
    assert!(analyzer.is_breaking_change("fix!: another breaking change"));
    assert!(analyzer.is_breaking_change("feat: something\n\nBREAKING CHANGE: details"));

    assert!(analyzer.is_feature("feat: add new functionality"));
    assert!(analyzer.is_feature("feat(scope): add scoped feature"));
    assert!(analyzer.is_feature("FEAT: uppercase variant"));

    assert!(analyzer.is_fix("fix: resolve bug"));
    assert!(analyzer.is_fix("fix(scope): scoped fix"));
    assert!(analyzer.is_fix("FIX: uppercase fix"));

    assert!(!analyzer.is_feature("chore: update dependencies"));
    assert!(!analyzer.is_fix("docs: update readme"));
    assert!(!analyzer.is_breaking_change("feat: normal feature"));
}

#[test]
fn test_commit_analysis_recommendation() {
    let mut analysis = CommitAnalysis {
        total_commits: 3,
        breaking_changes: vec!["feat!: breaking".to_string()],
        features: vec!["feat: new feature".to_string()],
        fixes: vec!["fix: bug".to_string()],
        other: vec![],
    };

    assert_eq!(analysis.recommended_bump(), BumpType::Major);

    analysis.breaking_changes.clear();
    assert_eq!(analysis.recommended_bump(), BumpType::Minor);

    analysis.features.clear();
    assert_eq!(analysis.recommended_bump(), BumpType::Patch);

    analysis.fixes.clear();
    assert_eq!(analysis.recommended_bump(), BumpType::Patch);
}

#[test]
fn analysis_sorts_messages_by_kind() {
    let analyzer = CommitAnalyzer::new();
    let messages = vec![
        "feat: a".to_string(),
        "chore: b".to_string(),
        "fix!: c".to_string(),
        "fix: d".to_string(),
    ];
    let a = analyzer.analyze_messages(&messages);
    assert_eq!(a.total_commits, 4);
    assert_eq!(a.breaking_changes, vec!["fix!: c"]);
    assert_eq!(a.features, vec!["feat: a"]);
    assert_eq!(a.fixes, vec!["fix: d"]);
    assert_eq!(a.other, vec!["chore: b"]);
    assert_eq!(analyzer.bump_for_messages(&messages), a.recommended_bump());
}

#[test]
fn git_texts() {
    assert_eq!(tag_message("1.2.3"), "Release version 1.2.3");
    assert_eq!(commit_message(None, "1.2.3"), "chore: bump version to 1.2.3");
    assert!(commit_message(None, "0.1.0").starts_with("chore: bump version to"));
    assert_eq!(commit_message(Some("Release {version} ({version})"), "2.0.0"), "Release 2.0.0 (2.0.0)");
    assert_eq!(release_tag_name("v", "1.0.0"), "v1.0.0");
    assert_eq!(
        signature_identity(None, Some("me@example.com".to_string())),
        ("Autoversion Action".to_string(), "me@example.com".to_string())
    );
    assert_eq!(check_tag_deletion("v9.9.9", false), Err("Tag 'v9.9.9' does not exist".to_string()));
    assert!(check_tag_deletion("v1.0.0", true).is_ok());
    assert_eq!(check_revert(0), Err("Cannot revert initial commit".to_string()));
    assert!(check_revert(1).is_ok());
}

#[test]
fn latest_tag_is_greatest_in_string_order() {
    let tags = vec!["v1.10.0".to_string(), "v1.9.0".to_string(), "v1.2.0".to_string()];
    assert_eq!(latest_tag(&tags), Some("v1.9.0".to_string()));
    assert_eq!(latest_tag(&vec![]), None);
}

#[test]
fn test_find_backup_files_empty_directory() {
    let files = project(&[]);
    assert_eq!(find_backup_files(&files).len(), 0);
}

#[test]
fn test_find_backup_files_single_backup() {
    let files = project(&["package.json.autoversion.backup"]);
    let backups = find_backup_files(&files);
    assert_eq!(backups.len(), 1);
    assert!(backups[0].ends_with(".autoversion.backup"));
}

#[test]
fn test_find_backup_files_multiple_backups() {
    let files = project(&["package.json.autoversion.backup", "Cargo.toml.autoversion.backup"]);
    assert_eq!(find_backup_files(&files).len(), 2);
}

#[test]
fn test_find_backup_files_ignores_regular_files() {
    let files = project(&["package.json", "package.json.autoversion.backup"]);
    let backups = find_backup_files(&files);
    assert_eq!(backups.len(), 1);
    assert!(backups[0].ends_with("package.json.autoversion.backup"));
}

#[test]
fn mod_test_rollback_no_backups() {
    let options = RollbackOptions::default();
    let result = plan_rollback(&project(&[]), &options);
    assert!(result.is_err());
    assert!(result.err().unwrap().contains("No backup files found"));
}

#[test]
fn test_rollback_default_options() {
    let options = RollbackOptions::default();
    assert!(options.restore_files && options.delete_tags && !options.revert_commits);
    let plan = plan_rollback(&project(&["VERSION", "VERSION.autoversion.backup"]), &options).unwrap();
    assert_eq!(plan.restores.len(), 1);
    assert_eq!(plan.restores[0].backup, "/work/project/VERSION.autoversion.backup");
    assert_eq!(plan.restores[0].original, Some("/work/project/VERSION".to_string()));
    assert_eq!(plan.delete_tag, None);
    assert!(!plan.revert_commit);
}

#[test]
fn rollback_plan_with_version_and_git_only() {
    let options = RollbackOptions {
        restore_files: false,
        delete_tags: true,
        revert_commits: true,
        version: Some("1.2.3".to_string()),
    };
    let plan = plan_rollback(&project(&["pom.xml.autoversion.backup"]), &options).unwrap();
    assert_eq!(plan.restores.len(), 0);
    assert_eq!(plan.delete_tag, Some("v1.2.3".to_string()));
    assert!(plan.revert_commit);
}

#[test]
fn default_configuration() {
    let c = AutoversionConfig::default();
    assert_eq!(c.technology, None);
    assert_eq!(c.default_bump, "patch");
    assert_eq!(c.tag_prefix, "v");
    assert!(c.create_tag);
    assert!(c.commit_files.is_empty());
    assert_eq!(c.commit_message, None);
    assert_eq!(c.allowed_branches, vec!["main", "master"]);
}

#[test]
fn detect_all_sorts_by_confidence() {
    let detector = TechnologyDetector::new();
    let files = project(&["VERSION", "go.mod", "Cargo.toml", "package.json"]);
    let all = detector.detect_all(&files);
    let order: Vec<(String, u32)> = all.iter().map(|d| (d.technology.name(), d.confidence)).collect();
    assert_eq!(
        order,
        vec![
            ("npm".to_string(), 90),
            ("cargo".to_string(), 85),
            ("go".to_string(), 85),
            ("generic".to_string(), 10)
        ]
    );
    assert_eq!(all[1].primary_file, "/work/project/Cargo.toml");
    assert_eq!(all[1].files_found, vec!["/work/project/Cargo.toml".to_string()]);
    for d in &all {
        assert_eq!(d.primary_file, d.files_found[0]);
    }
    assert!(detector.detect_all(&project(&[])).is_empty());
}

#[test]
fn validate_detection_checks_content() {
    let detector = TechnologyDetector::new();
    let all = detector.detect_all(&project(&["package.json"]));
    assert!(detector.validate_detection(&all[0], Ok("{\"version\": \"1.0.0\"}".to_string())).is_ok());
    assert_eq!(
        detector.validate_detection(&all[0], Ok("{}".to_string())),
        Err("package.json does not contain version field".to_string())
    );
    assert_eq!(
        detector.validate_detection(&all[0], Err("denied".to_string())),
        Err("Cannot read /work/project/package.json: denied".to_string())
    );
    let py = detector.detect_all(&project(&["pyproject.toml"]));
    assert_eq!(
        detector.validate_detection(&py[0], Ok("[project]\nname = \"x\"\n".to_string())),
        Err("pyproject.toml does not contain version field".to_string())
    );
    let generic = detector.detect_all(&project(&["VERSION"]));
    assert_eq!(detector.validate_detection(&generic[0], Ok("  \n".to_string())), Err("Version file is empty".to_string()));
}

#[test]
fn every_lone_supported_file_is_detected() {
    let detector = TechnologyDetector::new();
    let table = [
        ("package.json", "npm"),
        ("Cargo.toml", "cargo"),
        ("pom.xml", "maven"),
        ("pyproject.toml", "python"),
        ("setup.py", "python"),
        ("setup.cfg", "python"),
        ("go.mod", "go"),
        ("composer.json", "composer"),
        ("VERSION", "generic"),
        ("version.txt", "generic"),
        (".version", "generic"),
    ];
    for (name, technology) in table {
        assert_eq!(detector.detect(&project(&[name])), Ok(technology.to_string()));
    }
    assert!(detector.detect(&project(&["README.md"])).is_err());
    assert!(detector.detect(&project(&["version"])).is_err());
}

#[test]
fn asking_for_one_technology_agrees_with_detect_all() {
    let detector = TechnologyDetector::new();
    let files = project(&["setup.py", "VERSION"]);
    let all = detector.detect_all(&files);
    for technology in [Technology::Npm, Technology::Python, Technology::Generic, Technology::Maven] {
        let listed = all.iter().find(|d| d.technology == technology);
        assert_eq!(detector.has_technology(&files, &technology), Ok(listed.is_some()));
        match listed {
            Some(d) => assert_eq!(detector.get_primary_file(&files, &technology), Ok(d.files_found[0].clone())),
            None => assert!(detector.get_primary_file(&files, &technology).is_err()),
        }
    }
    assert_eq!(detector.get_primary_file(&files, &Technology::Python), Ok("/work/project/setup.py".to_string()));
}

#[test]
fn rollback_restores_the_file_the_backup_was_taken_from() {
    let options = RollbackOptions::default();
    let plan = plan_rollback(&project(&["VERSION", "VERSION..autoversion.backup"]), &options).unwrap();
    assert_eq!(plan.restores[0].original, Some("/work/project/VERSION".to_string()));
    let plan = plan_rollback(&project(&["x.", "x..autoversion.backup"]), &options).unwrap();
    assert_eq!(plan.restores[0].original, Some("/work/project/x.".to_string()));
    let plan = plan_rollback(&project(&["a.b.", "a.b..autoversion.backup"]), &options).unwrap();
    assert_eq!(plan.restores[0].original, Some("/work/project/a.b.".to_string()));
    let plan = plan_rollback(&project(&[".version..autoversion.backup"]), &options).unwrap();
    assert_eq!(plan.restores[0].original, Some("/work/project/.version".to_string()));
}
