use autoversion::utils::errors::{AutoversionError, IntoAutoversionError};
use autoversion::utils::files::{backup_path, normalize_line_endings, restored_path};
use autoversion::utils::security::{
    check_file_path, check_project_path, contains_suspicious_patterns, sanitize_error_message, sanitize_filename,
    validate_project_path, probe_file_path, probe_path_kind, probe_project_path, FilePathProbe,
};

#[test]
fn test_error_display() {
    let errors = vec![
        AutoversionError::InvalidVersion("bad version".to_string()),
        AutoversionError::TechnologyNotDetected("no tech found".to_string()),
        AutoversionError::FileOperation("file not found".to_string()),
        AutoversionError::GitOperation("git failed".to_string()),
        AutoversionError::Configuration("bad config".to_string()),
        AutoversionError::Validation("invalid input".to_string()),
        AutoversionError::External("network error".to_string()),
    ];

    for error in errors {
        let display = error.display_text();
        assert!(!display.is_empty());
        println!("Error: {}", display);
    }
}

#[test]
fn test_convenience_constructors() {
    let error = AutoversionError::invalid_version("test");
    assert!(matches!(error, AutoversionError::InvalidVersion(_)));

    let error = AutoversionError::technology_not_detected("test");
    assert!(matches!(error, AutoversionError::TechnologyNotDetected(_)));

    let error = AutoversionError::file_operation("test");
    assert!(matches!(error, AutoversionError::FileOperation(_)));
}

#[test]
fn test_anyhow_conversion() {
    let anyhow_err = anyhow::Error::msg("version parsing failed");
    let av_err: AutoversionError = AutoversionError::from_message(&anyhow_err.to_string());

    assert!(matches!(av_err, AutoversionError::InvalidVersion(_)));
}

#[test]
fn test_trait_methods() {
    let result: Result<(), std::io::Error> = Err(std::io::Error::new(std::io::ErrorKind::NotFound, "file not found"));

    let av_result = result.file_error("Failed to read file");
    assert!(av_result.is_err());

    if let Err(AutoversionError::FileOperation(msg)) = av_result {
        assert!(msg.contains("Failed to read file"));
        assert!(msg.contains("file not found"));
    } else {
        panic!("Expected FileOperation error");
    }
}

#[test]
fn error_kinds_by_message() {
    assert!(matches!(AutoversionError::from_message("git push failed"), AutoversionError::GitOperation(_)));
    assert!(matches!(AutoversionError::from_message("cannot write output"), AutoversionError::FileOperation(_)));
    assert!(matches!(AutoversionError::from_message("bad config key"), AutoversionError::Configuration(_)));
    assert!(matches!(AutoversionError::from_message("timeout"), AutoversionError::External(_)));
    assert_eq!(AutoversionError::validation("x").display_text(), "Validation error: x");
}

#[test]
fn test_normalize_line_endings() {
    let content_unix = "line1\nline2\nline3";
    let content_windows = "line1\r\nline2\r\nline3";
    assert_eq!(normalize_line_endings(content_windows), content_unix);
    assert_eq!(normalize_line_endings(content_unix), content_unix);
}

#[test]
fn backup_names() {
    assert_eq!(backup_path("/p/composer.json"), "/p/composer.json.autoversion.backup");
    assert_eq!(backup_path("/p/VERSION"), "/p/VERSION..autoversion.backup");
    assert_eq!(restored_path("/p/composer.json.autoversion.backup"), Some("/p/composer.json".to_string()));
    assert_eq!(restored_path("/p/composer.json"), None);
}

#[test]
fn test_validate_project_path_nonexistent() {
    let result = validate_project_path("/nonexistent/path");
    assert!(result.is_err());
    assert!(result.unwrap_err().contains("does not exist"));
}

#[test]
fn test_sanitize_filename() {
    assert_eq!(sanitize_filename("normal.txt"), "normal.txt");
    assert_eq!(sanitize_filename("file-name_123.tar.gz"), "file-name_123.tar.gz");
    assert_eq!(sanitize_filename("../../../etc/passwd"), "etcpasswd");
    assert_eq!(sanitize_filename("file; rm -rf /"), "filerm-rf");
    assert_eq!(sanitize_filename("file\0name"), "filename");
    assert_eq!(sanitize_filename("...hidden"), "hidden");
}

#[test]
fn test_contains_suspicious_patterns() {
    assert!(!contains_suspicious_patterns("normal/path"));
    assert!(!contains_suspicious_patterns("file.txt"));

    assert!(contains_suspicious_patterns("../etc/passwd"));
    assert!(contains_suspicious_patterns("path/../other"));
    assert!(contains_suspicious_patterns("file\0name"));
}

#[test]
fn test_sanitize_error_message() {
    assert_eq!(
        sanitize_error_message("Failed to read /home/user/project/config.json"),
        "Failed to read /home/***/project/config.json"
    );
    assert_eq!(
        sanitize_error_message("Error in /Users/john/secret/file.txt"),
        "Error in /Users/***/secret/file.txt"
    );
    assert_eq!(
        sanitize_error_message("Failed to read C:\\Users\\admin\\config.ini"),
        "Failed to read C:\\Users\\***\\config.ini"
    );
    assert_eq!(sanitize_error_message("Cannot access /root/.ssh/id_rsa"), "Cannot access /***/.ssh/id_rsa");
    assert_eq!(sanitize_error_message("File not found: config.json"), "File not found: config.json");
    assert_eq!(
        sanitize_error_message("Copy from /home/alice/src to /home/bob/dest"),
        "Copy from /home/***/src to /home/***/dest"
    );
}

#[test]
fn test_validate_project_path_file_not_dir() {
    let result = check_project_path("/tmp/x/test.txt", true, false, Ok("/tmp/x/test.txt".to_string()));
    assert!(result.is_err());
    assert!(result.unwrap_err().contains("must be a directory"));
}

#[test]
fn test_validate_file_path_success() {
    let probe = FilePathProbe {
        project: Ok("/private/tmp/project".to_string()),
        file_exists: true,
        file: Ok("/private/tmp/project/test.txt".to_string()),
        parent_exists: false,
        parent: Err(String::new()),
    };
    let validated = check_file_path("/tmp/project/test.txt", "/tmp/project", probe).unwrap();
    assert!(validated.starts_with("/private/tmp/project"));
}

#[test]
fn test_validate_file_path_outside_project() {
    let probe = FilePathProbe {
        project: Ok("/tmp/one".to_string()),
        file_exists: true,
        file: Ok("/tmp/two/evil.txt".to_string()),
        parent_exists: false,
        parent: Err(String::new()),
    };
    let result = check_file_path("/tmp/two/evil.txt", "/tmp/one", probe);
    assert!(result.is_err());
    assert!(result.unwrap_err().contains("outside project"));
}

#[test]
fn new_file_in_project_is_accepted_by_its_parent() {
    let probe = FilePathProbe {
        project: Ok("/srv/p".to_string()),
        file_exists: false,
        file: Err(String::new()),
        parent_exists: true,
        parent: Ok("/srv/p/sub".to_string()),
    };
    assert_eq!(check_file_path("sub/new.txt", "/srv/p", probe), Ok("/srv/p/sub/new.txt".to_string()));
    let probe = FilePathProbe {
        project: Ok("/srv/p".to_string()),
        file_exists: false,
        file: Err(String::new()),
        parent_exists: true,
        parent: Ok("/srv/other".to_string()),
    };
    assert!(check_file_path("../other/new.txt", "/srv/p", probe).unwrap_err().contains("outside project"));
    let probe = FilePathProbe {
        project: Ok("/srv/p".to_string()),
        file_exists: false,
        file: Err(String::new()),
        parent_exists: false,
        parent: Err(String::new()),
    };
    assert_eq!(check_file_path("nope/new.txt", "/srv/p", probe), Err("Parent directory does not exist: /srv/p/nope".to_string()));
}

#[test]
fn line_endings_become_unix() {
    assert_eq!(normalize_line_endings("a\r\r\nb\r\n"), "a\nb\n");
    assert_eq!(normalize_line_endings("a\rb\r"), "a\rb\r");
    let once = normalize_line_endings("x\r\r\r\ny\r\n\r\n");
    assert!(!once.contains("\r\n"));
    assert_eq!(normalize_line_endings(&once), once);
}

#[test]
fn every_control_character_is_suspicious() {
    assert!(contains_suspicious_patterns("a\nb"));
    assert!(contains_suspicious_patterns("a\rb"));
    assert!(contains_suspicious_patterns("a\tb"));
}

#[test]
fn windows_user_names_with_s_are_masked() {
    assert_eq!(
        sanitize_error_message("Failed to read C:\\Users\\sam\\config.ini"),
        "Failed to read C:\\Users\\***\\config.ini"
    );
}

#[test]
fn backup_ending_is_stripped() {
    assert_eq!(backup_path("/p/VERSION"), "/p/VERSION..autoversion.backup");
    assert_eq!(restored_path("/p/VERSION..autoversion.backup"), Some("/p/VERSION.".to_string()));
    assert_eq!(restored_path("/p/a.b..autoversion.backup"), Some("/p/a.b.".to_string()));
}

#[test]
fn probing_a_file_path_asks_about_that_path() {
    let (probe, asked) = probe_file_path("no-such-file-for-autoversion.txt", "/");
    assert_eq!(probe.project, Ok("/".to_string()));
    assert!(!probe.file_exists);
    assert!(probe.parent_exists);
    assert_eq!(
        asked,
        vec!["/".to_string(), "/no-such-file-for-autoversion.txt".to_string(), "/".to_string(), "/".to_string()]
    );
    let (probe, asked) = probe_file_path("a.txt", "/no-such-dir-for-autoversion");
    assert!(probe.project.is_err());
    assert_eq!(asked, vec!["/no-such-dir-for-autoversion".to_string()]);
}

#[test]
fn probing_a_project_path_asks_about_that_path() {
    assert_eq!(probe_path_kind("/"), (true, true, vec!["/".to_string(), "/".to_string()]));
    assert_eq!(probe_path_kind("/no-such-dir-for-autoversion"), (false, false, vec!["/no-such-dir-for-autoversion".to_string()]));
    let (exists, is_dir, canonical, asked) = probe_project_path("/");
    assert!(exists && is_dir);
    assert_eq!(canonical, Ok("/".to_string()));
    assert_eq!(asked, vec!["/".to_string(), "/".to_string(), "/".to_string()]);
    let (exists, is_dir, canonical, asked) = probe_project_path("/no-such-dir-for-autoversion");
    assert!(!exists && !is_dir);
    assert_eq!(canonical, Err(String::new()));
    assert_eq!(asked.len(), 1);
}
