use autoversion::cli::args::Args;

#[test]
fn test_default_args() {
    let args = Args::parse_from(&["autoversion"]);

    assert_eq!(args.bump_type, "auto");
    assert_eq!(args.technology, "auto");
    assert!(!args.create_tag);
    assert_eq!(args.tag_prefix, "v");
    assert!(!args.dry_run);
    assert_eq!(args.path, ".");
    assert!(!args.force);
    assert!(!args.commit);
    assert!(args.commit_message.is_none());
    assert!(!args.verbose);
    assert_eq!(args.output_format, "human");
    assert!(!args.show_info);
    assert!(!args.analyze);
}

#[test]
fn test_custom_args() {
    let path = "/tmp";
    let args = Args::parse_from(&[
        "autoversion",
        "--bump-type", "major",
        "--technology", "npm",
        "--tag-prefix", "release-",
        "--dry-run",
        "--path", path,
        "--force",
        "--commit",
        "--commit-message", "Release {version}",
        "--verbose",
        "--output", "json",
    ]);

    assert_eq!(args.bump_type, "major");
    assert_eq!(args.technology, "npm");
    assert!(!args.create_tag);
    assert_eq!(args.tag_prefix, "release-");
    assert!(args.dry_run);
    assert_eq!(args.path, path);
    assert!(args.force);
    assert!(args.commit);
    assert_eq!(args.commit_message, Some("Release {version}".to_string()));
    assert!(args.verbose);
    assert_eq!(args.output_format, "json");
}

#[test]
fn test_create_tag_flag() {
    let args = Args::parse_from(&["autoversion", "--create-tag", "--tag-prefix", "v"]);

    assert!(args.create_tag);
    assert_eq!(args.tag_prefix, "v");
}

#[test]
fn test_validation_invalid_bump_type() {
    let mut args = Args::parse_from(&["autoversion"]);
    args.bump_type = "invalid".to_string();

    assert!(args.validate().is_err());
    assert!(args.validate().unwrap_err().contains("Invalid bump type"));
}

#[test]
fn test_validation_invalid_technology() {
    let mut args = Args::parse_from(&["autoversion"]);
    args.technology = "invalid".to_string();

    assert!(args.validate().is_err());
    assert!(args.validate().unwrap_err().contains("Invalid technology"));
}

#[test]
fn test_validation_invalid_output_format() {
    let mut args = Args::parse_from(&["autoversion"]);
    args.output_format = "invalid".to_string();

    assert!(args.validate().is_err());
    assert!(args.validate().unwrap_err().contains("Invalid output format"));
}

#[test]
fn test_validation_nonexistent_path() {
    let mut args = Args::parse_from(&["autoversion"]);
    args.path = "/nonexistent/path".to_string();

    assert!(args.validate().is_err());
    assert!(args.validate().unwrap_err().contains("does not exist"));
}

#[test]
fn test_validation_commit_message_without_commit() {
    let mut args = Args::parse_from(&["autoversion"]);
    args.commit_message = Some("test".to_string());
    args.commit = false;

    assert!(args.validate().is_err());
    assert!(args
        .validate()
        .unwrap_err()
        .contains("--commit-message can only be used with --commit"));
}

#[test]
fn test_validation_conflicting_options() {
    let mut args = Args::parse_from(&["autoversion"]);
    args.show_info = true;
    args.analyze = true;

    assert!(args.validate().is_err());
    assert!(args
        .validate()
        .unwrap_err()
        .contains("Cannot use --show-info and --analyze together"));
}

#[test]
fn test_github_actions_detection() {
    let args = Args::parse_from(&["autoversion"]);
    assert!(args.is_github_actions(true));
    assert!(!args.is_github_actions(false));

    let mut args = Args::parse_from(&["autoversion"]);
    args.output_format = "github-actions".to_string();
    assert!(args.is_github_actions(false));
}

#[test]
fn test_effective_output_format() {
    let args = Args::parse_from(&["autoversion"]);
    assert_eq!(args.get_effective_output_format(true), "github-actions");

    let args = Args::parse_from(&["autoversion", "--output", "json"]);
    assert_eq!(args.get_effective_output_format(true), "json");

    let args = Args::parse_from(&["autoversion", "--output", "json"]);
    assert_eq!(args.get_effective_output_format(false), "json");

    let args = Args::parse_from(&["autoversion"]);
    assert_eq!(args.get_effective_output_format(false), "human");
}

#[test]
fn short_options_and_attached_values_are_read() {
    let args = Args::parse_from(&["autoversion", "-bminor", "-t=cargo", "-dfv", "-p", "/tmp", "-o", "json"]);
    assert_eq!(args.bump_type, "minor");
    assert_eq!(args.technology, "cargo");
    assert!(args.dry_run && args.force && args.verbose);
    assert_eq!(args.path, "/tmp");
    assert_eq!(args.output_format, "json");

    let args = Args::parse_from(&["autoversion", "--bump-type=patch", "-cCm", "msg {version}"]);
    assert_eq!(args.bump_type, "patch");
    assert!(args.create_tag && args.commit);
    assert_eq!(args.commit_message, Some("msg {version}".to_string()));
}

#[test]
fn refused_command_lines() {
    assert!(Args::try_parse_from(&["autoversion", "--unknown"]).is_err());
    assert!(Args::try_parse_from(&["autoversion", "positional"]).is_err());
    assert!(Args::try_parse_from(&["autoversion", "-b"]).is_err());
    assert!(Args::try_parse_from(&["autoversion", "-b", "--force"]).is_err());
    assert!(Args::try_parse_from(&["autoversion", "--force=yes"]).is_err());
    assert!(Args::try_parse_from(&["autoversion", "--path="]).is_err());
    assert!(Args::try_parse_from(&["autoversion", "-x"]).is_err());
    assert!(Args::try_parse_from(&["autoversion", "--", "extra"]).is_err());
    assert!(Args::try_parse_from(&["autoversion", "--"]).is_ok());
    assert!(Args::try_parse_from(&["autoversion", "--bump-type="]).is_ok());
}

#[test]
fn rollback_options_need_rollback() {
    let mut args = Args::parse_from(&["autoversion", "--rollback-version", "1.2.3"]);
    args.path = "/tmp".to_string();
    assert_eq!(
        args.validate_with(true, true).unwrap_err(),
        "--rollback-version can only be used with --rollback"
    );

    let args = Args::parse_from(&["autoversion", "-r", "--rollback-files-only", "--rollback-git-only"]);
    assert_eq!(
        args.validate_with(true, true).unwrap_err(),
        "Cannot use --rollback-files-only and --rollback-git-only together"
    );

    let args = Args::parse_from(&["autoversion", "-r", "-c"]);
    assert_eq!(
        args.validate_with(true, true).unwrap_err(),
        "Cannot use --create-tag or --commit with --rollback"
    );

    let args = Args::parse_from(&["autoversion", "-r", "-b", "major"]);
    assert_eq!(args.validate_with(true, true).unwrap_err(), "Cannot specify --bump-type with --rollback");

    let args = Args::parse_from(&["autoversion", "-r", "-d", "-b", "major"]);
    assert!(args.validate_with(true, true).is_ok());
}

#[test]
fn path_checks_come_after_value_checks() {
    let args = Args::parse_from(&["autoversion", "-p", "/somewhere"]);
    assert_eq!(args.validate_with(false, false).unwrap_err(), "Project path does not exist: /somewhere");
    assert_eq!(args.validate_with(true, false).unwrap_err(), "Project path is not a directory: /somewhere");
    assert!(args.validate_with(true, true).is_ok());

    let args = Args::parse_from(&["autoversion", "-b", "huge", "-p", "/somewhere"]);
    assert_eq!(
        args.validate_with(false, false).unwrap_err(),
        "Invalid bump type 'huge'. Valid options: auto, major, minor, patch"
    );

    let args = Args::parse_from(&["autoversion", "-i", "-d"]);
    assert_eq!(args.validate_with(true, true).unwrap_err(), "--dry-run is redundant with --show-info or --analyze");
}

#[test]
fn repeated_option_last_wins() {
    let args = Args::parse_from(&["autoversion", "-b", "major", "--bump-type", "patch", "-f", "--force"]);
    assert_eq!(args.bump_type, "patch");
    assert!(args.force);
    let args = Args::parse_from(&["autoversion", "-bminor", "-b", "major"]);
    assert_eq!(args.bump_type, "major");
}

#[test]
fn short_flags_combine_in_any_order() {
    let long = Args::parse_from(&["autoversion", "--create-tag", "--dry-run", "--force", "--bump-type", "patch"]);
    for cluster in ["-cdf", "-fdc", "-dfc"] {
        let short = Args::parse_from(&["autoversion", cluster, "-b", "patch"]);
        assert!(short.create_tag && short.dry_run && short.force);
        assert!(!short.commit && !short.verbose);
        assert_eq!(short.bump_type, long.bump_type);
        assert_eq!((short.create_tag, short.dry_run, short.force), (long.create_tag, long.dry_run, long.force));
    }
    let args = Args::parse_from(&["autoversion", "-Ccv", "-b", "auto", "-m", "Release v{version}"]);
    assert!(args.commit && args.create_tag && args.verbose);
    assert_eq!(args.commit_message, Some("Release v{version}".to_string()));
    let args = Args::parse_from(&["autoversion", "-iav"]);
    assert!(args.show_info && args.analyze && args.verbose);
}
