use autoversion::cli::analyze::{analysis_lines, first_line, reasoning_line};
use autoversion::cli::info::{detection_line, info_report, presence_lines, status_line, tags_line, GitFacts};
use autoversion::cli::output::{annotation_text, select_output_format, ActionOutput, OutputFormat};
use autoversion::cli::args::Args;
use autoversion::cli::run::{calculate_new_version, detect_technology, release_actions, result_lines};
use autoversion::engine::semver::VersionBumper;
use autoversion::updaters::traits::FileReads;
use autoversion::engine::project_files::ProjectFiles;
use autoversion::git::history::CommitAnalysis;

#[test]
fn test_output_data_creation() {
    let mut output = ActionOutput::new();

    output.set_version("1.2.3");
    output.set_previous_version("1.2.2");
    output.set_version_type("patch");
    output.set_technology("npm");
    output.set_files_updated(&["package.json".to_string()]);
    output.set_tag_created(true);
    output.set_result(true, "Version updated successfully");

    let data = output.get_data();
    assert_eq!(data.version, "1.2.3");
    assert_eq!(data.previous_version, "1.2.2");
    assert_eq!(data.version_type, "patch");
    assert_eq!(data.technology, "npm");
    assert_eq!(data.files_updated, vec!["package.json"]);
    assert!(data.tag_created);
    assert_eq!(data.tag_name, Some("v1.2.3".to_string()));
    assert!(data.success);
    assert_eq!(data.message, "Version updated successfully");
}

#[test]
fn test_github_actions_output_with_file() {
    let mut output = ActionOutput::new();
    output.set_version("2.0.0");
    output.set_technology("cargo");
    output.set_tag_created(true);

    let lines: Vec<String> = output
        .github_outputs()
        .into_iter()
        .map(|(k, v)| format!("{}={}", k, v))
        .collect();
    assert!(lines.contains(&"version=2.0.0".to_string()));
    assert!(lines.contains(&"technology=cargo".to_string()));
    assert!(lines.contains(&"tag-created=true".to_string()));
    assert!(lines.contains(&"tag-name=v2.0.0".to_string()));
}

#[test]
fn github_outputs_in_order() {
    let mut output = ActionOutput::new();
    output.set_version("1.1.0");
    output.set_previous_version("1.0.0");
    output.set_version_type("minor");
    output.set_technology("npm");
    output.set_files_updated(&["a/package.json".to_string(), "a/package-lock.json".to_string()]);
    let pairs = output.github_outputs();
    let keys: Vec<&str> = pairs.iter().map(|(k, _)| k.as_str()).collect();
    assert_eq!(
        keys,
        vec!["version", "previous-version", "version-type", "technology", "files-updated", "tag-created", "success"]
    );
    assert_eq!(pairs[4].1, "a/package.json,a/package-lock.json");
    assert_eq!(pairs[5].1, "false");
    assert_eq!(pairs[6].1, "false");
}

#[test]
fn tag_prefix_renames_created_tag() {
    let mut output = ActionOutput::new();
    output.set_tag_created(true);
    assert_eq!(output.get_data().tag_name, None);
    output.set_version("3.0.0");
    output.set_tag_prefix("release-");
    assert_eq!(output.get_data().tag_name, Some("release-3.0.0".to_string()));
    output.set_tag_name("custom");
    assert_eq!(output.get_data().tag_name, Some("custom".to_string()));
}

#[test]
fn human_and_summary_lines() {
    let mut output = ActionOutput::new();
    output.set_version("1.0.1");
    output.set_previous_version("1.0.0");
    output.set_version_type("patch");
    output.set_technology("generic");
    output.set_files_updated(&["VERSION".to_string()]);
    output.set_result(true, "done");
    let human = output.human_lines();
    assert_eq!(human[2], "Previous Version: 1.0.0");
    assert_eq!(human[6], "Tag Created:      ❌ No");
    assert_eq!(human[7], "\n📁 Files Updated:");
    assert_eq!(human[8], "  • VERSION");
    assert_eq!(human[9], "\n💬 done");
    assert_eq!(human.len(), 10);

    let summary = output.summary_lines();
    assert_eq!(summary[8], "| Files Updated | 1 |");
    assert_eq!(summary[9], "| Tag Created | ❌ |");
    assert_eq!(summary[12], "- `VERSION`");
}

#[test]
fn output_format_selection() {
    assert_eq!(select_output_format(None, false), Ok(OutputFormat::Human));
    assert_eq!(select_output_format(None, true), Ok(OutputFormat::GithubActions));
    assert_eq!(select_output_format(Some("json"), true), Ok(OutputFormat::Json));
    assert_eq!(select_output_format(Some("xml"), false), Err("Unknown output format: xml".to_string()));
}

#[test]
fn annotations() {
    assert_eq!(annotation_text("warning", "careful", None, None), "::warning ::careful");
    assert_eq!(annotation_text("error", "bad", Some("a.txt"), None), "::error file=a.txt::bad");
    assert_eq!(annotation_text("error", "bad", Some("a.txt"), Some(42)), "::error file=a.txt,line=42::bad");
}

#[test]
fn analysis_report_lines() {
    let analysis = CommitAnalysis {
        total_commits: 2,
        breaking_changes: vec![],
        features: vec!["feat: add x\n\nbody".to_string()],
        fixes: vec!["fix: y\r\nmore".to_string()],
        other: vec![],
    };
    assert_eq!(reasoning_line(&analysis), "  • New features found → MINOR bump recommended");
    let lines = analysis_lines("1.2.3", &analysis, true).unwrap();
    assert_eq!(lines[1], "  📈 Total commits since last version: 2");
    assert_eq!(lines[2], "  ✨ Features: 1");
    assert_eq!(lines[3], "    • feat: add x");
    assert_eq!(lines[4], "  🐛 Fixes: 1");
    assert_eq!(lines[5], "    • fix: y");
    assert_eq!(lines[7], "  📋 Bump Type: minor");
    assert_eq!(lines[8], "  📦 New Version: 1.2.3 → 1.3.0");
    assert_eq!(lines[12], "  ./autoversion -b minor");
    assert!(analysis_lines("not a version", &analysis, false).is_err());
    assert_eq!(first_line("single"), "single");
    assert_eq!(first_line(""), "");
}

#[test]
fn info_lines() {
    let mut files = ProjectFiles::new("/p");
    files.add("Cargo.toml", true);
    let lines = presence_lines(&files);
    assert_eq!(lines[0], "  ❌ Missing: package.json");
    assert_eq!(lines[1], "  ✅ Found: Cargo.toml");
    assert_eq!(lines.len(), 7);
    let tags = vec!["v1.0.0".to_string(), "v1.1.0".to_string(), "v1.2.0".to_string(), "v2.0.0".to_string()];
    assert_eq!(tags_line(&tags), "  🏷️  Recent tags: v2.0.0, v1.2.0, v1.1.0");
    assert_eq!(tags_line(&vec![]), "  🏷️  Recent tags: None");
    assert_eq!(status_line(0), "  ✅ Repository: Clean");
    assert_eq!(status_line(3), "  ⚠️  Repository: 3 uncommitted changes");
    assert_eq!(detection_line("npm", 90), "  • npm (confidence: 90.0%)");
}

#[test]
fn test_detect_technology_auto() {
    let mut files = ProjectFiles::new("/p");
    files.add("package.json", true);
    assert_eq!(detect_technology("auto", &files), Ok("npm".to_string()));
}

#[test]
fn test_detect_technology_explicit() {
    let files = ProjectFiles::new("/p");
    assert_eq!(detect_technology("cargo", &files), Ok("cargo".to_string()));
}

#[test]
fn test_calculate_new_version_manual() {
    let (new_version, bump_type) = calculate_new_version("1.2.3", "patch", &vec![]).unwrap();
    assert_eq!(new_version, "1.2.4");
    assert_eq!(bump_type, "patch");
}

#[test]
fn test_calculate_new_version_major() {
    let (new_version, bump_type) = calculate_new_version("1.2.3", "major", &vec![]).unwrap();
    assert_eq!(new_version, "2.0.0");
    assert_eq!(bump_type, "major");
}

#[test]
fn test_calculate_new_version_minor() {
    let (new_version, bump_type) = calculate_new_version("1.2.3", "minor", &vec![]).unwrap();
    assert_eq!(new_version, "1.3.0");
    assert_eq!(bump_type, "minor");
}

#[test]
fn auto_version_follows_commits() {
    let messages = vec!["fix: a".to_string(), "feat!: b".to_string()];
    assert_eq!(
        calculate_new_version("1.2.3", "auto", &messages).unwrap(),
        ("2.0.0".to_string(), "major".to_string())
    );
    assert_eq!(
        result_lines("1.0.0", "1.0.1", true),
        vec!["✅ Version updated from 1.0.0 to 1.0.1".to_string(), "🔍 Dry run mode - no changes made".to_string()]
    );
}

#[test]
fn github_output_file_lines() {
    let mut output = ActionOutput::new();
    output.set_version("1.2.3");
    output.set_previous_version("1.2.2");
    let lines = output.github_output_lines();
    assert_eq!(lines[0], "version=1.2.3");
    assert_eq!(lines[1], "previous-version=1.2.2");
    let pairs = output.github_outputs();
    assert_eq!(lines.len(), pairs.len());
}

#[test]
fn a_dry_run_changes_nothing() {
    let args = Args::parse_from(&["autoversion", "--dry-run", "--create-tag", "--commit"]);
    let actions = release_actions(&args, "1.2.4");
    assert!(!actions.write_files);
    assert_eq!(actions.commit, None);
    assert_eq!(actions.tag, None);
    let args = Args::parse_from(&["autoversion", "--create-tag", "--commit", "--commit-message", "release it"]);
    let actions = release_actions(&args, "1.2.4");
    assert!(actions.write_files);
    assert_eq!(actions.commit, Some(Some("release it".to_string())));
    assert_eq!(actions.tag, Some("v1.2.4".to_string()));
    let args = Args::parse_from(&["autoversion"]);
    let actions = release_actions(&args, "1.2.4");
    assert!(actions.write_files);
    assert_eq!((actions.commit, actions.tag), (None, None));
}

#[test]
fn every_bump_raises_the_version() {
    let bumper = VersionBumper::new();
    for bump in ["patch", "minor", "major"] {
        let (next, _) = bumper.manual_bump("1.2.3-alpha.1", bump).unwrap();
        assert_eq!(bumper.is_greater(&next, "1.2.3-alpha.1"), Ok(true));
    }
    assert_eq!(bumper.manual_bump("1.2.3-alpha.1", "patch").unwrap().0, "1.2.4");
    assert_eq!(bumper.is_greater("1.0.0", "1.0.0-alpha"), Ok(true));
    assert_eq!(bumper.is_greater("1.0.0-alpha", "1.0.0"), Ok(false));
}

#[test]
fn info_report_lists_project_then_git() {
    let mut files = ProjectFiles::new("/work/p");
    files.add("VERSION", true);
    let mut reads = FileReads::new();
    reads.add("VERSION", Ok("1.2.3\n".to_string()));
    let lines = info_report(&files, &reads, false, None);
    assert_eq!(
        lines,
        vec![
            "📋 Project Information".to_string(),
            "━━━━━━━━━━━━━━━━━━━━━━".to_string(),
            "📁 Path: /work/p".to_string(),
            "🔧 Technology: generic".to_string(),
            "📦 Current Version: 1.2.3".to_string(),
            "📄 Primary File: /work/p/VERSION".to_string(),
            "\n✨ Use --analyze to see commit-based version recommendations".to_string(),
        ]
    );
    let facts = GitFacts { branch: Some("main".to_string()), changes: Some(0), tags: Some(vec![]) };
    let verbose = info_report(&files, &reads, true, Some(facts));
    assert!(verbose.contains(&"  • generic (confidence: 10.0%)".to_string()));
    assert!(verbose.contains(&"  🌿 Branch: main".to_string()));
    assert!(verbose.contains(&"  ✅ Repository: Clean".to_string()));
    let bare = info_report(&ProjectFiles::new("/work/q"), &FileReads::new(), true, None);
    assert!(bare.contains(&"  ❌ Not a git repository".to_string()));
}
