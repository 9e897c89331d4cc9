//! The texts of the project information report.
use crate::engine::detector::{
    detected, detection_views, detections, nothing_detected_message, sorted_by_confidence,
    technology_from_name, unsupported_technology_message, DetectionView, Technology, TechnologyDetector,
};
use crate::engine::project_files::ProjectFiles;
use crate::text::{chars_of, decimal, decimal_chars, join_strings, joined, string_of, views};
use crate::updaters::factory::{tech_current_version, tech_primary_file, UpdaterFactory};
use crate::updaters::traits::{FileReads, VersionUpdater};
use vstd::prelude::*;

verus! {

/// The files looked for when no technology is detected, in order.
pub open spec fn common_files_spec() -> Seq<Seq<char>> {
    seq!["package.json"@, "Cargo.toml"@, "pom.xml"@, "pyproject.toml"@, "setup.py"@, "VERSION"@, "version.txt"@]
}

/// The files looked for when no technology is detected.
pub fn common_files() -> (r: Vec<&'static str>)
    ensures
        r@.map_values(|s: &str| s@) == common_files_spec(),
{
    let r = vec!["package.json", "Cargo.toml", "pom.xml", "pyproject.toml", "setup.py", "VERSION", "version.txt"];
    assert(r@.map_values(|s: &str| s@) =~= common_files_spec());
    r
}

/// Whether each common file is present, one line each.
pub open spec fn presence_lines_for(files: ProjectFiles) -> Seq<Seq<char>> {
    common_files_spec().map_values(|f: Seq<char>| if files.spec_exists(f) { "  ✅ Found: "@ + f } else { "  ❌ Missing: "@ + f })
}

/// Whether each common file is present, one line each.
pub fn presence_lines(files: &ProjectFiles) -> (r: Vec<String>)
    ensures
        views(r@) == presence_lines_for(*files),
{
    let names = common_files();
    assert(names@.len() == 7) by {
        assert(names@.map_values(|s: &str| s@).len() == names@.len());
    }
    let mut r: Vec<String> = Vec::new();
    let mut i: usize = 0;
    while i < names.len()
        invariant
            names@.map_values(|s: &str| s@) == common_files_spec(),
            i <= names@.len(),
            names@.len() == 7,
            r@.len() == i,
            views(r@) == presence_lines_for(*files).subrange(0, i as int),
        decreases names@.len() - i,
    {
        let ghost before = views(r@);
        let f = names[i];
        assert(common_files_spec()[i as int] == f@);
        let line = if files.has_entry(f) {
            String::from_str("  ✅ Found: ").concat(f)
        } else {
            String::from_str("  ❌ Missing: ").concat(f)
        };
        r.push(line);
        assert forall|x: int| 0 <= x < i + 1 implies views(r@)[x] == presence_lines_for(*files).subrange(0, i + 1)[x] by {
            if x < i {
                assert(views(r@)[x] == before[x]);
            } else {
                assert(presence_lines_for(*files)[x] == (if files.spec_exists(f@) { "  ✅ Found: "@ + f@ } else { "  ❌ Missing: "@ + f@ }));
            }
        }
        assert(views(r@) =~= presence_lines_for(*files).subrange(0, i + 1));
        i = i + 1;
    }
    r
}

/// The most recent tags: the last three (or fewer) of the list, latest first.
pub open spec fn recent_tags_of(tags: Seq<Seq<char>>) -> Seq<Seq<char>> {
    let n = if tags.len() < 3 { tags.len() as int } else { 3 };
    Seq::new(n as nat, |i: int| tags[tags.len() - 1 - i])
}

/// The line about the repository's tags.
pub open spec fn tags_line_for(tags: Seq<Seq<char>>) -> Seq<char> {
    if tags.len() == 0 {
        "  🏷️  Recent tags: None"@
    } else {
        "  🏷️  Recent tags: "@ + joined(recent_tags_of(tags), ", "@)
    }
}

/// The line about the repository's tags, in the order the repository lists them.
pub fn tags_line(tags: &Vec<String>) -> (r: String)
    ensures
        r@ == tags_line_for(views(tags@)),
{
    if tags.len() == 0 {
        return String::from_str("  🏷️  Recent tags: None");
    }
    let mut recent: Vec<String> = Vec::new();
    let n = tags.len();
    let want: usize = if n < 3 { n } else { 3 };
    let mut i: usize = 0;
    while i < want
        invariant
            n == tags@.len(),
            want <= n,
            want <= 3,
            i <= want,
            recent@.len() == i,
            views(recent@) == recent_tags_of(views(tags@)).subrange(0, i as int),
            recent_tags_of(views(tags@)).len() == want,
        decreases want - i,
    {
        let ghost before = views(recent@);
        let t = tags[n - 1 - i].clone();
        recent.push(t);
        assert forall|x: int| 0 <= x < i + 1 implies views(recent@)[x] == recent_tags_of(views(tags@)).subrange(0, i + 1)[x] by {
            if x < i {
                assert(views(recent@)[x] == before[x]);
            } else {
                assert(recent_tags_of(views(tags@))[x] == views(tags@)[n - 1 - x]);
            }
        }
        assert(views(recent@) =~= recent_tags_of(views(tags@)).subrange(0, i + 1));
        i = i + 1;
    }
    assert(recent_tags_of(views(tags@)).subrange(0, want as int) =~= recent_tags_of(views(tags@)));
    String::from_str("  🏷️  Recent tags: ").concat(join_strings(&recent, ", ").as_str())
}

/// The line about uncommitted changes.
pub open spec fn status_line_for(changes: nat) -> Seq<char> {
    if changes == 0 {
        "  ✅ Repository: Clean"@
    } else {
        "  ⚠️  Repository: "@ + decimal(changes) + " uncommitted changes"@
    }
}

/// The line about uncommitted changes.
pub fn status_line(changes: usize) -> (r: String)
    ensures
        r@ == status_line_for(changes as nat),
{
    if changes == 0 {
        String::from_str("  ✅ Repository: Clean")
    } else {
        let n = string_of(&decimal_chars(changes as u64));
        String::from_str("  ⚠️  Repository: ").concat(n.as_str()).concat(" uncommitted changes")
    }
}

/// The line about one detected technology, with its confidence in percent and one
/// decimal.
pub fn detection_line(technology: &str, confidence_percent: u32) -> (r: String)
    ensures
        r@ == "  • "@ + technology@ + " (confidence: "@ + decimal(confidence_percent as nat) + ".0%)"@,
{
    let p = string_of(&decimal_chars(confidence_percent as u64));
    String::from_str("  • ").concat(technology).concat(" (confidence: ").concat(p.as_str()).concat(".0%)")
}

/// The lines about each detection, in the order given.
pub open spec fn detection_lines_for(ds: Seq<DetectionView>) -> Seq<Seq<char>> {
    ds.map_values(|d: DetectionView| "  • "@ + d.0.spec_name() + " (confidence: "@ + decimal(d.1 as nat) + ".0%)"@)
}

/// The lines about a project's version and primary file, as its updater reads
/// them; an error on the primary file is shown only in verbose mode.
pub open spec fn updater_lines_for(t: Technology, files: ProjectFiles, reads: FileReads, verbose: bool) -> Seq<Seq<char>> {
    let version_line = match tech_current_version(t, files, reads) {
        Ok(v) => "📦 Current Version: "@ + v,
        Err(e) => "❌ Version Error: "@ + e,
    };
    let primary_lines = match tech_primary_file(t, files) {
        Ok(f) => seq!["📄 Primary File: "@ + f],
        Err(e) => if verbose { seq!["⚠️  Primary File Error: "@ + e] } else { Seq::empty() },
    };
    seq![version_line] + primary_lines
}

/// What the report says of the project's files: its path; then the detected
/// technology, with its version and primary file and, in verbose mode, every
/// detection with its confidence; or, where none is detected, the failure and, in
/// verbose mode, which common files are present.
pub open spec fn project_report_for(files: ProjectFiles, reads: FileReads, verbose: bool) -> Seq<Seq<char>> {
    seq!["📋 Project Information"@, "━━━━━━━━━━━━━━━━━━━━━━"@, "📁 Path: "@ + files.root@] + match detected(files) {
        Some(t) => seq!["🔧 Technology: "@ + t.spec_name()] + match technology_from_name(t.spec_name()) {
            Some(u) => updater_lines_for(u, files, reads, verbose),
            None => seq!["❌ Updater Error: "@ + unsupported_technology_message(t.spec_name())],
        } + if verbose {
            seq!["\n🔍 Detection Details:"@] + detection_lines_for(sorted_by_confidence(detections(files)))
        } else {
            Seq::empty()
        },
        None => seq!["❌ Technology Detection Failed: "@ + nothing_detected_message(files.root@)] + if verbose {
            seq!["\n🔍 Searching for supported files:"@] + presence_lines_for(files)
        } else {
            Seq::empty()
        },
    }
}

/// What git says of a project, for the report: its branch, its number of
/// uncommitted changes, and its tags, each where git could tell.
pub struct GitFacts {
    pub branch: Option<String>,
    pub changes: Option<usize>,
    pub tags: Option<Vec<String>>,
}

/// The lines about git: for a repository, its branch, status and recent tags
/// where known; else that it is no repository.
pub open spec fn git_lines_for(repo: Option<GitFacts>) -> Seq<Seq<char>> {
    seq!["\n🔗 Git Information:"@] + match repo {
        None => seq!["  ❌ Not a git repository"@],
        Some(g) => (match g.branch {
            Some(b) => seq!["  🌿 Branch: "@ + b@],
            None => Seq::empty(),
        }) + seq![match g.changes {
            Some(n) => status_line_for(n as nat),
            None => "  ❓ Repository status: Unknown"@,
        }] + match g.tags {
            Some(t) => seq![tags_line_for(views(t@))],
            None => Seq::empty(),
        },
    }
}

/// The whole report: the project part, the git part in verbose mode, and a hint.
pub open spec fn info_report_for(files: ProjectFiles, reads: FileReads, verbose: bool, repo: Option<GitFacts>) -> Seq<Seq<char>> {
    project_report_for(files, reads, verbose) + (if verbose { git_lines_for(repo) } else { Seq::empty() })
        + seq!["\n✨ Use --analyze to see commit-based version recommendations"@]
}

/// Appends texts to a list of lines.
fn push_all(out: &mut Vec<String>, more: Vec<String>)
    ensures
        views(final(out)@) == views(old(out)@) + views(more@),
{
    let mut i: usize = 0;
    let ghost start = views(out@);
    while i < more.len()
        invariant
            i <= more@.len(),
            views(out@) == start + views(more@).subrange(0, i as int),
        decreases more@.len() - i,
    {
        let ghost before = views(out@);
        out.push(more[i].clone());
        assert(views(out@) =~= before.push(more@[i as int]@));
        assert(views(more@).subrange(0, i + 1) =~= views(more@).subrange(0, i as int).push(more@[i as int]@));
        i = i + 1;
    }
    assert(views(more@).subrange(0, more@.len() as int) =~= views(more@));
}

/// The lines about a project's version and primary file ([`updater_lines_for`]).
fn updater_lines(technology: &str, files: &ProjectFiles, reads: &FileReads, verbose: bool) -> (r: Vec<String>)
    ensures
        views(r@) == match technology_from_name(technology@) {
            Some(u) => updater_lines_for(u, *files, *reads, verbose),
            None => seq!["❌ Updater Error: "@ + unsupported_technology_message(technology@)],
        },
{
    let mut r: Vec<String> = Vec::new();
    match UpdaterFactory::create(technology) {
        Err(e) => {
            r.push(String::from_str("❌ Updater Error: ").concat(e.as_str()));
        },
        Ok(updater) => {
            match updater.get_current_version(files, reads) {
                Ok(v) => r.push(String::from_str("📦 Current Version: ").concat(v.as_str())),
                Err(e) => r.push(String::from_str("❌ Version Error: ").concat(e.as_str())),
            }
            match updater.get_primary_file(files) {
                Ok(f) => r.push(String::from_str("📄 Primary File: ").concat(f.as_str())),
                Err(e) => if verbose {
                    r.push(String::from_str("⚠️  Primary File Error: ").concat(e.as_str()));
                },
            }
        },
    }
    assert(views(r@) =~= match technology_from_name(technology@) {
        Some(u) => updater_lines_for(u, *files, *reads, verbose),
        None => seq!["❌ Updater Error: "@ + unsupported_technology_message(technology@)],
    });
    r
}

/// The report on a project ([`info_report_for`]); `repo` holds what git said,
/// where the project is a repository.
pub fn info_report(files: &ProjectFiles, reads: &FileReads, verbose: bool, repo: Option<GitFacts>) -> (r: Vec<String>)
    ensures
        views(r@) == info_report_for(*files, *reads, verbose, repo),
{
    let ghost g = repo;
    let mut r: Vec<String> = Vec::new();
    r.push(String::from_str("📋 Project Information"));
    r.push(String::from_str("━━━━━━━━━━━━━━━━━━━━━━"));
    r.push(String::from_str("📁 Path: ").concat(files.root.as_str()));
    let detector = TechnologyDetector::new();
    let ghost head = views(r@);
    assert(head =~= seq!["📋 Project Information"@, "━━━━━━━━━━━━━━━━━━━━━━"@, "📁 Path: "@ + files.root@]);
    match detector.detect(files) {
        Ok(technology) => {
            let ghost t = detected(*files)->Some_0;
            r.push(String::from_str("🔧 Technology: ").concat(technology.as_str()));
            let ul = updater_lines(technology.as_str(), files, reads, verbose);
            let ghost uv = views(ul@);
            push_all(&mut r, ul);
            assert(views(r@) =~= head + seq!["🔧 Technology: "@ + t.spec_name()] + uv);
            let ghost mid = views(r@);
            if verbose {
                r.push(String::from_str("\n🔍 Detection Details:"));
                let all = detector.detect_all(files);
                let mut lines: Vec<String> = Vec::new();
                let mut i: usize = 0;
                while i < all.len()
                    invariant
                        i <= all@.len(),
                        views(lines@) == detection_lines_for(detection_views(all@)).subrange(0, i as int),
                    decreases all@.len() - i,
                {
                    let ghost before = views(lines@);
                    let line = detection_line(all[i].technology.name().as_str(), all[i].confidence);
                    lines.push(line);
                    assert(views(lines@) =~= before.push(line@));
                    assert(detection_views(all@)[i as int] == all@[i as int].spec_view());
                    assert(line@ == detection_lines_for(detection_views(all@))[i as int]);
                    assert(views(lines@) =~= detection_lines_for(detection_views(all@)).subrange(0, i + 1));
                    i = i + 1;
                }
                assert(detection_lines_for(detection_views(all@)).subrange(0, all@.len() as int) =~= detection_lines_for(detection_views(all@)));
                let ghost dl = views(lines@);
                push_all(&mut r, lines);
                assert(views(r@) =~= mid + (seq!["\n🔍 Detection Details:"@] + dl));
                assert(dl == detection_lines_for(sorted_by_confidence(detections(*files))));
            } else {
                assert(views(r@) =~= mid + Seq::<Seq<char>>::empty());
            }
            assert(views(r@) =~= head + (seq!["🔧 Technology: "@ + t.spec_name()] + uv + if verbose {
                seq!["\n🔍 Detection Details:"@] + detection_lines_for(sorted_by_confidence(detections(*files)))
            } else {
                Seq::empty()
            }));
            assert(views(r@) =~= project_report_for(*files, *reads, verbose));
        },
        Err(e) => {
            r.push(String::from_str("❌ Technology Detection Failed: ").concat(e.as_str()));
            if verbose {
                r.push(String::from_str("\n🔍 Searching for supported files:"));
                push_all(&mut r, presence_lines(files));
            }
            assert(views(r@) =~= project_report_for(*files, *reads, verbose));
        },
    }
    let ghost proj = views(r@);
    if verbose {
        let mut git: Vec<String> = Vec::new();
        git.push(String::from_str("\n🔗 Git Information:"));
        match repo {
            None => git.push(String::from_str("  ❌ Not a git repository")),
            Some(facts) => {
                if let Some(b) = &facts.branch {
                    git.push(String::from_str("  🌿 Branch: ").concat(b.as_str()));
                }
                match facts.changes {
                    Some(n) => git.push(status_line(n)),
                    None => git.push(String::from_str("  ❓ Repository status: Unknown")),
                }
                if let Some(t) = &facts.tags {
                    git.push(tags_line(t));
                }
            },
        }
        assert(views(git@) =~= git_lines_for(g));
        push_all(&mut r, git);
    }
    assert(views(r@) =~= project_report_for(*files, *reads, verbose) + (if verbose { git_lines_for(g) } else { Seq::empty() }));
    r.push(String::from_str("\n✨ Use --analyze to see commit-based version recommendations"));
    assert(views(r@) =~= info_report_for(*files, *reads, verbose, g));
    r
}

} // verus!
