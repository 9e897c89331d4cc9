//! The report of a commit analysis: how many commits of each kind, and the bump
//! they call for.
use crate::cli::output::framed;
use crate::engine::semver::{manual_bump_outcome, BumpType, VersionBumper};
use crate::git::history::{recommended, CommitAnalysis};
use crate::text::{chars_of, decimal, decimal_chars, find_char_from, next_index_of, slice_chars, string_of, views};
use vstd::prelude::*;

verus! {

/// The first line of a message, as `str::lines` gives it (a `\r` before the line
/// feed is dropped), or the message itself where it has no line feed.
pub open spec fn first_line_of(m: Seq<char>) -> Seq<char> {
    let k = next_index_of(m, '\n', 0);
    if k < m.len() {
        let line = m.subrange(0, k);
        if line.len() > 0 && line.last() == '\r' {
            line.drop_last()
        } else {
            line
        }
    } else {
        m
    }
}

/// The first line of a message.
pub fn first_line(message: &str) -> (r: String)
    ensures
        r@ == first_line_of(message@),
{
    let m = chars_of(message);
    let k = find_char_from(&m, '\n', 0);
    if k < m.len() {
        if k > 0 && m[k - 1] == '\r' {
            let line = slice_chars(&m, 0, k - 1);
            assert(line@ =~= m@.subrange(0, k as int).drop_last());
            string_of(&line)
        } else {
            string_of(&slice_chars(&m, 0, k))
        }
    } else {
        string_of(&m)
    }
}

/// The lines for one kind of commit: its count, and in verbose mode the first line
/// of each message; nothing where there is no such commit.
pub open spec fn group_lines(label: Seq<char>, items: Seq<Seq<char>>, verbose: bool) -> Seq<Seq<char>> {
    if items.len() > 0 {
        seq![label + decimal(items.len())] + if verbose {
            framed(items.map_values(|m: Seq<char>| first_line_of(m)), "    • "@, Seq::empty())
        } else {
            Seq::empty()
        }
    } else {
        Seq::empty()
    }
}

/// The lines for one kind of commit.
fn push_group(lines: &mut Vec<String>, label: &str, items: &Vec<String>, verbose: bool)
    ensures
        views(final(lines)@) == views(old(lines)@) + group_lines(label@, views(items@), verbose),
{
    let ghost start = views(lines@);
    if items.len() == 0 {
        assert(views(lines@) =~= start + group_lines(label@, views(items@), verbose));
        return;
    }
    let count = string_of(&decimal_chars(items.len() as u64));
    lines.push(String::from_str(label).concat(count.as_str()));
    let ghost head = views(lines@);
    assert(head =~= start + seq![label@ + decimal(items@.len())]);
    if verbose {
        let mut i: usize = 0;
        let ghost firsts = views(items@).map_values(|m: Seq<char>| first_line_of(m));
        proof {
            reveal_strlit("");
        }
        while i < items.len()
            invariant
                i <= items@.len(),
                firsts == views(items@).map_values(|m: Seq<char>| first_line_of(m)),
                views(lines@) == head + framed(firsts.subrange(0, i as int), "    • "@, ""@),
            decreases items@.len() - i,
        {
            let ghost before = views(lines@);
            let line = String::from_str("    • ").concat(first_line(items[i].as_str()).as_str()).concat("");
            lines.push(line);
            assert(firsts[i as int] == first_line_of(items@[i as int]@));
            assert(framed(firsts.subrange(0, i + 1), "    • "@, ""@) =~= framed(firsts.subrange(0, i as int), "    • "@, ""@).push("    • "@ + firsts[i as int] + ""@));
            assert(views(lines@) =~= before.push(line@));
            i = i + 1;
        }
        assert(firsts.subrange(0, items@.len() as int) =~= firsts);
    }
    assert(views(lines@) =~= start + group_lines(label@, views(items@), verbose));
}

/// Why the recommendation is what it is.
pub open spec fn reasoning_for(breaking: nat, features: nat, fixes: nat) -> Seq<char> {
    if breaking > 0 {
        "  • Breaking changes detected → MAJOR bump required"@
    } else if features > 0 {
        "  • New features found → MINOR bump recommended"@
    } else if fixes > 0 {
        "  • Bug fixes found → PATCH bump recommended"@
    } else {
        "  • No conventional commits found → PATCH bump (default)"@
    }
}

/// Why the recommendation of an analysis is what it is.
pub fn reasoning_line(analysis: &CommitAnalysis) -> (r: &'static str)
    ensures
        r@ == reasoning_for(analysis.breaking_changes@.len(), analysis.features@.len(), analysis.fixes@.len()),
{
    if analysis.breaking_changes.len() > 0 {
        "  • Breaking changes detected → MAJOR bump required"
    } else if analysis.features.len() > 0 {
        "  • New features found → MINOR bump recommended"
    } else if analysis.fixes.len() > 0 {
        "  • Bug fixes found → PATCH bump recommended"
    } else {
        "  • No conventional commits found → PATCH bump (default)"
    }
}

/// The report of an analysis of the commits since `current`: the counts, the
/// recommended bump with the version it gives, the reasoning and how to apply it;
/// an error where the recommended bump cannot be applied to `current`.
pub open spec fn analysis_report(current: Seq<char>, a: CommitAnalysis, verbose: bool) -> Result<Seq<Seq<char>>, Seq<char>> {
    let bump = recommended(a.breaking_changes@.len(), a.features@.len(), a.fixes@.len());
    match manual_bump_outcome(current, bump.spec_name()) {
        None => Err(Seq::empty()),
        Some((new_version, _)) => Ok(
            seq!["\n📊 Commit Summary:"@, "  📈 Total commits since last version: "@ + decimal(a.total_commits as nat)]
                + group_lines("  💥 Breaking changes: "@, views(a.breaking_changes@), verbose)
                + group_lines("  ✨ Features: "@, views(a.features@), verbose)
                + group_lines("  🐛 Fixes: "@, views(a.fixes@), verbose)
                + group_lines("  📝 Other changes: "@, views(a.other@), verbose)
                + seq![
                    "\n🎯 Recommendation:"@,
                    "  📋 Bump Type: "@ + bump.spec_name(),
                    "  📦 New Version: "@ + current + " → "@ + new_version,
                    "\n💡 Reasoning:"@,
                    reasoning_for(a.breaking_changes@.len(), a.features@.len(), a.fixes@.len()),
                    "\n🚀 To apply this recommendation:"@,
                    "  ./autoversion -b "@ + bump.spec_name(),
                    "  ./autoversion -b auto  # Automatic detection"@,
                ],
        ),
    }
}

/// The report of an analysis of the commits since `current` (see
/// [`analysis_report`]); the error is the one of applying the bump.
pub fn analysis_lines(current: &str, analysis: &CommitAnalysis, verbose: bool) -> (r: Result<Vec<String>, String>)
    ensures
        match analysis_report(current@, *analysis, verbose) {
            Ok(lines) => r is Ok && views(r->Ok_0@) == lines,
            Err(_) => r is Err,
        },
{
    let bump = analysis.recommended_bump();
    let name = bump.name();
    let bumper = VersionBumper::new();
    let new_version = match bumper.preview_bump(current, name.as_str()) {
        Ok(v) => v,
        Err(e) => return Err(e),
    };
    let mut lines: Vec<String> = Vec::new();
    lines.push(String::from_str("\n📊 Commit Summary:"));
    let total = string_of(&decimal_chars(analysis.total_commits as u64));
    lines.push(String::from_str("  📈 Total commits since last version: ").concat(total.as_str()));
    let ghost s0 = views(lines@);
    assert(s0 =~= seq!["\n📊 Commit Summary:"@, "  📈 Total commits since last version: "@ + decimal(analysis.total_commits as nat)]);
    push_group(&mut lines, "  💥 Breaking changes: ", &analysis.breaking_changes, verbose);
    push_group(&mut lines, "  ✨ Features: ", &analysis.features, verbose);
    push_group(&mut lines, "  🐛 Fixes: ", &analysis.fixes, verbose);
    push_group(&mut lines, "  📝 Other changes: ", &analysis.other, verbose);
    let ghost s1 = views(lines@);
    lines.push(String::from_str("\n🎯 Recommendation:"));
    lines.push(String::from_str("  📋 Bump Type: ").concat(name.as_str()));
    lines.push(String::from_str("  📦 New Version: ").concat(current).concat(" → ").concat(new_version.as_str()));
    lines.push(String::from_str("\n💡 Reasoning:"));
    lines.push(String::from_str(reasoning_line(analysis)));
    lines.push(String::from_str("\n🚀 To apply this recommendation:"));
    lines.push(String::from_str("  ./autoversion -b ").concat(name.as_str()));
    lines.push(String::from_str("  ./autoversion -b auto  # Automatic detection"));
    assert(views(lines@) =~= analysis_report(current@, *analysis, verbose)->Ok_0);
    Ok(lines)
}

} // verus!
