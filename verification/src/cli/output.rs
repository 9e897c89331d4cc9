//! What a run of the program reports, and the texts it reports it in.
use crate::text::{bool_string, bool_text, chars_eq, chars_of, decimal, decimal_chars, join_strings, joined, string_of, views};
use vstd::prelude::*;

verus! {

/// The results of a run.
pub struct OutputData {
    pub version: String,
    pub previous_version: String,
    pub version_type: String,
    pub technology: String,
    pub files_updated: Vec<String>,
    pub tag_created: bool,
    pub tag_name: Option<String>,
    pub success: bool,
    pub message: String,
}

/// The results of a run as plain values.
pub struct OutputModel {
    pub version: Seq<char>,
    pub previous_version: Seq<char>,
    pub version_type: Seq<char>,
    pub technology: Seq<char>,
    pub files_updated: Seq<Seq<char>>,
    pub tag_created: bool,
    pub tag_name: Option<Seq<char>>,
    pub success: bool,
    pub message: Seq<char>,
}

impl OutputData {
    /// The results as plain values.
    pub open spec fn model(&self) -> OutputModel {
        OutputModel {
            version: self.version@,
            previous_version: self.previous_version@,
            version_type: self.version_type@,
            technology: self.technology@,
            files_updated: views(self.files_updated@),
            tag_created: self.tag_created,
            tag_name: match self.tag_name {
                Some(t) => Some(t@),
                None => None,
            },
            success: self.success,
            message: self.message@,
        }
    }
}

/// The results before anything is set: empty texts, no files, no tag, no success.
pub open spec fn empty_output() -> OutputModel {
    OutputModel {
        version: Seq::empty(),
        previous_version: Seq::empty(),
        version_type: Seq::empty(),
        technology: Seq::empty(),
        files_updated: Seq::empty(),
        tag_created: false,
        tag_name: None,
        success: false,
        message: Seq::empty(),
    }
}

impl Default for OutputData {
    fn default() -> (r: Self)
        ensures
            r.model() == empty_output(),
    {
        let r = OutputData {
            version: String::new(),
            previous_version: String::new(),
            version_type: String::new(),
            technology: String::new(),
            files_updated: Vec::new(),
            tag_created: false,
            tag_name: None,
            success: false,
            message: String::new(),
        };
        assert(r.model().files_updated =~= Seq::<Seq<char>>::empty());
        r
    }
}

/// The tag name that a prefix and a version make, where a tag was created and the
/// version is known.
pub open spec fn tag_name_for(m: OutputModel, prefix: Seq<char>) -> Option<Seq<char>> {
    if m.tag_created && m.version.len() > 0 {
        Some(prefix + m.version)
    } else {
        m.tag_name
    }
}

/// Collects the results of a run and writes them out.
pub struct ActionOutput {
    data: OutputData,
    tag_prefix: String,
}

impl ActionOutput {
    /// The results collected so far.
    pub closed spec fn data_model(&self) -> OutputModel {
        self.data.model()
    }

    /// The prefix that tag names are made with.
    pub closed spec fn prefix_model(&self) -> Seq<char> {
        self.tag_prefix@
    }

    /// No results yet, and the default tag prefix `v`.
    pub fn new() -> (r: Self)
        ensures
            r.data_model() == empty_output(),
            r.prefix_model() == seq!['v'],
    {
        ActionOutput { data: OutputData::default(), tag_prefix: string_of(&vec!['v']) }
    }

    /// Sets the new version.
    pub fn set_version(&mut self, version: &str)
        ensures
            final(self).data_model() == (OutputModel { version: version@, ..old(self).data_model() }),
            final(self).prefix_model() == old(self).prefix_model(),
    {
        self.data.version = string_of(&chars_of(version));
    }

    /// Sets the previous version.
    pub fn set_previous_version(&mut self, version: &str)
        ensures
            final(self).data_model() == (OutputModel { previous_version: version@, ..old(self).data_model() }),
            final(self).prefix_model() == old(self).prefix_model(),
    {
        self.data.previous_version = string_of(&chars_of(version));
    }

    /// Sets the bump type.
    pub fn set_version_type(&mut self, version_type: &str)
        ensures
            final(self).data_model() == (OutputModel { version_type: version_type@, ..old(self).data_model() }),
            final(self).prefix_model() == old(self).prefix_model(),
    {
        self.data.version_type = string_of(&chars_of(version_type));
    }

    /// Sets the technology.
    pub fn set_technology(&mut self, technology: &str)
        ensures
            final(self).data_model() == (OutputModel { technology: technology@, ..old(self).data_model() }),
            final(self).prefix_model() == old(self).prefix_model(),
    {
        self.data.technology = string_of(&chars_of(technology));
    }

    /// Sets the list of updated files.
    pub fn set_files_updated(&mut self, files: &[String])
        ensures
            final(self).data_model() == (OutputModel { files_updated: views(files@), ..old(self).data_model() }),
            final(self).prefix_model() == old(self).prefix_model(),
    {
        let mut v: Vec<String> = Vec::new();
        let mut i: usize = 0;
        while i < files.len()
            invariant
                i <= files@.len(),
                v@.len() == i,
                views(v@) == views(files@.subrange(0, i as int)),
            decreases files@.len() - i,
        {
            let ghost before = v@;
            let c = files[i].clone();
            v.push(c);
            assert forall|x: int| 0 <= x < i + 1 implies views(v@)[x] == views(files@.subrange(0, i + 1))[x] by {
                if x < i {
                    assert(views(before)[x] == views(files@.subrange(0, i as int))[x]);
                }
            }
            assert(views(v@) =~= views(files@.subrange(0, i + 1)));
            i = i + 1;
        }
        assert(files@.subrange(0, files@.len() as int) =~= files@);
        self.data.files_updated = v;
    }

    /// Records whether a tag was created; the tag name is then made from the prefix
    /// and the version, where both a tag and a version are there.
    pub fn set_tag_created(&mut self, created: bool)
        ensures
            final(self).data_model() == (OutputModel {
                tag_created: created,
                tag_name: tag_name_for(OutputModel { tag_created: created, ..old(self).data_model() }, old(self).prefix_model()),
                ..old(self).data_model()
            }),
            final(self).prefix_model() == old(self).prefix_model(),
    {
        self.data.tag_created = created;
        if created && self.data.version.unicode_len() > 0 {
            self.data.tag_name = Some(self.tag_prefix.clone().concat(self.data.version.as_str()));
        }
    }

    /// Sets the tag prefix; where a tag was created and a version is there, the tag
    /// name is made anew with it.
    pub fn set_tag_prefix(&mut self, prefix: &str)
        ensures
            final(self).data_model() == (OutputModel {
                tag_name: tag_name_for(old(self).data_model(), prefix@),
                ..old(self).data_model()
            }),
            final(self).prefix_model() == prefix@,
    {
        self.tag_prefix = string_of(&chars_of(prefix));
        if self.data.tag_created && self.data.version.unicode_len() > 0 {
            self.data.tag_name = Some(self.tag_prefix.clone().concat(self.data.version.as_str()));
        }
    }

    /// Sets a tag name of one's own.
    pub fn set_tag_name(&mut self, tag_name: &str)
        ensures
            final(self).data_model() == (OutputModel { tag_name: Some(tag_name@), ..old(self).data_model() }),
            final(self).prefix_model() == old(self).prefix_model(),
    {
        self.data.tag_name = Some(string_of(&chars_of(tag_name)));
    }

    /// Sets whether the run succeeded, and its message.
    pub fn set_result(&mut self, success: bool, message: &str)
        ensures
            final(self).data_model() == (OutputModel { success, message: message@, ..old(self).data_model() }),
            final(self).prefix_model() == old(self).prefix_model(),
    {
        self.data.success = success;
        self.data.message = string_of(&chars_of(message));
    }

    /// The results collected so far.
    pub fn get_data(&self) -> (r: &OutputData)
        ensures
            r.model() == self.data_model(),
    {
        &self.data
    }
}

impl Default for ActionOutput {
    fn default() -> (r: Self)
        ensures
            r.data_model() == empty_output(),
            r.prefix_model() == seq!['v'],
    {
        Self::new()
    }
}

/// The outputs for GitHub Actions, as key and value, in the order they are written.
pub open spec fn github_output_pairs(m: OutputModel) -> Seq<(Seq<char>, Seq<char>)> {
    seq![
        ("version"@, m.version),
        ("previous-version"@, m.previous_version),
        ("version-type"@, m.version_type),
        ("technology"@, m.technology),
        ("files-updated"@, joined(m.files_updated, ","@)),
        ("tag-created"@, bool_text(m.tag_created)),
    ] + (match m.tag_name {
        Some(t) => seq![("tag-name"@, t)],
        None => Seq::empty(),
    }) + seq![("success"@, bool_text(m.success))]
}

/// Each text between a prefix and a suffix.
pub open spec fn framed(v: Seq<Seq<char>>, pre: Seq<char>, post: Seq<char>) -> Seq<Seq<char>> {
    v.map_values(|f: Seq<char>| pre + f + post)
}

/// The lines of the GitHub Actions step summary.
pub open spec fn summary_lines_for(m: OutputModel) -> Seq<Seq<char>> {
    seq![
        "## 🚀 Autoversion Results"@,
        Seq::empty(),
        "| Field | Value |"@,
        "|-------|-------|"@,
        "| Previous Version | `"@ + m.previous_version + "` |"@,
        "| New Version | `"@ + m.version + "` |"@,
        "| Bump Type | `"@ + m.version_type + "` |"@,
        "| Technology | `"@ + m.technology + "` |"@,
        "| Files Updated | "@ + decimal(m.files_updated.len()) + " |"@,
        "| Tag Created | "@ + (if m.tag_created { "✅"@ } else { "❌"@ }) + " |"@,
    ] + (if m.files_updated.len() > 0 {
        seq![Seq::empty(), "### 📁 Files Updated"@] + framed(m.files_updated, "- `"@, "`"@)
    } else {
        Seq::empty()
    })
}

/// The lines of the report for people.
pub open spec fn human_lines_for(m: OutputModel) -> Seq<Seq<char>> {
    seq![
        "🚀 Autoversion Results"@,
        "━━━━━━━━━━━━━━━━━━━━━━━"@,
        "Previous Version: "@ + m.previous_version,
        "New Version:      "@ + m.version,
        "Bump Type:        "@ + m.version_type,
        "Technology:       "@ + m.technology,
        "Tag Created:      "@ + (if m.tag_created { "✅ Yes"@ } else { "❌ No"@ }),
    ] + (match m.tag_name {
        Some(t) => seq!["Tag Name:         "@ + t],
        None => Seq::empty(),
    }) + (if m.files_updated.len() > 0 {
        seq!["\n📁 Files Updated:"@] + framed(m.files_updated, "  • "@, Seq::empty())
    } else {
        Seq::empty()
    }) + (if m.message.len() > 0 {
        seq!["\n💬 "@ + m.message]
    } else {
        Seq::empty()
    })
}

/// Appends each text between a prefix and a suffix.
fn push_framed(lines: &mut Vec<String>, v: &Vec<String>, pre: &str, post: &str)
    ensures
        views(final(lines)@) == views(old(lines)@) + framed(views(v@), pre@, post@),
{
    let ghost start = views(lines@);
    let mut i: usize = 0;
    while i < v.len()
        invariant
            i <= v@.len(),
            views(lines@) == start + framed(views(v@.subrange(0, i as int)), pre@, post@),
        decreases v@.len() - i,
    {
        let ghost before = views(lines@);
        let line = String::from_str(pre).concat(v[i].as_str()).concat(post);
        lines.push(line);
        assert(framed(views(v@.subrange(0, i + 1)), pre@, post@) =~= framed(views(v@.subrange(0, i as int)), pre@, post@).push(pre@ + v@[i as int]@ + post@));
        assert(views(lines@) =~= before.push(line@));
        i = i + 1;
    }
    assert(v@.subrange(0, v@.len() as int) =~= v@);
}

impl ActionOutput {
    /// The outputs for GitHub Actions, as key and value.
    pub fn github_outputs(&self) -> (r: Vec<(String, String)>)
        ensures
            r@.map_values(|p: (String, String)| (p.0@, p.1@)) == github_output_pairs(self.data_model()),
    {
        let d = &self.data;
        let mut r: Vec<(String, String)> = Vec::new();
        r.push((String::from_str("version"), d.version.clone()));
        r.push((String::from_str("previous-version"), d.previous_version.clone()));
        r.push((String::from_str("version-type"), d.version_type.clone()));
        r.push((String::from_str("technology"), d.technology.clone()));
        r.push((String::from_str("files-updated"), join_strings(&d.files_updated, ",")));
        r.push((String::from_str("tag-created"), bool_string(d.tag_created)));
        match &d.tag_name {
            Some(t) => r.push((String::from_str("tag-name"), t.clone())),
            None => {},
        }
        r.push((String::from_str("success"), bool_string(d.success)));
        assert(r@.map_values(|p: (String, String)| (p.0@, p.1@)) =~= github_output_pairs(self.data_model()));
        r
    }

    /// The lines written to the `GITHUB_OUTPUT` file: `key=value`, one per output.
    pub fn github_output_lines(&self) -> (r: Vec<String>)
        ensures
            views(r@) == github_output_pairs(self.data_model()).map_values(|p: (Seq<char>, Seq<char>)| p.0 + seq!['='] + p.1),
    {
        let pairs = self.github_outputs();
        let ghost ps = github_output_pairs(self.data_model());
        let mut r: Vec<String> = Vec::new();
        let mut i: usize = 0;
        while i < pairs.len()
            invariant
                i <= pairs@.len(),
                pairs@.map_values(|p: (String, String)| (p.0@, p.1@)) == ps,
                views(r@) == ps.take(i as int).map_values(|p: (Seq<char>, Seq<char>)| p.0 + seq!['='] + p.1),
            decreases pairs@.len() - i,
        {
            let ghost before = r@;
            let line = pairs[i].0.clone().concat("=").concat(pairs[i].1.as_str());
            proof {
                reveal_strlit("=");
                assert(ps[i as int] == (pairs@[i as int].0@, pairs@[i as int].1@));
                assert("="@ =~= seq!['=']);
                assert(line@ =~= ps[i as int].0 + seq!['='] + ps[i as int].1);
            }
            r.push(line);
            assert(ps.take(i + 1) =~= ps.take(i as int).push(ps[i as int]));
            assert(views(r@) =~= views(before).push(line@));
            assert(ps.take(i + 1).map_values(|p: (Seq<char>, Seq<char>)| p.0 + seq!['='] + p.1) =~= ps.take(i as int).map_values(|p: (Seq<char>, Seq<char>)| p.0 + seq!['='] + p.1).push(ps[i as int].0 + seq!['='] + ps[i as int].1));
            i = i + 1;
        }
        assert(ps.take(pairs@.len() as int) =~= ps);
        r
    }

    /// The lines of the GitHub Actions step summary.
    pub fn summary_lines(&self) -> (r: Vec<String>)
        ensures
            views(r@) == summary_lines_for(self.data_model()),
    {
        let d = &self.data;
        let mut r: Vec<String> = Vec::new();
        r.push(String::from_str("## 🚀 Autoversion Results"));
        r.push(String::new());
        r.push(String::from_str("| Field | Value |"));
        r.push(String::from_str("|-------|-------|"));
        r.push(String::from_str("| Previous Version | `").concat(d.previous_version.as_str()).concat("` |"));
        r.push(String::from_str("| New Version | `").concat(d.version.as_str()).concat("` |"));
        r.push(String::from_str("| Bump Type | `").concat(d.version_type.as_str()).concat("` |"));
        r.push(String::from_str("| Technology | `").concat(d.technology.as_str()).concat("` |"));
        let count = string_of(&decimal_chars(d.files_updated.len() as u64));
        r.push(String::from_str("| Files Updated | ").concat(count.as_str()).concat(" |"));
        let mark = if d.tag_created { "✅" } else { "❌" };
        r.push(String::from_str("| Tag Created | ").concat(mark).concat(" |"));
        let ghost head = views(r@);
        assert(head =~= summary_lines_for(self.data_model()).subrange(0, 10));
        if d.files_updated.len() > 0 {
            r.push(String::new());
            r.push(String::from_str("### 📁 Files Updated"));
            let ghost mid = views(r@);
            assert(mid =~= head + seq![Seq::<char>::empty(), "### 📁 Files Updated"@]);
            push_framed(&mut r, &d.files_updated, "- `", "`");
        }
        assert(views(r@) =~= summary_lines_for(self.data_model()));
        r
    }

    /// The lines of the report for people.
    pub fn human_lines(&self) -> (r: Vec<String>)
        ensures
            views(r@) == human_lines_for(self.data_model()),
    {
        let d = &self.data;
        let mut r: Vec<String> = Vec::new();
        r.push(String::from_str("🚀 Autoversion Results"));
        r.push(String::from_str("━━━━━━━━━━━━━━━━━━━━━━━"));
        r.push(String::from_str("Previous Version: ").concat(d.previous_version.as_str()));
        r.push(String::from_str("New Version:      ").concat(d.version.as_str()));
        r.push(String::from_str("Bump Type:        ").concat(d.version_type.as_str()));
        r.push(String::from_str("Technology:       ").concat(d.technology.as_str()));
        let tag = if d.tag_created { "✅ Yes" } else { "❌ No" };
        r.push(String::from_str("Tag Created:      ").concat(tag));
        let ghost s0 = views(r@);
        match &d.tag_name {
            Some(t) => r.push(String::from_str("Tag Name:         ").concat(t.as_str())),
            None => {},
        }
        let ghost s1 = views(r@);
        assert(s1 =~= s0 + (match self.data_model().tag_name {
            Some(t) => seq!["Tag Name:         "@ + t],
            None => Seq::empty(),
        }));
        if d.files_updated.len() > 0 {
            r.push(String::from_str("\n📁 Files Updated:"));
            assert(views(r@) =~= s1 + seq!["\n📁 Files Updated:"@]);
            proof {
                reveal_strlit("");
            }
            push_framed(&mut r, &d.files_updated, "  • ", "");
        }
        let ghost s2 = views(r@);
        let ghost m = self.data_model();
        assert(s2 =~= s1 + (if m.files_updated.len() > 0 {
            seq!["\n📁 Files Updated:"@] + framed(m.files_updated, "  • "@, Seq::empty())
        } else {
            Seq::empty()
        }));
        if d.message.unicode_len() > 0 {
            r.push(String::from_str("\n💬 ").concat(d.message.as_str()));
        }
        assert(views(r@) =~= s2 + (if m.message.len() > 0 {
            seq!["\n💬 "@ + m.message]
        } else {
            Seq::empty()
        }));
        assert(views(r@) =~= human_lines_for(self.data_model()));
        r
    }
}

/// The formats a report can be written in.
#[derive(Debug, Clone, Copy, PartialEq, Eq, Structural)]
pub enum OutputFormat {
    GithubActions,
    Json,
    Human,
}

/// The format asked for by name, or `github-actions` when the program runs in
/// GitHub Actions and `human` elsewhere, where no name is given.
pub open spec fn output_format_for(env_format: Option<Seq<char>>, github_actions_env: bool) -> Result<OutputFormat, Seq<char>> {
    let name = match env_format {
        Some(f) => f,
        None => if github_actions_env { "github-actions"@ } else { "human"@ },
    };
    if name == "github-actions"@ {
        Ok(OutputFormat::GithubActions)
    } else if name == "json"@ {
        Ok(OutputFormat::Json)
    } else if name == "human"@ {
        Ok(OutputFormat::Human)
    } else {
        Err("Unknown output format: "@ + name)
    }
}

/// Chooses the format of the report from the format named in the environment, if
/// any, and whether the program runs in GitHub Actions.
pub fn select_output_format(env_format: Option<&str>, github_actions_env: bool) -> (r: Result<OutputFormat, String>)
    ensures
        match output_format_for(match env_format { Some(f) => Some(f@), None => None }, github_actions_env) {
            Ok(f) => r == Ok::<OutputFormat, String>(f),
            Err(e) => r is Err && r->Err_0@ == e,
        },
{
    let name: &str = match env_format {
        Some(f) => f,
        None => if github_actions_env { "github-actions" } else { "human" },
    };
    let n = chars_of(name);
    if chars_eq(&n, &chars_of("github-actions")) {
        Ok(OutputFormat::GithubActions)
    } else if chars_eq(&n, &chars_of("json")) {
        Ok(OutputFormat::Json)
    } else if chars_eq(&n, &chars_of("human")) {
        Ok(OutputFormat::Human)
    } else {
        Err(String::from_str("Unknown output format: ").concat(name))
    }
}

/// The text of a GitHub Actions annotation: the level, the file and line where
/// given, and the message.
pub open spec fn annotation_for(level: Seq<char>, message: Seq<char>, file: Option<Seq<char>>, line: Option<u32>) -> Seq<char> {
    match file {
        None => "::"@ + level + " ::"@ + message,
        Some(f) => match line {
            None => "::"@ + level + " file="@ + f + "::"@ + message,
            Some(n) => "::"@ + level + " file="@ + f + ",line="@ + decimal(n as nat) + "::"@ + message,
        },
    }
}

/// The text of a GitHub Actions annotation.
pub fn annotation_text(level: &str, message: &str, file: Option<&str>, line: Option<u32>) -> (r: String)
    ensures
        r@ == annotation_for(level@, message@, match file { Some(f) => Some(f@), None => None }, line),
{
    match file {
        None => String::from_str("::").concat(level).concat(" ::").concat(message),
        Some(f) => match line {
            None => String::from_str("::").concat(level).concat(" file=").concat(f).concat("::").concat(message),
            Some(n) => {
                let digits = string_of(&decimal_chars(n as u64));
                String::from_str("::").concat(level).concat(" file=").concat(f).concat(",line=").concat(
                    digits.as_str(),
                ).concat("::").concat(message)
            },
        },
    }
}

} // verus!
