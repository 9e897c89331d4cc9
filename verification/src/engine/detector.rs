//! Detection of the technology of a project from the files it holds.
use crate::engine::project_files::{join_path, ProjectFiles};
use crate::std_api::{path_file_name, std_path_file_name};
use crate::text::{
    ascii_lower, chars_eq, chars_of, contains_chars, contains_text, eq_ignore_ascii_case, has_infix, string_of,
    trim, trim_chars, views,
};
use vstd::prelude::*;

verus! {

/// Supported technology types.
#[derive(Debug, Clone, Copy, PartialEq, Eq, Structural)]
pub enum Technology {
    Npm,
    Cargo,
    Maven,
    Python,
    Go,
    Composer,
    Gradle,
    Generic,
}

/// The technology that a name stands for, compared without ASCII case;
/// `golang` is Go and `php` is Composer.
pub open spec fn technology_from_name(s: Seq<char>) -> Option<Technology> {
    let l = ascii_lower(s);
    if l == seq!['n', 'p', 'm'] {
        Some(Technology::Npm)
    } else if l == seq!['c', 'a', 'r', 'g', 'o'] {
        Some(Technology::Cargo)
    } else if l == seq!['m', 'a', 'v', 'e', 'n'] {
        Some(Technology::Maven)
    } else if l == seq!['p', 'y', 't', 'h', 'o', 'n'] {
        Some(Technology::Python)
    } else if l == seq!['g', 'o'] || l == seq!['g', 'o', 'l', 'a', 'n', 'g'] {
        Some(Technology::Go)
    } else if l == seq!['c', 'o', 'm', 'p', 'o', 's', 'e', 'r'] || l == seq!['p', 'h', 'p'] {
        Some(Technology::Composer)
    } else if l == seq!['g', 'r', 'a', 'd', 'l', 'e'] {
        Some(Technology::Gradle)
    } else if l == seq!['g', 'e', 'n', 'e', 'r', 'i', 'c'] {
        Some(Technology::Generic)
    } else {
        None
    }
}

/// The message for a name that is no supported technology.
pub open spec fn unsupported_technology_message(s: Seq<char>) -> Seq<char> {
    "Unsupported technology: "@ + s + ". Supported: npm, cargo, maven, python, go, composer, generic"@
}

impl Technology {
    /// The lower-case name of the technology.
    pub open spec fn spec_name(self) -> Seq<char> {
        match self {
            Technology::Npm => seq!['n', 'p', 'm'],
            Technology::Cargo => seq!['c', 'a', 'r', 'g', 'o'],
            Technology::Maven => seq!['m', 'a', 'v', 'e', 'n'],
            Technology::Python => seq!['p', 'y', 't', 'h', 'o', 'n'],
            Technology::Go => seq!['g', 'o'],
            Technology::Composer => seq!['c', 'o', 'm', 'p', 'o', 's', 'e', 'r'],
            Technology::Gradle => seq!['g', 'r', 'a', 'd', 'l', 'e'],
            Technology::Generic => seq!['g', 'e', 'n', 'e', 'r', 'i', 'c'],
        }
    }

    /// The lower-case name, as `Display` writes it.
    pub fn name(&self) -> (r: String)
        ensures
            r@ == self.spec_name(),
    {
        let v = match self {
            Technology::Npm => vec!['n', 'p', 'm'],
            Technology::Cargo => vec!['c', 'a', 'r', 'g', 'o'],
            Technology::Maven => vec!['m', 'a', 'v', 'e', 'n'],
            Technology::Python => vec!['p', 'y', 't', 'h', 'o', 'n'],
            Technology::Go => vec!['g', 'o'],
            Technology::Composer => vec!['c', 'o', 'm', 'p', 'o', 's', 'e', 'r'],
            Technology::Gradle => vec!['g', 'r', 'a', 'd', 'l', 'e'],
            Technology::Generic => vec!['g', 'e', 'n', 'e', 'r', 'i', 'c'],
        };
        string_of(&v)
    }

    /// Parses a technology name regardless of case, as `FromStr` does.
    pub fn parse_name(s: &str) -> (r: Result<Technology, String>)
        ensures
            match technology_from_name(s@) {
                Some(t) => r == Ok::<Technology, String>(t),
                None => r is Err && r->Err_0@ == unsupported_technology_message(s@),
            },
    {
        let c = chars_of(s);
        if eq_ignore_ascii_case(&c, &vec!['n', 'p', 'm']) {
            Ok(Technology::Npm)
        } else if eq_ignore_ascii_case(&c, &vec!['c', 'a', 'r', 'g', 'o']) {
            Ok(Technology::Cargo)
        } else if eq_ignore_ascii_case(&c, &vec!['m', 'a', 'v', 'e', 'n']) {
            Ok(Technology::Maven)
        } else if eq_ignore_ascii_case(&c, &vec!['p', 'y', 't', 'h', 'o', 'n']) {
            Ok(Technology::Python)
        } else if eq_ignore_ascii_case(&c, &vec!['g', 'o']) || eq_ignore_ascii_case(
            &c,
            &vec!['g', 'o', 'l', 'a', 'n', 'g'],
        ) {
            Ok(Technology::Go)
        } else if eq_ignore_ascii_case(&c, &vec!['c', 'o', 'm', 'p', 'o', 's', 'e', 'r'])
            || eq_ignore_ascii_case(&c, &vec!['p', 'h', 'p']) {
            Ok(Technology::Composer)
        } else if eq_ignore_ascii_case(&c, &vec!['g', 'r', 'a', 'd', 'l', 'e']) {
            Ok(Technology::Gradle)
        } else if eq_ignore_ascii_case(&c, &vec!['g', 'e', 'n', 'e', 'r', 'i', 'c']) {
            Ok(Technology::Generic)
        } else {
            Err(String::from_str("Unsupported technology: ").concat(s).concat(
                ". Supported: npm, cargo, maven, python, go, composer, generic",
            ))
        }
    }

    /// The name of the variant, as `Debug` writes it.
    pub open spec fn spec_variant_name(self) -> Seq<char> {
        match self {
            Technology::Npm => "Npm"@,
            Technology::Cargo => "Cargo"@,
            Technology::Maven => "Maven"@,
            Technology::Python => "Python"@,
            Technology::Go => "Go"@,
            Technology::Composer => "Composer"@,
            Technology::Gradle => "Gradle"@,
            Technology::Generic => "Generic"@,
        }
    }

    /// The name of the variant.
    pub fn variant_name(&self) -> (r: String)
        ensures
            r@ == self.spec_variant_name(),
    {
        match self {
            Technology::Npm => String::from_str("Npm"),
            Technology::Cargo => String::from_str("Cargo"),
            Technology::Maven => String::from_str("Maven"),
            Technology::Python => String::from_str("Python"),
            Technology::Go => String::from_str("Go"),
            Technology::Composer => String::from_str("Composer"),
            Technology::Gradle => String::from_str("Gradle"),
            Technology::Generic => String::from_str("Generic"),
        }
    }
}

impl std::str::FromStr for Technology {
    type Err = String;

    fn from_str(s: &str) -> (r: Result<Technology, String>)
        ensures
            match technology_from_name(s@) {
                Some(t) => r == Ok::<Technology, String>(t),
                None => r is Err && r->Err_0@ == unsupported_technology_message(s@),
            },
    {
        Technology::parse_name(s)
    }
}

/// The detection patterns, in the order they are tried: technology, the files
/// that reveal it (the first present one is its primary file), and its priority.
pub open spec fn pattern_table() -> Seq<(Technology, Seq<Seq<char>>, u8)> {
    seq![
        (Technology::Npm, seq!["package.json"@], 90u8),
        (Technology::Cargo, seq!["Cargo.toml"@], 85u8),
        (Technology::Maven, seq!["pom.xml"@], 80u8),
        (Technology::Python, seq!["pyproject.toml"@, "setup.py"@, "setup.cfg"@], 75u8),
        (Technology::Go, seq!["go.mod"@], 85u8),
        (Technology::Composer, seq!["composer.json"@], 80u8),
        (Technology::Generic, seq!["VERSION"@, "version.txt"@, ".version"@], 10u8),
    ]
}

/// The names among `names` that are regular files of the project, in order.
pub open spec fn found_files(names: Seq<Seq<char>>, pf: ProjectFiles) -> Seq<Seq<char>>
    decreases names.len(),
{
    if names.len() == 0 {
        Seq::empty()
    } else if pf.spec_is_file(names.last()) {
        found_files(names.drop_last(), pf).push(names.last())
    } else {
        found_files(names.drop_last(), pf)
    }
}

/// Ten points of confidence for a telling companion file: `pyproject.toml` among
/// Python's files, a `package-lock.json` or `yarn.lock` beside npm's, a
/// `Cargo.lock` beside Cargo's.
pub open spec fn combination_bonus(t: Technology, found: Seq<Seq<char>>, pf: ProjectFiles) -> nat {
    match t {
        Technology::Python => if found.contains("pyproject.toml"@) { 10 } else { 0 },
        Technology::Npm => if pf.spec_exists("package-lock.json"@) || pf.spec_exists("yarn.lock"@) { 10 } else { 0 },
        Technology::Cargo => if pf.spec_exists("Cargo.lock"@) { 10 } else { 0 },
        _ => 0,
    }
}

/// Confidence in percent: the priority, ten more per extra file found, the
/// combination bonus, at most one hundred.
pub open spec fn confidence(priority: u8, found: Seq<Seq<char>>, bonus: nat) -> u32 {
    let c = priority + 10 * (found.len() - 1) + bonus;
    if c > 100 { 100 } else { c as u32 }
}

/// A detection: technology, confidence in percent, paths of the files found.
pub type DetectionView = (Technology, u32, Seq<Seq<char>>);

/// The paths of files of the project, by name.
pub open spec fn paths_in(root: Seq<char>, names: Seq<Seq<char>>) -> Seq<Seq<char>> {
    names.map_values(|n: Seq<char>| join_path(root, n))
}

/// The detections for the first `n` patterns, in pattern order.
pub open spec fn detections_upto(pf: ProjectFiles, n: nat) -> Seq<DetectionView>
    decreases n,
{
    if n == 0 {
        Seq::empty()
    } else {
        let d = detections_upto(pf, (n - 1) as nat);
        let p = pattern_table()[n - 1];
        let found = found_files(p.1, pf);
        if found.len() > 0 {
            d.push((p.0, confidence(p.2, found, combination_bonus(p.0, found, pf)), paths_in(pf.root@, found)))
        } else {
            d
        }
    }
}

/// All detections, in pattern order.
pub open spec fn detections(pf: ProjectFiles) -> Seq<DetectionView> {
    detections_upto(pf, 7)
}

/// The index of the chosen detection among the first `n`: the last one whose
/// confidence is the greatest.
pub open spec fn best_upto(ds: Seq<DetectionView>, n: int) -> int
    decreases n,
{
    if n <= 1 {
        0
    } else {
        let b = best_upto(ds, n - 1);
        if ds[n - 1].1 >= ds[b].1 {
            n - 1
        } else {
            b
        }
    }
}

/// The detected technology: of the detections with the greatest confidence, the
/// last in pattern order; none when no pattern matches.
pub open spec fn detected(pf: ProjectFiles) -> Option<Technology> {
    let ds = detections(pf);
    if ds.len() == 0 {
        None
    } else {
        Some(ds[best_upto(ds, ds.len() as int)].0)
    }
}

/// The message when no technology is detected.
pub open spec fn nothing_detected_message(root: Seq<char>) -> Seq<char> {
    "No supported technology detected in "@ + root
        + ". Supported: npm (package.json), cargo (Cargo.toml), maven (pom.xml), python (pyproject.toml), go (go.mod), composer (composer.json), generic (VERSION)"@
}

/// The pattern for a technology, when there is one.
pub open spec fn pattern_index(t: Technology) -> Option<int> {
    match t {
        Technology::Npm => Some(0),
        Technology::Cargo => Some(1),
        Technology::Maven => Some(2),
        Technology::Python => Some(3),
        Technology::Go => Some(4),
        Technology::Composer => Some(5),
        Technology::Generic => Some(6),
        Technology::Gradle => None,
    }
}


/// A detection put into a list sorted by decreasing confidence: after every
/// detection of at least its confidence, before the rest.
pub open spec fn insert_by_confidence(s: Seq<DetectionView>, d: DetectionView) -> Seq<DetectionView>
    decreases s.len(),
{
    if s.len() == 0 {
        seq![d]
    } else if s[0].1 < d.1 {
        seq![d] + s
    } else {
        seq![s[0]] + insert_by_confidence(s.drop_first(), d)
    }
}

/// Detections sorted by decreasing confidence, equals keeping their order (a
/// stable sort).
pub open spec fn sorted_by_confidence(ds: Seq<DetectionView>) -> Seq<DetectionView>
    decreases ds.len(),
{
    if ds.len() == 0 {
        ds
    } else {
        insert_by_confidence(sorted_by_confidence(ds.drop_last()), ds.last())
    }
}

/// Inserting before the first detection of lower confidence.
proof fn lemma_insert_at_first_lower(s: Seq<DetectionView>, d: DetectionView, k: int)
    requires
        0 <= k <= s.len(),
        forall|j: int| 0 <= j < k ==> !((#[trigger] s[j]).1 < d.1),
        k < s.len() ==> s[k].1 < d.1,
    ensures
        insert_by_confidence(s, d) == s.subrange(0, k).push(d) + s.subrange(k, s.len() as int),
    decreases s.len(),
{
    if s.len() == 0 {
        assert(s.subrange(0, 0).push(d) + s.subrange(0, 0) =~= seq![d]);
    } else if k == 0 {
        assert(s.subrange(0, 0).push(d) + s.subrange(0, s.len() as int) =~= seq![d] + s);
    } else {
        let t = s.drop_first();
        assert forall|j: int| 0 <= j < k - 1 implies !((#[trigger] t[j]).1 < d.1) by {
            assert(t[j] == s[j + 1]);
        }
        lemma_insert_at_first_lower(t, d, k - 1);
        assert(seq![s[0]] + (t.subrange(0, k - 1).push(d) + t.subrange(k - 1, t.len() as int)) =~= s.subrange(0, k).push(d) + s.subrange(k, s.len() as int));
    }
}


/// Whether detections are in order of decreasing confidence.
pub open spec fn descending(s: Seq<DetectionView>) -> bool {
    forall|i: int, j: int| 0 <= i < j < s.len() ==> (#[trigger] s[i]).1 >= (#[trigger] s[j]).1
}

/// Inserting into a descending list keeps it descending and adds one detection.
proof fn lemma_insert_keeps_order(s: Seq<DetectionView>, d: DetectionView)
    requires
        descending(s),
    ensures
        descending(insert_by_confidence(s, d)),
        insert_by_confidence(s, d).len() == s.len() + 1,
        insert_by_confidence(s, d).to_multiset() == s.to_multiset().insert(d),
    decreases s.len(),
{
    broadcast use vstd::seq_lib::group_to_multiset_ensures;
    if s.len() == 0 {
        assert(seq![d] =~= Seq::<DetectionView>::empty().push(d));
    } else if s[0].1 < d.1 {
        let r = seq![d] + s;
        assert forall|i: int, j: int| 0 <= i < j < r.len() implies (#[trigger] r[i]).1 >= (#[trigger] r[j]).1 by {
            if i > 0 {
                assert(r[i] == s[i - 1] && r[j] == s[j - 1]);
            } else {
                assert(r[j] == s[j - 1]);
                assert(s[0].1 >= s[j - 1].1 || j - 1 == 0);
            }
        }
        assert(r =~= s.insert(0, d));
        vstd::seq_lib::to_multiset_insert(s, 0, d);
    } else {
        let t = s.drop_first();
        assert(descending(t)) by {
            assert forall|i: int, j: int| 0 <= i < j < t.len() implies (#[trigger] t[i]).1 >= (#[trigger] t[j]).1 by {
                assert(t[i] == s[i + 1] && t[j] == s[j + 1]);
            }
        }
        lemma_insert_keeps_order(t, d);
        let it = insert_by_confidence(t, d);
        let r = seq![s[0]] + it;
        assert forall|i: int, j: int| 0 <= i < j < r.len() implies (#[trigger] r[i]).1 >= (#[trigger] r[j]).1 by {
            if i > 0 {
                assert(r[i] == it[i - 1] && r[j] == it[j - 1]);
            } else {
                assert(r[j] == it[j - 1]);
                assert(it.to_multiset().count(it[j - 1]) > 0);
                assert(t.to_multiset().insert(d).count(it[j - 1]) > 0);
                if it[j - 1] != d {
                    assert(t.to_multiset().count(it[j - 1]) > 0);
                    assert(t.contains(it[j - 1]));
                    let k = choose|k: int| 0 <= k < t.len() && t[k] == it[j - 1];
                    assert(s[k + 1] == t[k]);
                }
            }
        }
        assert(s =~= seq![s[0]] + t);
        vstd::seq_lib::lemma_multiset_commutative(seq![s[0]], it);
        vstd::seq_lib::lemma_multiset_commutative(seq![s[0]], t);
        assert(r.to_multiset() =~= s.to_multiset().insert(d));
    }
}

/// Sorting detections by confidence puts them in order of decreasing confidence,
/// and keeps every detection, each as often as it was there.
pub proof fn lemma_sorted_by_confidence(ds: Seq<DetectionView>)
    ensures
        descending(sorted_by_confidence(ds)),
        sorted_by_confidence(ds).to_multiset() == ds.to_multiset(),
    decreases ds.len(),
{
    broadcast use vstd::seq_lib::group_to_multiset_ensures;
    if ds.len() > 0 {
        lemma_sorted_by_confidence(ds.drop_last());
        lemma_insert_keeps_order(sorted_by_confidence(ds.drop_last()), ds.last());
        assert(ds =~= ds.drop_last().push(ds.last()));
    }
}

/// The confidence of a validation failure, by technology: what the content of the
/// primary file must hold.
pub open spec fn detection_verdict(t: Technology, primary: Seq<char>, content: Result<Seq<char>, Seq<char>>) -> Result<(), Seq<char>> {
    match content {
        Err(e) => Err("Cannot read "@ + primary + ": "@ + e),
        Ok(c) => match t {
            Technology::Npm => if has_infix(c, "\"version\""@) { Ok(()) } else { Err("package.json does not contain version field"@) },
            Technology::Cargo => if has_infix(c, "version"@) { Ok(()) } else { Err("Cargo.toml does not contain version field"@) },
            Technology::Maven => if has_infix(c, "<version>"@) { Ok(()) } else { Err("pom.xml does not contain version element"@) },
            Technology::Python => if std_path_file_name(primary) == Some("pyproject.toml"@) && !has_infix(c, "version"@) {
                Err("pyproject.toml does not contain version field"@)
            } else {
                Ok(())
            },
            Technology::Go => if has_infix(c, "module "@) { Ok(()) } else { Err("go.mod does not contain module declaration"@) },
            Technology::Composer => if has_infix(c, "{"@) { Ok(()) } else { Err("composer.json is not valid JSON"@) },
            Technology::Generic => if trim(c).len() == 0 { Err("Version file is empty"@) } else { Ok(()) },
            Technology::Gradle => Ok(()),
        },
    }
}

/// Detection results as plain values.
pub open spec fn detection_views(v: Seq<DetectionResult>) -> Seq<DetectionView> {
    v.map_values(|d: DetectionResult| d.spec_view())
}

/// Whether a detection result names its first file found as primary file.
pub open spec fn primary_is_first(d: DetectionResult) -> bool {
    d.files_found@.len() > 0 && d.primary_file@ == d.files_found@[0]@
}

/// One detection pattern.
pub struct DetectionPattern {
    pub technology: Technology,
    pub files: Vec<String>,
    pub priority: u8,
}

impl DetectionPattern {
    /// The pattern as plain values.
    pub open spec fn spec_view(&self) -> (Technology, Seq<Seq<char>>, u8) {
        (self.technology, self.files@.map_values(|s: String| s@), self.priority)
    }
}

/// The outcome of one detection.
pub struct DetectionResult {
    pub technology: Technology,
    /// Confidence in percent.
    pub confidence: u32,
    /// Paths of the files found (the project path joined with each name), in
    /// pattern order.
    pub files_found: Vec<String>,
    /// Path of the first file found.
    pub primary_file: String,
}

impl DetectionResult {
    /// The detection as plain values.
    pub open spec fn spec_view(&self) -> DetectionView {
        (self.technology, self.confidence, self.files_found@.map_values(|s: String| s@))
    }
}

/// Detects project technology based on file presence.
pub struct TechnologyDetector {
    patterns: Vec<DetectionPattern>,
}

impl TechnologyDetector {
    #[verifier::type_invariant]
    spec fn patterns_are_table(&self) -> bool {
        &&& self.patterns@.len() == 7
        &&& forall|i: int| 0 <= i < 7 ==> (#[trigger] self.patterns@[i]).spec_view() == pattern_table()[i]
    }

    /// The detector's patterns as plain values, in the order they are tried.
    pub closed spec fn patterns_view(&self) -> Seq<(Technology, Seq<Seq<char>>, u8)> {
        self.patterns@.map_values(|p: DetectionPattern| p.spec_view())
    }

    /// A detector with the patterns of [`pattern_table`].
    pub fn new() -> (r: Self)
        ensures
            r.patterns_view() == pattern_table(),
    {
        let mut patterns: Vec<DetectionPattern> = Vec::new();
        patterns.push(DetectionPattern {
            technology: Technology::Npm,
            files: vec![String::from_str("package.json")],
            priority: 90,
        });
        patterns.push(DetectionPattern {
            technology: Technology::Cargo,
            files: vec![String::from_str("Cargo.toml")],
            priority: 85,
        });
        patterns.push(DetectionPattern {
            technology: Technology::Maven,
            files: vec![String::from_str("pom.xml")],
            priority: 80,
        });
        patterns.push(DetectionPattern {
            technology: Technology::Python,
            files: vec![String::from_str("pyproject.toml"), String::from_str("setup.py"), String::from_str("setup.cfg")],
            priority: 75,
        });
        patterns.push(DetectionPattern {
            technology: Technology::Go,
            files: vec![String::from_str("go.mod")],
            priority: 85,
        });
        patterns.push(DetectionPattern {
            technology: Technology::Composer,
            files: vec![String::from_str("composer.json")],
            priority: 80,
        });
        patterns.push(DetectionPattern {
            technology: Technology::Generic,
            files: vec![String::from_str("VERSION"), String::from_str("version.txt"), String::from_str(".version")],
            priority: 10,
        });
        assert(patterns@[0].spec_view() == pattern_table()[0]);
        assert(patterns@[1].spec_view() == pattern_table()[1]);
        assert(patterns@[2].spec_view() == pattern_table()[2]);
        assert(patterns@[3].spec_view() == pattern_table()[3]);
        assert(patterns@[4].spec_view() == pattern_table()[4]);
        assert(patterns@[5].spec_view() == pattern_table()[5]);
        assert(patterns@[6].spec_view() == pattern_table()[6]);
        assert(patterns@.map_values(|p: DetectionPattern| p.spec_view()) =~= pattern_table());
        TechnologyDetector { patterns }
    }

    /// The paths of the given files of the project.
    fn paths_of(names: &Vec<String>, pf: &ProjectFiles) -> (r: Vec<String>)
        ensures
            views(r@) == paths_in(pf.root@, views(names@)),
    {
        let mut r: Vec<String> = Vec::new();
        let mut i: usize = 0;
        while i < names.len()
            invariant
                i <= names@.len(),
                views(r@) == paths_in(pf.root@, views(names@).take(i as int)),
            decreases names@.len() - i,
        {
            let ghost before = r@;
            r.push(pf.path_of(names[i].as_str()));
            assert(views(names@).take(i + 1) =~= views(names@).take(i as int).push(names@[i as int]@));
            assert(views(r@) =~= views(before).push(join_path(pf.root@, names@[i as int]@)));
            assert(paths_in(pf.root@, views(names@).take(i + 1)) =~= paths_in(pf.root@, views(names@).take(i as int)).push(join_path(pf.root@, names@[i as int]@)));
            i = i + 1;
        }
        assert(views(names@).take(names@.len() as int) =~= views(names@));
        r
    }

    /// The names among `names` that are regular files of the project, in order.
    fn files_present(names: &Vec<String>, pf: &ProjectFiles) -> (r: Vec<String>)
        ensures
            views(r@) == found_files(views(names@), *pf),
    {
        let mut r: Vec<String> = Vec::new();
        let mut i: usize = 0;
        let ghost ns = views(names@);
        assert(ns.take(0) =~= Seq::<Seq<char>>::empty());
        assert(views(r@) =~= Seq::<Seq<char>>::empty());
        while i < names.len()
            invariant
                ns == views(names@),
                i <= names@.len(),
                views(r@) == found_files(ns.take(i as int), *pf),
            decreases names@.len() - i,
        {
            assert(ns.take(i + 1).drop_last() =~= ns.take(i as int));
            assert(ns.take(i + 1).last() == names@[i as int]@);
            if pf.is_file(names[i].as_str()) {
                r.push(names[i].clone());
                assert(views(r@) =~= found_files(ns.take(i as int), *pf).push(names@[i as int]@));
            }
            i = i + 1;
        }
        assert(ns.take(names@.len() as int) =~= ns);
        r
    }

    /// The bonus for a telling companion file.
    fn calculate_combination_bonus(technology: Technology, found: &Vec<String>, pf: &ProjectFiles) -> (r: u32)
        ensures
            r == combination_bonus(technology, views(found@), *pf),
    {
        match technology {
            Technology::Python => if contains_text(found, "pyproject.toml") { 10 } else { 0 },
            Technology::Npm => if pf.has_entry("package-lock.json") || pf.has_entry("yarn.lock") { 10 } else { 0 },
            Technology::Cargo => if pf.has_entry("Cargo.lock") { 10 } else { 0 },
            _ => 0,
        }
    }

    /// The confidence in percent for a pattern's priority, the files found and the bonus.
    fn calculate_confidence(priority: u8, found: &Vec<String>, bonus: u32) -> (r: u32)
        requires
            1 <= found@.len() <= 3,
            bonus <= 10,
        ensures
            r == confidence(priority, views(found@), bonus as nat),
    {
        let c: u32 = priority as u32 + 10 * ((found.len() - 1) as u32) + bonus;
        if c > 100 { 100 } else { c }
    }

    /// The detections of every pattern whose files are present, in pattern order,
    /// each with its confidence and the files found; the primary file is the path
    /// of the first file found.
    pub fn detections(&self, pf: &ProjectFiles) -> (r: Vec<DetectionResult>)
        ensures
            r@.map_values(|d: DetectionResult| d.spec_view()) == detections(*pf),
            forall|i: int| 0 <= i < r@.len() ==> (#[trigger] r@[i]).files_found@.len() > 0
                && r@[i].primary_file@ == r@[i].files_found@[0]@,
    {
        proof {
            use_type_invariant(self);
        }
        let mut r: Vec<DetectionResult> = Vec::new();
        let mut i: usize = 0;
        assert(r@.map_values(|d: DetectionResult| d.spec_view()) =~= detections_upto(*pf, 0));
        while i < self.patterns.len()
            invariant
                self.patterns@.len() == 7,
                forall|k: int| 0 <= k < 7 ==> (#[trigger] self.patterns@[k]).spec_view() == pattern_table()[k],
                i <= 7,
                r@.map_values(|d: DetectionResult| d.spec_view()) == detections_upto(*pf, i as nat),
                forall|k: int| 0 <= k < r@.len() ==> (#[trigger] r@[k]).files_found@.len() > 0
                    && r@[k].primary_file@ == r@[k].files_found@[0]@,
            decreases 7 - i,
        {
            let p = &self.patterns[i];
            assert(p.spec_view() == pattern_table()[i as int]);
            let found = Self::files_present(&p.files, pf);
            proof {
                assert(views(found@).len() <= views(p.files@).len()) by {
                    lemma_found_files_len(views(p.files@), *pf);
                }
            }
            if found.len() > 0 {
                let bonus = Self::calculate_combination_bonus(p.technology, &found, pf);
                let conf = Self::calculate_confidence(p.priority, &found, bonus);
                let paths = Self::paths_of(&found, pf);
                assert(views(paths@).len() == paths@.len());
                assert(views(found@).len() == found@.len());
                let primary = paths[0].clone();
                assert(primary@ == paths@[0]@);
                let d = DetectionResult {
                    technology: p.technology,
                    confidence: conf,
                    files_found: paths,
                    primary_file: primary,
                };
                let ghost old_r = r@;
                r.push(d);
                assert(r@.map_values(|d: DetectionResult| d.spec_view()) =~= old_r.map_values(
                    |d: DetectionResult| d.spec_view(),
                ).push(d.spec_view()));
            }
            i = i + 1;
        }
        r
    }

    /// Auto-detects the technology of a project: of the patterns whose files are
    /// present, the one with the greatest confidence (the last in pattern order
    /// among equals).
    pub fn detect(&self, pf: &ProjectFiles) -> (r: Result<String, String>)
        ensures
            match detected(*pf) {
                None => r is Err && r->Err_0@ == nothing_detected_message(pf.root@),
                Some(t) => r is Ok && r->Ok_0@ == t.spec_name(),
            },
    {
        let ds = self.detections(pf);
        let ghost dv = ds@.map_values(|d: DetectionResult| d.spec_view());
        if ds.len() == 0 {
            return Err(String::from_str("No supported technology detected in ").concat(pf.root.as_str()).concat(
                ". Supported: npm (package.json), cargo (Cargo.toml), maven (pom.xml), python (pyproject.toml), go (go.mod), composer (composer.json), generic (VERSION)",
            ));
        }
        let mut best: usize = 0;
        let mut i: usize = 1;
        while i < ds.len()
            invariant
                dv == ds@.map_values(|d: DetectionResult| d.spec_view()),
                1 <= i <= ds@.len(),
                best as int == best_upto(dv, i as int),
                best < i,
            decreases ds@.len() - i,
        {
            assert(dv[i as int] == ds@[i as int].spec_view());
            assert(dv[best as int] == ds@[best as int].spec_view());
            if ds[i].confidence >= ds[best].confidence {
                best = i;
            }
            i = i + 1;
        }
        assert(dv[best as int] == ds@[best as int].spec_view());
        Ok(ds[best].technology.name())
    }

    /// All detections, sorted by decreasing confidence (patterns of equal
    /// confidence in pattern order).
    pub fn detect_all(&self, pf: &ProjectFiles) -> (r: Vec<DetectionResult>)
        ensures
            detection_views(r@) == sorted_by_confidence(detections(*pf)),
            forall|i: int| 0 <= i < r@.len() ==> primary_is_first(#[trigger] r@[i]),
    {
        let mut rest = self.detections(pf);
        let ghost all = detection_views(rest@);
        let n = rest.len();
        let mut out: Vec<DetectionResult> = Vec::new();
        let mut i: usize = 0;
        assert(all.subrange(0, 0) =~= Seq::<DetectionView>::empty());
        assert(detection_views(rest@) =~= all.subrange(0, n as int));
        while i < n
            invariant
                n == all.len(),
                i <= n,
                rest@.len() == n - i,
                detection_views(rest@) == all.subrange(i as int, n as int),
                detection_views(out@) == sorted_by_confidence(all.subrange(0, i as int)),
                forall|j: int| 0 <= j < out@.len() ==> primary_is_first(#[trigger] out@[j]),
                forall|j: int| 0 <= j < rest@.len() ==> primary_is_first(#[trigger] rest@[j]),
            decreases n - i,
        {
            let ghost rv = rest@;
            let d = rest.remove(0);
            assert(primary_is_first(rv[0]));
            assert forall|j: int| 0 <= j < rest@.len() implies primary_is_first(#[trigger] rest@[j]) by {
                assert(rest@[j] == rv[j + 1]);
            }
            assert(d.spec_view() == all[i as int]) by {
                assert(detection_views(rv)[0] == all.subrange(i as int, n as int)[0]);
            }
            assert(detection_views(rest@) =~= all.subrange(i + 1, n as int)) by {
                assert forall|j: int| 0 <= j < rest@.len() implies #[trigger] detection_views(rest@)[j] == all.subrange(i + 1, n as int)[j] by {
                    assert(rest@[j] == rv[j + 1]);
                    assert(detection_views(rv)[j + 1] == all.subrange(i as int, n as int)[j + 1]);
                }
            }
            let ghost sv = detection_views(out@);
            let mut k: usize = 0;
            while k < out.len() && !(out[k].confidence < d.confidence)
                invariant
                    k <= out@.len(),
                    sv == detection_views(out@),
                    forall|j: int| 0 <= j < k ==> !((#[trigger] sv[j]).1 < d.spec_view().1),
                decreases out@.len() - k,
            {
                assert(sv[k as int] == out@[k as int].spec_view());
                k = k + 1;
            }
            proof {
                if k < out@.len() {
                    assert(sv[k as int] == out@[k as int].spec_view());
                }
                lemma_insert_at_first_lower(sv, d.spec_view(), k as int);
                assert(all.subrange(0, i + 1).drop_last() =~= all.subrange(0, i as int));
                assert(all.subrange(0, i + 1).last() == all[i as int]);
            }
            let ghost ov = out@;
            out.insert(k, d);
            assert(detection_views(out@) =~= sv.subrange(0, k as int).push(d.spec_view()) + sv.subrange(k as int, sv.len() as int)) by {
                assert forall|j: int| 0 <= j < out@.len() implies #[trigger] detection_views(out@)[j] == (sv.subrange(0, k as int).push(d.spec_view()) + sv.subrange(k as int, sv.len() as int))[j] by {
                    if j < k {
                        assert(out@[j] == ov[j]);
                    } else if j == k {
                        assert(out@[j] == d);
                    } else {
                        assert(out@[j] == ov[j - 1]);
                    }
                }
            }
            assert forall|j: int| 0 <= j < out@.len() implies primary_is_first(#[trigger] out@[j]) by {
                if j < k {
                    assert(out@[j] == ov[j]);
                } else if j == k {
                    assert(out@[j] == d);
                } else {
                    assert(out@[j] == ov[j - 1]);
                }
            }
            i = i + 1;
        }
        assert(all.subrange(0, n as int) =~= all);
        out
    }

    /// Checks that the primary file of a detection, as read, holds what its
    /// technology needs (see [`detection_verdict`]).
    pub fn validate_detection(&self, result: &DetectionResult, content: Result<String, String>) -> (r: Result<(), String>)
        ensures
            match r {
                Ok(()) => detection_verdict(result.technology, result.primary_file@, match content { Ok(c) => Ok(c@), Err(e) => Err(e@) }) is Ok,
                Err(e) => detection_verdict(result.technology, result.primary_file@, match content { Ok(c) => Ok(c@), Err(e) => Err(e@) }) == Err::<(), Seq<char>>(e@),
            },
    {
        let c = match content {
            Err(e) => return Err(String::from_str("Cannot read ").concat(result.primary_file.as_str()).concat(": ").concat(e.as_str())),
            Ok(c) => chars_of(c.as_str()),
        };
        match result.technology {
            Technology::Npm => if contains_chars(&c, &chars_of("\"version\"")) { Ok(()) } else { Err(String::from_str("package.json does not contain version field")) },
            Technology::Cargo => if contains_chars(&c, &chars_of("version")) { Ok(()) } else { Err(String::from_str("Cargo.toml does not contain version field")) },
            Technology::Maven => if contains_chars(&c, &chars_of("<version>")) { Ok(()) } else { Err(String::from_str("pom.xml does not contain version element")) },
            Technology::Python => {
                let is_pyproject = match path_file_name(result.primary_file.as_str()) {
                    Some(n) => chars_eq(&chars_of(n.as_str()), &chars_of("pyproject.toml")),
                    None => false,
                };
                if is_pyproject && !contains_chars(&c, &chars_of("version")) {
                    Err(String::from_str("pyproject.toml does not contain version field"))
                } else {
                    Ok(())
                }
            },
            Technology::Go => if contains_chars(&c, &chars_of("module ")) { Ok(()) } else { Err(String::from_str("go.mod does not contain module declaration")) },
            Technology::Composer => if contains_chars(&c, &chars_of("{")) { Ok(()) } else { Err(String::from_str("composer.json is not valid JSON")) },
            Technology::Generic => if trim_chars(&c).len() == 0 { Err(String::from_str("Version file is empty")) } else { Ok(()) },
            Technology::Gradle => Ok(()),
        }
    }

    /// The index of a technology's pattern.
    fn pattern_for(&self, technology: Technology) -> (r: Option<usize>)
        ensures
            match pattern_index(technology) {
                Some(i) => r == Some(i as usize),
                None => r is None,
            },
    {
        match technology {
            Technology::Npm => Some(0),
            Technology::Cargo => Some(1),
            Technology::Maven => Some(2),
            Technology::Python => Some(3),
            Technology::Go => Some(4),
            Technology::Composer => Some(5),
            Technology::Generic => Some(6),
            Technology::Gradle => None,
        }
    }

    /// Whether a file of the technology's pattern is present; an error for a
    /// technology without a pattern.
    pub fn has_technology(&self, pf: &ProjectFiles, technology: &Technology) -> (r: Result<bool, String>)
        ensures
            match pattern_index(*technology) {
                Some(i) => r == Ok::<bool, String>(found_files(pattern_table()[i].1, *pf).len() > 0),
                None => r is Err && r->Err_0@ == "Unknown technology: "@ + technology.spec_variant_name(),
            },
    {
        proof {
            use_type_invariant(self);
        }
        match self.pattern_for(*technology) {
            None => Err(String::from_str("Unknown technology: ").concat(technology.variant_name().as_str())),
            Some(i) => {
                let p = &self.patterns[i];
                assert(p.spec_view() == pattern_table()[i as int]);
                let found = Self::files_present(&p.files, pf);
                Ok(found.len() > 0)
            },
        }
    }

    /// The path of the first present file of the technology's pattern.
    pub fn get_primary_file(&self, pf: &ProjectFiles, technology: &Technology) -> (r: Result<String, String>)
        ensures
            match pattern_index(*technology) {
                Some(i) => {
                    let found = found_files(pattern_table()[i].1, *pf);
                    if found.len() > 0 {
                        r is Ok && r->Ok_0@ == join_path(pf.root@, found[0])
                    } else {
                        r is Err && r->Err_0@ == "No "@ + technology.spec_name() + " files found in "@ + pf.root@
                    }
                },
                None => r is Err && r->Err_0@ == "Unknown technology: "@ + technology.spec_variant_name(),
            },
    {
        proof {
            use_type_invariant(self);
        }
        match self.pattern_for(*technology) {
            None => Err(String::from_str("Unknown technology: ").concat(technology.variant_name().as_str())),
            Some(i) => {
                let p = &self.patterns[i];
                assert(p.spec_view() == pattern_table()[i as int]);
                let found = Self::files_present(&p.files, pf);
                if found.len() > 0 {
                    assert(views(found@)[0] == found@[0]@);
                    Ok(pf.path_of(found[0].as_str()))
                } else {
                    Err(String::from_str("No ").concat(technology.name().as_str()).concat(" files found in ").concat(
                        pf.root.as_str(),
                    ))
                }
            },
        }
    }
}

proof fn lemma_found_files_len(names: Seq<Seq<char>>, pf: ProjectFiles)
    ensures
        found_files(names, pf).len() <= names.len(),
    decreases names.len(),
{
    if names.len() > 0 {
        lemma_found_files_len(names.drop_last(), pf);
    }
}

proof fn lemma_best_is_max(ds: Seq<DetectionView>, n: int)
    requires
        1 <= n <= ds.len(),
    ensures
        0 <= best_upto(ds, n) < n,
        forall|j: int| 0 <= j < n ==> (#[trigger] ds[j]).1 <= ds[best_upto(ds, n)].1,
        forall|j: int| best_upto(ds, n) < j < n ==> (#[trigger] ds[j]).1 < ds[best_upto(ds, n)].1,
    decreases n,
{
    if n > 1 {
        lemma_best_is_max(ds, n - 1);
    }
}

/// The detected technology is that of a detection with the greatest confidence,
/// and every later detection has less confidence.
pub proof fn lemma_detected_has_greatest_confidence(pf: ProjectFiles)
    requires
        detections(pf).len() > 0,
    ensures
        ({
            let ds = detections(pf);
            let b = best_upto(ds, ds.len() as int);
            &&& 0 <= b < ds.len()
            &&& detected(pf) == Some(ds[b].0)
            &&& forall|j: int| 0 <= j < ds.len() ==> (#[trigger] ds[j]).1 <= ds[b].1
            &&& forall|j: int| b < j < ds.len() ==> (#[trigger] ds[j]).1 < ds[b].1
        }),
{
    lemma_best_is_max(detections(pf), detections(pf).len() as int);
}

/// Detecting picks the best of all detections: it fails exactly where
/// [`TechnologyDetector::detect_all`] finds nothing, and otherwise names the
/// technology of a detection that `detect_all` lists with the greatest confidence.
pub proof fn lemma_detect_is_best_of_detect_all(pf: ProjectFiles)
    ensures
        detected(pf) is None <==> sorted_by_confidence(detections(pf)).len() == 0,
        detected(pf) matches Some(t) ==> exists|k: int|
            0 <= k < sorted_by_confidence(detections(pf)).len()
            && (#[trigger] sorted_by_confidence(detections(pf))[k]).0 == t
            && forall|j: int| 0 <= j < sorted_by_confidence(detections(pf)).len()
                ==> (#[trigger] sorted_by_confidence(detections(pf))[j]).1 <= sorted_by_confidence(detections(pf))[k].1,
{
    broadcast use vstd::seq_lib::group_to_multiset_ensures;
    let ds = detections(pf);
    let ss = sorted_by_confidence(ds);
    lemma_sorted_by_confidence(ds);
    assert(ss.len() == ds.len()) by {
        assert(ss.to_multiset().len() == ds.to_multiset().len());
    }
    if ds.len() > 0 {
        lemma_detected_has_greatest_confidence(pf);
        let b = best_upto(ds, ds.len() as int);
        assert(ds.contains(ds[b]));
        assert(ss.to_multiset().count(ds[b]) > 0);
        assert(ss.contains(ds[b]));
        let k = choose|k: int| 0 <= k < ss.len() && ss[k] == ds[b];
        assert forall|j: int| 0 <= j < ss.len() implies (#[trigger] ss[j]).1 <= ss[k].1 by {
            assert(ss.contains(ss[j]));
            assert(ds.to_multiset().count(ss[j]) > 0);
            assert(ds.contains(ss[j]));
            let i = choose|i: int| 0 <= i < ds.len() && ds[i] == ss[j];
            assert(ds[i].1 <= ds[b].1);
        }
        assert(ss[k].0 == detected(pf)->Some_0);
    }
}

/// Each pattern names its own technology, and each technology with a pattern
/// has it at its [`pattern_index`].
proof fn lemma_pattern_technologies(t: Technology)
    ensures
        forall|j: int| 0 <= j < 7 ==> pattern_index(#[trigger] pattern_table()[j].0) == Some(j),
        pattern_index(t) matches Some(i) ==> pattern_table()[i].0 == t,
{
    assert(pattern_table()[0].0 == Technology::Npm);
    assert(pattern_table()[1].0 == Technology::Cargo);
    assert(pattern_table()[2].0 == Technology::Maven);
    assert(pattern_table()[3].0 == Technology::Python);
    assert(pattern_table()[4].0 == Technology::Go);
    assert(pattern_table()[5].0 == Technology::Composer);
    assert(pattern_table()[6].0 == Technology::Generic);
}

/// The detections of the first `n` patterns list a technology with a pattern
/// exactly where its pattern is among them and finds a file, and such a detection
/// holds the paths of the files found; every detection is of a technology with a
/// pattern.
proof fn lemma_detection_of(pf: ProjectFiles, t: Technology, n: nat)
    requires
        pattern_index(t) is Some,
        n <= 7,
    ensures
        (exists|k: int| 0 <= k < detections_upto(pf, n).len() && (#[trigger] detections_upto(pf, n)[k]).0 == t)
            <==> (pattern_index(t)->Some_0 < n && found_files(pattern_table()[pattern_index(t)->Some_0].1, pf).len() > 0),
        forall|k: int| 0 <= k < detections_upto(pf, n).len() && (#[trigger] detections_upto(pf, n)[k]).0 == t
            ==> detections_upto(pf, n)[k].2 == paths_in(pf.root@, found_files(pattern_table()[pattern_index(t)->Some_0].1, pf)),
        forall|k: int| 0 <= k < detections_upto(pf, n).len() ==> pattern_index((#[trigger] detections_upto(pf, n)[k]).0) is Some,
        forall|k: int| 0 <= k < detections_upto(pf, n).len() && (#[trigger] detections_upto(pf, n)[k]).0 == t
            ==> detections_upto(pf, n)[k].1 == confidence(
                pattern_table()[pattern_index(t)->Some_0].2,
                found_files(pattern_table()[pattern_index(t)->Some_0].1, pf),
                combination_bonus(t, found_files(pattern_table()[pattern_index(t)->Some_0].1, pf), pf),
            ),
    decreases n,
{
    lemma_pattern_technologies(t);
    if n > 0 {
        lemma_detection_of(pf, t, (n - 1) as nat);
        let d = detections_upto(pf, (n - 1) as nat);
        let p = pattern_table()[n - 1];
        let i = pattern_index(t)->Some_0;
        assert(pattern_index(p.0) == Some(n - 1));
        let found = found_files(p.1, pf);
        if found.len() > 0 {
            let dn = detections_upto(pf, n);
            assert(dn == d.push((p.0, confidence(p.2, found, combination_bonus(p.0, found, pf)), paths_in(pf.root@, found))));
            if n - 1 == i {
                assert(dn[d.len() as int].0 == t);
            }
            assert forall|k: int| 0 <= k < dn.len() && (#[trigger] dn[k]).0 == t
                implies dn[k].1 == confidence(pattern_table()[i].2, found_files(pattern_table()[i].1, pf),
                    combination_bonus(t, found_files(pattern_table()[i].1, pf), pf)) by {
                if k < d.len() {
                    assert(dn[k] == d[k]);
                }
            }
            assert forall|k: int| 0 <= k < dn.len() && (#[trigger] dn[k]).0 == t
                implies dn[k].2 == paths_in(pf.root@, found_files(pattern_table()[i].1, pf)) by {
                if k < d.len() {
                    assert(dn[k] == d[k]);
                }
            }
            assert forall|k: int| 0 <= k < dn.len() implies pattern_index((#[trigger] dn[k]).0) is Some by {
                if k < d.len() {
                    assert(dn[k] == d[k]);
                }
            }
            if exists|k: int| 0 <= k < dn.len() && (#[trigger] dn[k]).0 == t {
                let k = choose|k: int| 0 <= k < dn.len() && (#[trigger] dn[k]).0 == t;
                if k < d.len() {
                    assert(dn[k] == d[k]);
                }
            }
            if exists|k: int| 0 <= k < d.len() && (#[trigger] d[k]).0 == t {
                let k = choose|k: int| 0 <= k < d.len() && (#[trigger] d[k]).0 == t;
                assert(dn[k] == d[k]);
            }
        } else {
            assert(detections_upto(pf, n) == d);
            if n - 1 == i {
                assert(found_files(pattern_table()[i].1, pf).len() == 0);
            }
        }
    }
}

/// Asking for one technology agrees with detecting them all: a technology that
/// has a pattern is present ([`TechnologyDetector::has_technology`]) exactly where
/// [`TechnologyDetector::detect_all`] lists a detection of it, and then its
/// primary file ([`TechnologyDetector::get_primary_file`]) is the first path that
/// detection holds.
pub proof fn lemma_has_technology_agrees_with_detect_all(pf: ProjectFiles, t: Technology)
    requires
        pattern_index(t) is Some,
    ensures
        ({
            let found = found_files(pattern_table()[pattern_index(t)->Some_0].1, pf);
            let ss = sorted_by_confidence(detections(pf));
            &&& found.len() > 0 <==> exists|k: int| 0 <= k < ss.len() && (#[trigger] ss[k]).0 == t
            &&& forall|k: int| 0 <= k < ss.len() && (#[trigger] ss[k]).0 == t
                ==> ss[k].2.len() > 0 && ss[k].2[0] == join_path(pf.root@, found[0])
        }),
{
    broadcast use vstd::seq_lib::group_to_multiset_ensures;
    let i = pattern_index(t)->Some_0;
    let found = found_files(pattern_table()[i].1, pf);
    let ds = detections(pf);
    let ss = sorted_by_confidence(ds);
    lemma_detection_of(pf, t, 7);
    lemma_sorted_by_confidence(ds);
    if found.len() > 0 {
        let j = choose|j: int| 0 <= j < ds.len() && (#[trigger] ds[j]).0 == t;
        assert(ds.contains(ds[j]));
        assert(ss.to_multiset().count(ds[j]) > 0);
        assert(ss.contains(ds[j]));
        let k = choose|k: int| 0 <= k < ss.len() && ss[k] == ds[j];
        assert(ss[k].0 == t);
    }
    assert forall|k: int| 0 <= k < ss.len() && (#[trigger] ss[k]).0 == t
        implies ds.contains(ss[k]) by {
        assert(ss.contains(ss[k]));
        assert(ds.to_multiset().count(ss[k]) > 0);
    }
    if exists|k: int| 0 <= k < ss.len() && (#[trigger] ss[k]).0 == t {
        let k = choose|k: int| 0 <= k < ss.len() && (#[trigger] ss[k]).0 == t;
        let j = choose|j: int| 0 <= j < ds.len() && ds[j] == ss[k];
        assert(ds[j].0 == t);
    }
    assert forall|k: int| 0 <= k < ss.len() && (#[trigger] ss[k]).0 == t
        implies ss[k].2.len() > 0 && ss[k].2[0] == join_path(pf.root@, found[0]) by {
        let j = choose|j: int| 0 <= j < ds.len() && ds[j] == ss[k];
        assert(ds[j].0 == t);
        assert(ds[j].2 == paths_in(pf.root@, found));
    }
}

/// The technology that a project's only file reveals: `package.json` npm,
/// `Cargo.toml` cargo, `pom.xml` maven, `pyproject.toml`, `setup.py` or `setup.cfg`
/// python, `go.mod` go, `composer.json` composer, `VERSION`, `version.txt` or
/// `.version` generic; no technology for any other file.
pub open spec fn lone_file_technology(name: Seq<char>) -> Option<Technology> {
    if name == "package.json"@ {
        Some(Technology::Npm)
    } else if name == "Cargo.toml"@ {
        Some(Technology::Cargo)
    } else if name == "pom.xml"@ {
        Some(Technology::Maven)
    } else if name == "pyproject.toml"@ || name == "setup.py"@ || name == "setup.cfg"@ {
        Some(Technology::Python)
    } else if name == "go.mod"@ {
        Some(Technology::Go)
    } else if name == "composer.json"@ {
        Some(Technology::Composer)
    } else if name == "VERSION"@ || name == "version.txt"@ || name == ".version"@ {
        Some(Technology::Generic)
    } else {
        None
    }
}

/// In a project whose only entry is a regular file, a list of names finds a file
/// exactly where it holds that file's name.
proof fn lemma_lone_found(names: Seq<Seq<char>>, pf: ProjectFiles)
    requires
        pf.entries@.len() == 1,
        pf.entries@[0].is_file,
    ensures
        found_files(names, pf).len() > 0 <==> names.contains(pf.entries@[0].name@),
    decreases names.len(),
{
    let f = pf.entries@[0].name@;
    if names.len() > 0 {
        lemma_lone_found(names.drop_last(), pf);
        assert(pf.spec_is_file(names.last()) <==> names.last() == f) by {
            if names.last() == f {
                assert(pf.entries@[0].name@ == names.last());
            }
        }
        if names.drop_last().contains(f) {
            let i = choose|i: int| 0 <= i < names.drop_last().len() && names.drop_last()[i] == f;
            assert(names[i] == f);
        }
        if names.contains(f) {
            let i = choose|i: int| 0 <= i < names.len() && names[i] == f;
            if i < names.len() - 1 {
                assert(names.drop_last()[i] == f);
            }
        }
    }
}

/// A file name is among a pattern's names exactly where it reveals that pattern's
/// technology.
proof fn lemma_pattern_names(f: Seq<char>, i: int)
    requires
        0 <= i < 7,
    ensures
        pattern_table()[i].1.contains(f) <==> lone_file_technology(f) == Some(pattern_table()[i].0),
{
    reveal_strlit("package.json");
    reveal_strlit("Cargo.toml");
    reveal_strlit("pom.xml");
    reveal_strlit("pyproject.toml");
    reveal_strlit("setup.py");
    reveal_strlit("setup.cfg");
    reveal_strlit("go.mod");
    reveal_strlit("composer.json");
    reveal_strlit("VERSION");
    reveal_strlit("version.txt");
    reveal_strlit(".version");
    assert("VERSION"@[0] != "pom.xml"@[0]);
    assert(".version"@[0] != "setup.py"@[0]);
    let names = pattern_table()[i].1;
    if names.contains(f) {
        let j = choose|j: int| 0 <= j < names.len() && names[j] == f;
        assert(names[j] == f);
    }
    if lone_file_technology(f) == Some(pattern_table()[i].0) {
        if i == 3 {
            if f == "pyproject.toml"@ {
                assert(names[0] == f);
            } else if f == "setup.py"@ {
                assert(names[1] == f);
            } else {
                assert(names[2] == f);
            }
        } else if i == 6 {
            if f == "VERSION"@ {
                assert(names[0] == f);
            } else if f == "version.txt"@ {
                assert(names[1] == f);
            } else {
                assert(names[2] == f);
            }
        } else {
            assert(names[0] == f);
        }
    }
}

/// A project whose only entry is a regular file is detected as the technology
/// that file reveals ([`lone_file_technology`]), and as none for any other file.
pub proof fn lemma_lone_file_detection(pf: ProjectFiles)
    requires
        pf.entries@.len() == 1,
        pf.entries@[0].is_file,
    ensures
        detected(pf) == lone_file_technology(pf.entries@[0].name@),
{
    let f = pf.entries@[0].name@;
    let ds = detections(pf);
    lemma_detection_of(pf, Technology::Npm, 7);
    if let Some(t) = lone_file_technology(f) {
        lemma_pattern_technologies(t);
        let i = pattern_index(t)->Some_0;
        lemma_pattern_names(f, i);
        lemma_lone_found(pattern_table()[i].1, pf);
        lemma_detection_of(pf, t, 7);
    }
    if ds.len() > 0 {
        lemma_detected_has_greatest_confidence(pf);
        let b = best_upto(ds, ds.len() as int);
        let t2 = ds[b].0;
        lemma_detection_of(pf, t2, 7);
        lemma_pattern_technologies(t2);
        let i2 = pattern_index(t2)->Some_0;
        lemma_lone_found(pattern_table()[i2].1, pf);
        lemma_pattern_names(f, i2);
    }
}

/// A pattern of a single file name finds one file where that name is a regular
/// file, and none otherwise.
proof fn lemma_single_name_found(n: Seq<char>, pf: ProjectFiles)
    ensures
        found_files(seq![n], pf).len() == if pf.spec_is_file(n) { 1int } else { 0int },
{
    let e = Seq::<Seq<char>>::empty();
    assert(seq![n].drop_last() =~= e);
    assert(seq![n].last() == n);
    assert(found_files(e, pf).len() == 0);
    assert(found_files(seq![n], pf) == if pf.spec_is_file(n) { found_files(e, pf).push(n) } else { found_files(e, pf) });
}

/// How confident detection is in each technology found by a single file, in
/// percent: npm 90 and Cargo 85, each ten more where its lock file is present
/// (`package-lock.json` or `yarn.lock` for npm, `Cargo.lock` for Cargo); Maven
/// 80, Go 85, Composer 80.
pub proof fn lemma_detection_confidence(pf: ProjectFiles)
    ensures
        forall|k: int| 0 <= k < detections(pf).len() && (#[trigger] detections(pf)[k]).0 == Technology::Npm
            ==> detections(pf)[k].1 == if pf.spec_exists("package-lock.json"@) || pf.spec_exists("yarn.lock"@) { 100u32 } else { 90u32 },
        forall|k: int| 0 <= k < detections(pf).len() && (#[trigger] detections(pf)[k]).0 == Technology::Cargo
            ==> detections(pf)[k].1 == if pf.spec_exists("Cargo.lock"@) { 95u32 } else { 85u32 },
        forall|k: int| 0 <= k < detections(pf).len() && (#[trigger] detections(pf)[k]).0 == Technology::Maven
            ==> detections(pf)[k].1 == 80u32,
        forall|k: int| 0 <= k < detections(pf).len() && (#[trigger] detections(pf)[k]).0 == Technology::Go
            ==> detections(pf)[k].1 == 85u32,
        forall|k: int| 0 <= k < detections(pf).len() && (#[trigger] detections(pf)[k]).0 == Technology::Composer
            ==> detections(pf)[k].1 == 80u32,
{
    lemma_detection_of(pf, Technology::Npm, 7);
    lemma_detection_of(pf, Technology::Cargo, 7);
    lemma_detection_of(pf, Technology::Maven, 7);
    lemma_detection_of(pf, Technology::Go, 7);
    lemma_detection_of(pf, Technology::Composer, 7);
    lemma_single_name_found("package.json"@, pf);
    lemma_single_name_found("Cargo.toml"@, pf);
    lemma_single_name_found("pom.xml"@, pf);
    lemma_single_name_found("go.mod"@, pf);
    lemma_single_name_found("composer.json"@, pf);
}

/// A Cargo project with its lock file outranks npm without one: where
/// `Cargo.toml` is a regular file and `Cargo.lock` is present, but neither
/// `package-lock.json` nor `yarn.lock`, the project is never detected as npm
/// (Cargo's 95 beats npm's 90).
pub proof fn lemma_cargo_lock_outranks_npm(pf: ProjectFiles)
    requires
        pf.spec_is_file("Cargo.toml"@),
        pf.spec_exists("Cargo.lock"@),
        !pf.spec_exists("package-lock.json"@),
        !pf.spec_exists("yarn.lock"@),
    ensures
        detected(pf) != Some(Technology::Npm),
{
    let ds = detections(pf);
    lemma_detection_confidence(pf);
    lemma_detection_of(pf, Technology::Cargo, 7);
    lemma_single_name_found("Cargo.toml"@, pf);
    let c = choose|k: int| 0 <= k < ds.len() && (#[trigger] ds[k]).0 == Technology::Cargo;
    assert(ds[c].1 == 95u32);
    lemma_detected_has_greatest_confidence(pf);
    let b = best_upto(ds, ds.len() as int);
    if ds[b].0 == Technology::Npm {
        assert(ds[b].1 == 90u32);
        assert(ds[c].1 <= ds[b].1);
    }
}

} // verus!


