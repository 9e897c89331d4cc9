//! Conventional-commit analysis of commit messages.
use crate::engine::semver::BumpType;
use crate::regex_api::{regex_is_match, regex_matches};
use crate::text::views;
use vstd::prelude::*;

verus! {

/// Pattern of a breaking change: a `!` before the first `:` of the subject, or a
/// `BREAKING CHANGE:` footer.
pub const BREAKING_PATTERN: &'static str = "(?i)^[^!]*!:|BREAKING CHANGE:";

/// Pattern of a feature commit: `feat:` or `feat(scope):`.
pub const FEATURE_PATTERN: &'static str = "(?i)^feat(\\([^)]*\\))?:";

/// Pattern of a fix commit: `fix:` or `fix(scope):`.
pub const FIX_PATTERN: &'static str = "(?i)^fix(\\([^)]*\\))?:";

/// The class of a commit message; earlier classes take priority.
#[derive(Debug, Clone, Copy, PartialEq, Eq, Structural)]
pub enum CommitKind {
    Breaking,
    Feature,
    Fix,
    Other,
}

/// The class of one message.
pub open spec fn classify(m: Seq<char>) -> CommitKind {
    if regex_matches(BREAKING_PATTERN@, m) {
        CommitKind::Breaking
    } else if regex_matches(FEATURE_PATTERN@, m) {
        CommitKind::Feature
    } else if regex_matches(FIX_PATTERN@, m) {
        CommitKind::Fix
    } else {
        CommitKind::Other
    }
}

/// The messages of one class, in their order.
pub open spec fn of_kind(ms: Seq<Seq<char>>, k: CommitKind) -> Seq<Seq<char>>
    decreases ms.len(),
{
    if ms.len() == 0 {
        Seq::empty()
    } else if classify(ms.last()) == k {
        of_kind(ms.drop_last(), k).push(ms.last())
    } else {
        of_kind(ms.drop_last(), k)
    }
}

/// Whether some message has the class.
pub open spec fn any_of_kind(ms: Seq<Seq<char>>, k: CommitKind) -> bool {
    exists|i: int| 0 <= i < ms.len() && classify(#[trigger] ms[i]) == k
}

/// The bump that a list of commit messages calls for: major for a breaking change,
/// else minor for a feature, else patch.
pub open spec fn bump_for(ms: Seq<Seq<char>>) -> BumpType {
    if any_of_kind(ms, CommitKind::Breaking) {
        BumpType::Major
    } else if any_of_kind(ms, CommitKind::Feature) {
        BumpType::Minor
    } else {
        BumpType::Patch
    }
}

/// The recommendation for lists of classified messages.
pub open spec fn recommended(breaking: nat, features: nat, fixes: nat) -> BumpType {
    if breaking > 0 {
        BumpType::Major
    } else if features > 0 {
        BumpType::Minor
    } else {
        BumpType::Patch
    }
}

/// Analyzes commit messages to determine the appropriate version bump.
pub struct CommitAnalyzer {}

impl CommitAnalyzer {
    /// An analyzer for the conventional-commit patterns.
    pub fn new() -> (r: Self) {
        CommitAnalyzer {  }
    }

    /// Whether a message announces a breaking change.
    pub fn is_breaking_change(&self, message: &str) -> (r: bool)
        ensures
            r == regex_matches(BREAKING_PATTERN@, message@),
    {
        regex_is_match(BREAKING_PATTERN, message)
    }

    /// Whether a message announces a feature.
    pub fn is_feature(&self, message: &str) -> (r: bool)
        ensures
            r == regex_matches(FEATURE_PATTERN@, message@),
    {
        regex_is_match(FEATURE_PATTERN, message)
    }

    /// Whether a message announces a fix.
    pub fn is_fix(&self, message: &str) -> (r: bool)
        ensures
            r == regex_matches(FIX_PATTERN@, message@),
    {
        regex_is_match(FIX_PATTERN, message)
    }

    /// The class of a message.
    pub fn classify_message(&self, message: &str) -> (r: CommitKind)
        ensures
            r == classify(message@),
    {
        if self.is_breaking_change(message) {
            CommitKind::Breaking
        } else if self.is_feature(message) {
            CommitKind::Feature
        } else if self.is_fix(message) {
            CommitKind::Fix
        } else {
            CommitKind::Other
        }
    }

    /// The bump that the commit messages since the last release call for: major
    /// as soon as one breaking change is seen, else minor if there is a feature,
    /// else patch (also when there are no commits).
    pub fn bump_for_messages(&self, messages: &Vec<String>) -> (r: BumpType)
        ensures
            r == bump_for(views(messages@)),
    {
        let ghost ms = views(messages@);
        let mut has_features = false;
        let mut i: usize = 0;
        while i < messages.len()
            invariant
                ms == views(messages@),
                i <= messages@.len(),
                forall|j: int| 0 <= j < i ==> classify(#[trigger] ms[j]) != CommitKind::Breaking,
                has_features == exists|j: int| 0 <= j < i && classify(#[trigger] ms[j]) == CommitKind::Feature,
            decreases messages@.len() - i,
        {
            let k = self.classify_message(messages[i].as_str());
            assert(ms[i as int] == messages@[i as int]@);
            if k == CommitKind::Breaking {
                return BumpType::Major;
            }
            if k == CommitKind::Feature {
                has_features = true;
            }
            i = i + 1;
        }
        if has_features {
            BumpType::Minor
        } else {
            BumpType::Patch
        }
    }

    /// Sorts commit messages into breaking changes, features, fixes and others.
    pub fn analyze_messages(&self, messages: &Vec<String>) -> (r: CommitAnalysis)
        ensures
            r.total_commits == messages@.len(),
            views(r.breaking_changes@) == of_kind(views(messages@), CommitKind::Breaking),
            views(r.features@) == of_kind(views(messages@), CommitKind::Feature),
            views(r.fixes@) == of_kind(views(messages@), CommitKind::Fix),
            views(r.other@) == of_kind(views(messages@), CommitKind::Other),
    {
        let ghost ms = views(messages@);
        let mut a = CommitAnalysis {
            total_commits: messages.len(),
            breaking_changes: Vec::new(),
            features: Vec::new(),
            fixes: Vec::new(),
            other: Vec::new(),
        };
        let mut i: usize = 0;
        assert(ms.take(0) =~= Seq::<Seq<char>>::empty());
        assert(views(a.breaking_changes@) =~= Seq::<Seq<char>>::empty());
        assert(views(a.features@) =~= Seq::<Seq<char>>::empty());
        assert(views(a.fixes@) =~= Seq::<Seq<char>>::empty());
        assert(views(a.other@) =~= Seq::<Seq<char>>::empty());
        while i < messages.len()
            invariant
                ms == views(messages@),
                i <= messages@.len(),
                a.total_commits == messages@.len(),
                views(a.breaking_changes@) == of_kind(ms.take(i as int), CommitKind::Breaking),
                views(a.features@) == of_kind(ms.take(i as int), CommitKind::Feature),
                views(a.fixes@) == of_kind(ms.take(i as int), CommitKind::Fix),
                views(a.other@) == of_kind(ms.take(i as int), CommitKind::Other),
            decreases messages@.len() - i,
        {
            let m = messages[i].clone();
            let k = self.classify_message(m.as_str());
            let ghost pre = ms.take(i as int);
            assert(ms.take(i + 1).drop_last() =~= pre);
            assert(ms.take(i + 1).last() == m@);
            match k {
                CommitKind::Breaking => {
                    a.breaking_changes.push(m);
                    assert(views(a.breaking_changes@) =~= of_kind(pre, k).push(ms.take(i + 1).last()));
                },
                CommitKind::Feature => {
                    a.features.push(m);
                    assert(views(a.features@) =~= of_kind(pre, k).push(ms.take(i + 1).last()));
                },
                CommitKind::Fix => {
                    a.fixes.push(m);
                    assert(views(a.fixes@) =~= of_kind(pre, k).push(ms.take(i + 1).last()));
                },
                CommitKind::Other => {
                    a.other.push(m);
                    assert(views(a.other@) =~= of_kind(pre, k).push(ms.take(i + 1).last()));
                },
            }
            i = i + 1;
        }
        assert(ms.take(messages@.len() as int) =~= ms);
        a
    }
}

/// Detailed analysis of commits.
#[derive(Debug)]
pub struct CommitAnalysis {
    pub total_commits: usize,
    pub breaking_changes: Vec<String>,
    pub features: Vec<String>,
    pub fixes: Vec<String>,
    pub other: Vec<String>,
}

impl CommitAnalysis {
    /// Major when there is a breaking change, else minor when there is a feature,
    /// else patch.
    pub fn recommended_bump(&self) -> (r: BumpType)
        ensures
            r == recommended(
                self.breaking_changes@.len(),
                self.features@.len(),
                self.fixes@.len(),
            ),
    {
        if self.breaking_changes.len() > 0 {
            BumpType::Major
        } else if self.features.len() > 0 {
            BumpType::Minor
        } else if self.fixes.len() > 0 {
            BumpType::Patch
        } else {
            BumpType::Patch
        }
    }
}

proof fn lemma_of_kind_empty_iff(ms: Seq<Seq<char>>, k: CommitKind)
    ensures
        (of_kind(ms, k).len() > 0) == any_of_kind(ms, k),
    decreases ms.len(),
{
    if ms.len() > 0 {
        lemma_of_kind_empty_iff(ms.drop_last(), k);
        if any_of_kind(ms.drop_last(), k) {
            let i = choose|i: int| 0 <= i < ms.drop_last().len() && classify(#[trigger] ms.drop_last()[i]) == k;
            assert(classify(ms[i]) == k);
        }
        if any_of_kind(ms, k) && classify(ms.last()) != k {
            let i = choose|i: int| 0 <= i < ms.len() && classify(#[trigger] ms[i]) == k;
            assert(ms.drop_last()[i] == ms[i]);
        }
    }
}

/// The bump chosen directly from commit messages is the recommendation of their
/// detailed analysis.
pub proof fn lemma_bump_matches_recommendation(ms: Seq<Seq<char>>)
    ensures
        bump_for(ms) == recommended(
            of_kind(ms, CommitKind::Breaking).len(),
            of_kind(ms, CommitKind::Feature).len(),
            of_kind(ms, CommitKind::Fix).len(),
        ),
{
    lemma_of_kind_empty_iff(ms, CommitKind::Breaking);
    lemma_of_kind_empty_iff(ms, CommitKind::Feature);
}

/// Breaking changes take priority: a message that matches the breaking-change
/// pattern (a `!` before the colon, or a `BREAKING CHANGE:` footer) is a breaking
/// change whatever else it matches, so one such message among the commits makes
/// the bump major. A message that is not breaking is a feature where it matches
/// the feature pattern, and a fix where it matches only the fix pattern.
pub proof fn lemma_breaking_takes_priority(ms: Seq<Seq<char>>, i: int)
    requires
        0 <= i < ms.len(),
    ensures
        regex_matches(BREAKING_PATTERN@, ms[i]) ==> classify(ms[i]) == CommitKind::Breaking,
        regex_matches(BREAKING_PATTERN@, ms[i]) ==> bump_for(ms) == BumpType::Major,
        !regex_matches(BREAKING_PATTERN@, ms[i]) && regex_matches(FEATURE_PATTERN@, ms[i])
            ==> classify(ms[i]) == CommitKind::Feature,
        !regex_matches(BREAKING_PATTERN@, ms[i]) && !regex_matches(FEATURE_PATTERN@, ms[i])
            && regex_matches(FIX_PATTERN@, ms[i]) ==> classify(ms[i]) == CommitKind::Fix,
        !regex_matches(BREAKING_PATTERN@, ms[i]) && regex_matches(FEATURE_PATTERN@, ms[i])
            ==> bump_for(ms) != BumpType::Patch,
{
}

} // verus!
