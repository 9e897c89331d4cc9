//! The decisions and texts of the git operations: tag and commit messages, which
//! tag is the latest, and when a tag deletion or a commit revert is refused. The
//! operations themselves act on a repository on disk and are carried out by the
//! caller.
use crate::constants::{DEFAULT_COMMIT_MESSAGE_PREFIX, DEFAULT_TAG_MESSAGE_PREFIX};
use crate::text::{chars_of, replace_all, replace_chars, string_of, views};
use crate::updaters::traits::unit_result;
use vstd::prelude::*;

verus! {

/// The message of a release tag.
pub open spec fn tag_message_for(version: Seq<char>) -> Seq<char> {
    DEFAULT_TAG_MESSAGE_PREFIX@ + " "@ + version
}

/// The message of a release tag: `Release version <version>`.
pub fn tag_message(version: &str) -> (r: String)
    ensures
        r@ == tag_message_for(version@),
{
    String::from_str(DEFAULT_TAG_MESSAGE_PREFIX).concat(" ").concat(version)
}

/// The message of a version commit: the custom template with every `{version}`
/// replaced, or `chore: bump version to <version>`.
pub open spec fn commit_message_for(custom: Option<Seq<char>>, version: Seq<char>) -> Seq<char> {
    match custom {
        Some(t) => replace_all(t, "{version}"@, version),
        None => "chore: "@ + DEFAULT_COMMIT_MESSAGE_PREFIX@ + " "@ + version,
    }
}

/// The message of a version commit.
pub fn commit_message(custom: Option<&str>, version: &str) -> (r: String)
    ensures
        r@ == commit_message_for(match custom { Some(c) => Some(c@), None => None }, version@),
{
    match custom {
        Some(c) => {
            proof {
                reveal_strlit("{version}");
            }
            let placeholder = chars_of("{version}");
            string_of(&replace_chars(&chars_of(c), &placeholder, &chars_of(version)))
        },
        None => String::from_str("chore: ").concat(DEFAULT_COMMIT_MESSAGE_PREFIX).concat(" ").concat(version),
    }
}

/// The name of the tag of a version: the prefix, then the version.
pub fn release_tag_name(prefix: &str, version: &str) -> (r: String)
    ensures
        r@ == prefix@ + version@,
{
    String::from_str(prefix).concat(version)
}

/// The reference of a tag.
pub fn tag_reference(tag_name: &str) -> (r: String)
    ensures
        r@ == "refs/tags/"@ + tag_name@,
{
    String::from_str("refs/tags/").concat(tag_name)
}

/// The message when a repository cannot be opened.
pub fn open_repository_error(path: &str, error: &str) -> (r: String)
    ensures
        r@ == "Failed to open git repository at "@ + path@ + ": "@ + error@,
{
    String::from_str("Failed to open git repository at ").concat(path).concat(": ").concat(error)
}

/// Whether `a` comes before `b` in the order of `str`: by characters, a proper
/// prefix first.
pub open spec fn text_less(a: Seq<char>, b: Seq<char>) -> bool
    decreases a.len(),
{
    if b.len() == 0 {
        false
    } else if a.len() == 0 {
        true
    } else if a[0] != b[0] {
        (a[0] as int) < (b[0] as int)
    } else {
        text_less(a.drop_first(), b.drop_first())
    }
}

/// Whether `a` comes before `b` in the order of `str`.
pub fn string_less(a: &str, b: &str) -> (r: bool)
    ensures
        r == text_less(a@, b@),
{
    let x = chars_of(a);
    let y = chars_of(b);
    let mut i: usize = 0;
    assert(x@.subrange(0, x@.len() as int) =~= a@);
    assert(y@.subrange(0, y@.len() as int) =~= b@);
    while i < x.len() && i < y.len() && x[i] == y[i]
        invariant
            i <= x@.len(),
            i <= y@.len(),
            text_less(x@.subrange(i as int, x@.len() as int), y@.subrange(i as int, y@.len() as int)) == text_less(a@, b@),
        decreases x@.len() - i,
    {
        let ghost xs = x@.subrange(i as int, x@.len() as int);
        let ghost ys = y@.subrange(i as int, y@.len() as int);
        assert(xs.drop_first() =~= x@.subrange(i + 1, x@.len() as int));
        assert(ys.drop_first() =~= y@.subrange(i + 1, y@.len() as int));
        i = i + 1;
    }
    let ghost xs = x@.subrange(i as int, x@.len() as int);
    let ghost ys = y@.subrange(i as int, y@.len() as int);
    if i >= y.len() {
        false
    } else if i >= x.len() {
        true
    } else {
        assert(xs[0] == x@[i as int] && ys[0] == y@[i as int]);
        x[i] < y[i]
    }
}

/// Whether `t` is a greatest of the texts.
pub open spec fn is_greatest(tags: Seq<Seq<char>>, t: Seq<char>) -> bool {
    tags.contains(t) && forall|i: int| 0 <= i < tags.len() ==> !text_less(t, #[trigger] tags[i])
}

/// The order of `str` is transitive on the texts it compares.
proof fn lemma_text_less_transitive(a: Seq<char>, b: Seq<char>, c: Seq<char>)
    requires
        text_less(a, b),
        text_less(b, c),
    ensures
        text_less(a, c),
    decreases a.len(),
{
    if a.len() > 0 && b.len() > 0 && c.len() > 0 && a[0] == b[0] && b[0] == c[0] {
        lemma_text_less_transitive(a.drop_first(), b.drop_first(), c.drop_first());
    }
}

/// The order of `str` is total: of two texts, one comes first or they are equal.
proof fn lemma_text_less_total(a: Seq<char>, b: Seq<char>)
    ensures
        text_less(a, b) || text_less(b, a) || a == b,
    decreases a.len(),
{
    if a.len() > 0 && b.len() > 0 && a[0] == b[0] {
        lemma_text_less_total(a.drop_first(), b.drop_first());
        if a.drop_first() == b.drop_first() {
            assert(a =~= seq![a[0]] + a.drop_first());
            assert(b =~= seq![b[0]] + b.drop_first());
            assert(a =~= b);
        }
    } else if a.len() == 0 && b.len() == 0 {
        assert(a =~= b);
    } else if a.len() > 0 && b.len() > 0 {
        assert((a[0] as int) != (b[0] as int));
    }
}

/// The latest tag, as the last one in sorted order: a greatest tag, or nothing
/// where there is no tag.
pub fn latest_tag(tags: &Vec<String>) -> (r: Option<String>)
    ensures
        match r {
            Some(t) => is_greatest(views(tags@), t@),
            None => tags@.len() == 0,
        },
{
    if tags.len() == 0 {
        return None;
    }
    let mut best: usize = 0;
    let mut i: usize = 1;
    proof {
        lemma_irreflexive(tags@[0]@);
    }
    while i < tags.len()
        invariant
            1 <= i <= tags@.len(),
            best < i,
            forall|j: int| 0 <= j < i ==> !text_less(tags@[best as int]@, #[trigger] tags@[j]@),
        decreases tags@.len() - i,
    {
        if string_less(tags[best].as_str(), tags[i].as_str()) {
            proof {
                assert forall|j: int| 0 <= j < i + 1 implies !text_less(tags@[i as int]@, #[trigger] tags@[j]@) by {
                    if j < i && text_less(tags@[i as int]@, tags@[j]@) {
                        lemma_text_less_transitive(tags@[best as int]@, tags@[i as int]@, tags@[j]@);
                    }
                    if j == i {
                        lemma_irreflexive(tags@[i as int]@);
                    }
                }
            }
            best = i;
        } else {
            proof {
                lemma_text_less_total(tags@[best as int]@, tags@[i as int]@);
                if tags@[best as int]@ == tags@[i as int]@ {
                    lemma_irreflexive(tags@[i as int]@);
                } else {
                    lemma_not_both(tags@[best as int]@, tags@[i as int]@);
                }
            }
        }
        i = i + 1;
    }
    let t = tags[best].clone();
    proof {
        let vs = views(tags@);
        assert(vs[best as int] == t@);
        assert forall|j: int| 0 <= j < vs.len() implies !text_less(t@, #[trigger] vs[j]) by {
            assert(vs[j] == tags@[j]@);
        }
    }
    Some(t)
}

/// No text comes before itself.
proof fn lemma_irreflexive(a: Seq<char>)
    ensures
        !text_less(a, a),
    decreases a.len(),
{
    if a.len() > 0 {
        lemma_irreflexive(a.drop_first());
    }
}

/// Of two texts, at most one comes before the other.
proof fn lemma_not_both(a: Seq<char>, b: Seq<char>)
    ensures
        !(text_less(a, b) && text_less(b, a)),
    decreases a.len(),
{
    if a.len() > 0 && b.len() > 0 && a[0] == b[0] {
        lemma_not_both(a.drop_first(), b.drop_first());
    }
}

/// The identity that commits and tags are signed with: the configured user name
/// and email, or the defaults where they are not configured.
pub fn signature_identity(name: Option<String>, email: Option<String>) -> (r: (String, String))
    ensures
        r.0@ == (match name {
            Some(n) => n@,
            None => "Autoversion Action"@,
        }),
        r.1@ == (match email {
            Some(e) => e@,
            None => "autoversion@github.actions"@,
        }),
{
    let n = match name {
        Some(n) => n,
        None => String::from_str("Autoversion Action"),
    };
    let e = match email {
        Some(e) => e,
        None => String::from_str("autoversion@github.actions"),
    };
    (n, e)
}

/// Whether a tag may be deleted: only where it exists.
pub fn check_tag_deletion(tag_name: &str, tag_found: bool) -> (r: Result<(), String>)
    ensures
        unit_result(r) == if tag_found { Ok(()) } else { Err("Tag '"@ + tag_name@ + "' does not exist"@) },
{
    if tag_found {
        Ok(())
    } else {
        Err(String::from_str("Tag '").concat(tag_name).concat("' does not exist"))
    }
}

/// Whether the last commit may be reverted: only where it has a parent.
pub fn check_revert(parent_count: usize) -> (r: Result<(), String>)
    ensures
        unit_result(r) == if parent_count > 0 { Ok(()) } else { Err("Cannot revert initial commit"@) },
{
    if parent_count > 0 {
        Ok(())
    } else {
        Err(String::from_str("Cannot revert initial commit"))
    }
}

} // verus!
