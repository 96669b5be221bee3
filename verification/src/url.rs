//! Expansion of the URL template from which an archive is fetched.

use vstd::prelude::*;
use crate::key::{key_of, BuildIdentity};

verus! {

/// `pattern` stands in `text` at position `at`.
pub open spec fn occurs_at(text: Seq<char>, pattern: Seq<char>, at: int) -> bool {
    0 <= at && at + pattern.len() <= text.len() && text.subrange(at, at + pattern.len()) == pattern
}

/// `text` with every occurrence of `pattern` replaced by `value`, reading
/// from the left; an occurrence begins only behind the end of the one before
/// it. An empty pattern occurs nowhere.
pub open spec fn substituted(text: Seq<char>, pattern: Seq<char>, value: Seq<char>) -> Seq<char>
    decreases text.len(),
{
    if text.len() == 0 || pattern.len() == 0 {
        text
    } else if occurs_at(text, pattern, 0) {
        value + substituted(text.skip(pattern.len() as int), pattern, value)
    } else {
        seq![text[0]] + substituted(text.skip(1), pattern, value)
    }
}

/// The characters of a string, one by one.
fn chars_of(text: &str) -> (out: Vec<char>)
    ensures
        out@ == text@,
{
    let mut out: Vec<char> = Vec::new();
    for c in it: text.chars()
        invariant
            it.seq() == text@,
            out@ == text@.take(it.index()),
    {
        out.push(c);
        assert(text@.take(it.index() + 1) =~= text@.take(it.index()).push(c));
    }
    assert(text@.take(text@.len() as int) =~= text@);
    out
}

/// Tells whether `pattern` stands in `text` at position `at`.
fn stands_at(text: &Vec<char>, pattern: &Vec<char>, at: usize) -> (res: bool)
    requires
        at <= text@.len(),
    ensures
        res == occurs_at(text@, pattern@, at as int),
{
    if pattern.len() > text.len() - at {
        return false;
    }
    let mut k: usize = 0;
    while k < pattern.len()
        invariant
            k <= pattern@.len(),
            at + pattern@.len() <= text@.len() <= usize::MAX,
            forall|j: int| 0 <= j < k ==> text@[at + j] == pattern@[j],
        decreases pattern@.len() - k,
    {
        if text[at + k] != pattern[k] {
            assert(text@.subrange(at as int, at + pattern@.len())[k as int] != pattern@[k as int]);
            return false;
        }
        k += 1;
    }
    assert(text@.subrange(at as int, at + pattern@.len()) =~= pattern@);
    true
}

/// Replaces every occurrence of `pattern` in `text` by `value`. The value is
/// put in as it is: nothing in it is escaped.
pub fn substitute(text: &str, pattern: &str, value: &str) -> (out: String)
    ensures
        out@ == substituted(text@, pattern@, value@),
{
    let chars = chars_of(text);
    let sought = chars_of(pattern);
    if sought.len() == 0 {
        return text.to_owned();
    }
    let mut out = String::new();
    let mut start: usize = 0;
    let mut i: usize = 0;
    proof {
        assert(text@.skip(0) =~= text@);
        assert(out@ + text@.subrange(0, 0) + text@ =~= text@);
    }
    while i < chars.len()
        invariant
            chars@ == text@,
            sought@ == pattern@,
            pattern@.len() > 0,
            start <= i <= text@.len(),
            substituted(text@, pattern@, value@) == out@ + text@.subrange(start as int, i as int)
                + substituted(text@.skip(i as int), pattern@, value@),
        decreases text@.len() - i,
    {
        let ghost rest = text@.skip(i as int);
        let ghost width = pattern@.len() as int;
        proof {
            if i + width <= text@.len() {
                assert(rest.subrange(0, width) =~= text@.subrange(i as int, i + width));
            }
        }
        if stands_at(&chars, &sought, i) {
            proof {
                assert(occurs_at(rest, pattern@, 0));
                assert(rest.skip(width) =~= text@.skip(i + width));
                assert(out@ + text@.subrange(start as int, i as int) + (value@ + substituted(
                    rest.skip(width),
                    pattern@,
                    value@,
                )) =~= (out@ + text@.subrange(start as int, i as int) + value@) + text@.subrange(
                    i + width,
                    i + width,
                ) + substituted(text@.skip(i + width), pattern@, value@));
            }
            out.append(text.substring_char(start, i));
            out.append(value);
            i += sought.len();
            start = i;
        } else {
            proof {
                assert(!occurs_at(rest, pattern@, 0));
                assert(rest.skip(1) =~= text@.skip(i + 1));
                assert(out@ + text@.subrange(start as int, i as int) + (seq![rest[0]]
                    + substituted(rest.skip(1), pattern@, value@)) =~= out@ + text@.subrange(
                    start as int,
                    i + 1,
                ) + substituted(text@.skip(i + 1), pattern@, value@));
            }
            i += 1;
        }
    }
    proof {
        assert(text@.skip(i as int).len() == 0);
        assert(out@ + text@.subrange(start as int, i as int) + text@.skip(i as int) =~= out@
            + text@.subrange(start as int, i as int));
    }
    out.append(text.substring_char(start, i));
    out
}

/// The URL that a template stands for: `{tag}` replaced by the tag, then
/// `{key}` replaced by the key.
pub open spec fn download_url_of(template: Seq<char>, tag: Seq<char>, key: Seq<char>) -> Seq<char> {
    substituted(substituted(template, "{tag}"@, tag), "{key}"@, key)
}

/// Prepares the final download URL for the archive of prebuilt binaries.
pub fn download_url(url_template: String, tag: &str, key: &str) -> (url: String)
    ensures
        url@ == download_url_of(url_template@, tag@, key@),
{
    let tagged = substitute(url_template.as_str(), "{tag}", tag);
    substitute(tagged.as_str(), "{key}", key)
}

impl BuildIdentity {
    /// The URL from which the archive of this build is fetched: the template
    /// filled in with the package version `tag` and this identity's key.
    pub fn archive_url(&self, url_template: String, tag: &str) -> (url: String)
        ensures
            url@ == download_url_of(url_template@, tag@, key_of(self@)),
    {
        let key = self.derive_key();
        download_url(url_template, tag, key.as_str())
    }
}

/// A text in which the pattern does not occur is left as it is.
pub proof fn lemma_substituted_without_occurrence(
    text: Seq<char>,
    pattern: Seq<char>,
    value: Seq<char>,
)
    requires
        forall|at: int| !occurs_at(text, pattern, at),
    ensures
        substituted(text, pattern, value) == text,
    decreases text.len(),
{
    if text.len() > 0 && pattern.len() > 0 {
        let rest = text.skip(1);
        assert forall|at: int| !occurs_at(rest, pattern, at) by {
            if occurs_at(rest, pattern, at) {
                assert(text.subrange(at + 1, at + 1 + pattern.len()) =~= rest.subrange(
                    at,
                    at + pattern.len(),
                ));
                assert(occurs_at(text, pattern, at + 1));
            }
        }
        lemma_substituted_without_occurrence(rest, pattern, value);
        assert(!occurs_at(text, pattern, 0));
        assert(seq![text[0]] + rest =~= text);
    }
}

/// A template without placeholders passes through unchanged, whatever the
/// tag and the key.
pub proof fn lemma_literal_template_unchanged(template: Seq<char>, tag: Seq<char>, key: Seq<char>)
    requires
        forall|at: int| !occurs_at(template, "{tag}"@, at),
        forall|at: int| !occurs_at(template, "{key}"@, at),
    ensures
        download_url_of(template, tag, key) == template,
{
    lemma_substituted_without_occurrence(template, "{tag}"@, tag);
    lemma_substituted_without_occurrence(template, "{key}"@, key);
}

} // verus!
