//! The addresses to ask for a project's releases, and what to take from the
//! answers: the first search result and the most recent release.

use vstd::prelude::*;
use vstd::string::{StrSliceExecFns, StringExecFns};
use crate::asset::AssetCandidate;
use crate::text::{chars_of, matches_at, occurs_at, occurs_in};

verus! {

/// Why a lookup gave nothing to install from.
#[derive(Clone, Copy, PartialEq, Eq, Structural, Debug)]
pub enum LookupError {
    /// The search found no repository.
    NoSearchResult,
    /// The repository has published no release.
    NoRelease,
}

/// What to tell the user about a lookup that gave nothing.
pub open spec fn lookup_message_of(error: LookupError) -> Seq<char> {
    match error {
        LookupError::NoSearchResult => "the search found no repository"@,
        LookupError::NoRelease => "the repository has published no release"@,
    }
}

impl LookupError {
    /// A sentence for the user that says what was missing.
    pub fn message(&self) -> (text: &'static str)
        ensures
            text@ == lookup_message_of(*self),
    {
        match self {
            LookupError::NoSearchResult => "the search found no repository",
            LookupError::NoRelease => "the repository has published no release",
        }
    }
}

/// The address of a repository search for `term`.
pub open spec fn search_url_of(term: Seq<char>) -> Seq<char> {
    "https://api.github.com/search/repositories?q="@ + term
}

/// Writes the address of a repository search for `term`. The term is put in
/// as it is.
pub fn search_url(term: &str) -> (url: String)
    ensures
        url@ == search_url_of(term@),
{
    let mut url = "https://api.github.com/search/repositories?q=".to_owned();
    url.append(term);
    url
}

/// `text` with every occurrence of `pattern` taken out, found from left to
/// right; what is left is not searched again. An empty pattern takes
/// nothing out.
pub open spec fn without(text: Seq<char>, pattern: Seq<char>) -> Seq<char>
    decreases text.len(),
{
    if pattern.len() == 0 || text.len() < pattern.len() {
        text
    } else if text.subrange(0, pattern.len() as int) == pattern {
        without(text.skip(pattern.len() as int), pattern)
    } else {
        seq![text[0]] + without(text.skip(1), pattern)
    }
}

/// A text in which the pattern does not occur is left as it is.
pub proof fn without_leaves_other_text(text: Seq<char>, pattern: Seq<char>)
    requires
        !occurs_in(text, pattern),
    ensures
        without(text, pattern) == text,
    decreases text.len(),
{
    if pattern.len() > 0 && text.len() >= pattern.len() {
        assert(!occurs_at(text, pattern, 0));
        let tail = text.skip(1);
        assert forall|at: int| !occurs_at(tail, pattern, at) by {
            if occurs_at(tail, pattern, at) {
                assert(text.subrange(at + 1, at + 1 + pattern.len()) =~= tail.subrange(
                    at,
                    at + pattern.len(),
                ));
                assert(occurs_at(text, pattern, at + 1));
            }
        }
        without_leaves_other_text(tail, pattern);
        assert(seq![text[0]] + tail =~= text);
    }
}

/// Taking a pattern out never makes a text longer.
pub proof fn without_is_no_longer(text: Seq<char>, pattern: Seq<char>)
    ensures
        without(text, pattern).len() <= text.len(),
    decreases text.len(),
{
    if pattern.len() > 0 && text.len() >= pattern.len() {
        if text.subrange(0, pattern.len() as int) == pattern {
            without_is_no_longer(text.skip(pattern.len() as int), pattern);
        } else {
            without_is_no_longer(text.skip(1), pattern);
        }
    }
}

/// Takes every occurrence of `pattern` out of `text`.
pub fn remove_all(text: &str, pattern: &str) -> (rest: String)
    ensures
        rest@ == without(text@, pattern@),
{
    let hay = chars_of(text);
    let needle = chars_of(pattern);
    let n: usize = hay.len();
    let m: usize = needle.len();
    if m == 0 || m > n {
        return text.to_owned();
    }
    let mut rest = String::new();
    let mut from: usize = 0;
    let mut at: usize = 0;
    proof {
        assert(text@.skip(0) =~= text@);
        assert(rest@ + text@.subrange(0, 0) + without(text@.skip(0), pattern@) =~= without(
            text@,
            pattern@,
        ));
    }
    while at <= n - m
        invariant
            hay@ == text@,
            needle@ == pattern@,
            n == hay@.len(),
            m == needle@.len(),
            0 < m <= n,
            from <= at <= n,
            without(text@, pattern@) == rest@ + text@.subrange(from as int, at as int) + without(
                text@.skip(at as int),
                pattern@,
            ),
        decreases n - at,
    {
        let ghost tail = text@.skip(at as int);
        proof {
            assert(tail.subrange(0, m as int) =~= text@.subrange(at as int, at + m));
        }
        if matches_at(&hay, &needle, at) {
            let piece = text.substring_char(from, at);
            rest.append(piece);
            proof {
                assert(tail.skip(m as int) =~= text@.skip(at + m));
                assert(text@.subrange(at + m, at + m) =~= Seq::<char>::empty());
                assert(rest@ + text@.subrange(at + m, at + m) =~= rest@);
            }
            at += m;
            from = at;
        } else {
            proof {
                assert(tail.skip(1) =~= text@.skip(at + 1));
                assert(text@.subrange(from as int, at as int) + seq![tail[0]] =~= text@.subrange(
                    from as int,
                    at + 1,
                ));
                assert(rest@ + text@.subrange(from as int, at as int) + (seq![tail[0]] + without(
                    tail.skip(1),
                    pattern@,
                )) =~= rest@ + text@.subrange(from as int, at + 1) + without(
                    text@.skip(at + 1),
                    pattern@,
                ));
            }
            at += 1;
        }
    }
    proof {
        assert(text@.subrange(from as int, at as int) + text@.skip(at as int) =~= text@.subrange(
            from as int,
            n as int,
        ));
        assert(rest@ + text@.subrange(from as int, at as int) + text@.skip(at as int) =~= rest@
            + text@.subrange(from as int, n as int));
    }
    let piece = text.substring_char(from, n);
    rest.append(piece);
    rest
}

/// The address of a repository's releases, from the template that a search
/// result gives: the template without its placeholder `{/id}`.
pub open spec fn releases_url_of(template: Seq<char>) -> Seq<char> {
    without(template, "{/id}"@)
}

/// Writes the address of a repository's releases from its template.
pub fn releases_url(template: &str) -> (url: String)
    ensures
        url@ == releases_url_of(template@),
{
    remove_all(template, "{/id}")
}

/// The address of the releases of the first repository that a search found,
/// from the templates of all that it found, in order.
pub fn first_releases_url(templates: &Vec<String>) -> (url: Result<String, LookupError>)
    ensures
        match url {
            Ok(url) => templates@.len() > 0 && url@ == releases_url_of(templates@[0]@),
            Err(e) => templates@.len() == 0 && e == LookupError::NoSearchResult,
        },
{
    if templates.len() == 0 {
        Err(LookupError::NoSearchResult)
    } else {
        Ok(releases_url(templates[0].as_str()))
    }
}

/// The assets of the most recent release, from the assets of all releases,
/// most recent first.
pub fn latest_assets(releases: &Vec<Vec<AssetCandidate>>) -> (assets: Result<
    &Vec<AssetCandidate>,
    LookupError,
>)
    ensures
        match assets {
            Ok(assets) => releases@.len() > 0 && *assets == releases@[0],
            Err(e) => releases@.len() == 0 && e == LookupError::NoRelease,
        },
{
    if releases.len() == 0 {
        Err(LookupError::NoRelease)
    } else {
        Ok(&releases[0])
    }
}

} // verus!
