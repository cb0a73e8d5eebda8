//! Slug derivation: the URL-safe identifier computed from a post's title.

use crate::models::Post;
use vstd::prelude::*;

verus! {

/// The lowercase form of a string, as `str::to_lowercase` computes it from the
/// Unicode case tables.
pub uninterp spec fn lowercase_of(s: Seq<char>) -> Seq<char>;

/// `str::to_lowercase` returns a new string that depends on the characters of
/// its argument alone; that result is called `lowercase_of`.
pub assume_specification[ str::to_lowercase ](s: &str) -> (out: String)
    ensures
        out@ == lowercase_of(s@),
;

/// The title with every space replaced by a hyphen, all other characters kept.
pub open spec fn hyphenated(s: Seq<char>) -> Seq<char> {
    s.map_values(|c: char| if c == ' ' { '-' } else { c })
}

/// The slug of a title: spaces become hyphens, then the whole string is
/// lowercased. Nothing else is normalised.
pub open spec fn slug_of(title: Seq<char>) -> Seq<char> {
    lowercase_of(hyphenated(title))
}

/// Appends one character to a string (`String::push`).
pub assume_specification[ String::push ](s: &mut String, ch: char)
    ensures
        final(s)@ == old(s)@.push(ch),
;

/// Replaces every space of `title` by a hyphen.
pub fn hyphenate(title: &str) -> (out: String)
    ensures
        out@ == hyphenated(title@),
{
    let mut out = String::new();
    for c in it: title.chars()
        invariant
            it.seq() == title@,
            out@ == hyphenated(title@.take(it.index())),
    {
        proof {
            let i = it.index();
            assert(title@.take(i + 1) =~= title@.take(i).push(title@[i]));
        }
        if c == ' ' {
            out.push('-');
        } else {
            out.push(c);
        }
    }
    proof {
        assert(title@.take(title@.len() as int) =~= title@);
    }
    out
}

impl Post {
    /// Derives the slug of `title`.
    pub fn slugify(title: &str) -> (slug: String)
        ensures
            slug@ == slug_of(title@),
    {
        hyphenate(title).as_str().to_lowercase()
    }
}

/// Replacing spaces keeps the length and leaves no space behind.
pub proof fn lemma_hyphenated_has_no_space(s: Seq<char>)
    ensures
        hyphenated(s).len() == s.len(),
        !hyphenated(s).contains(' '),
{
}

/// A string without spaces is left as it is, and only such a string is.
pub proof fn lemma_hyphenated_fixed_point(s: Seq<char>)
    ensures
        hyphenated(s) == s <==> !s.contains(' '),
{
    if !s.contains(' ') {
        assert(hyphenated(s) =~= s);
    } else {
        let i = choose|i: int| 0 <= i < s.len() && s[i] == ' ';
        assert(hyphenated(s)[i] == '-');
    }
}

/// Replacing spaces twice is the same as replacing them once.
pub proof fn lemma_hyphenated_idempotent(s: Seq<char>)
    ensures
        hyphenated(hyphenated(s)) == hyphenated(s),
{
    assert(hyphenated(hyphenated(s)) =~= hyphenated(s));
}

/// A string with no space that lowercasing leaves unchanged is its own slug.
pub proof fn lemma_slug_fixed_point(s: Seq<char>)
    ensures
        !s.contains(' ') && lowercase_of(s) == s ==> slug_of(s) == s,
{
    lemma_hyphenated_fixed_point(s);
}

/// Deriving the slug of a slug gives the same slug again, for every title
/// whose slug holds no space and is unchanged by a second lowercasing.
/// Whether lowercasing can bring in a space, or change its own result, is a
/// matter of the Unicode case tables, which are not modelled here.
pub proof fn lemma_slug_of_settled_slug(title: Seq<char>)
    ensures
        !slug_of(title).contains(' ') && lowercase_of(slug_of(title)) == slug_of(title)
            ==> slug_of(slug_of(title)) == slug_of(title),
{
    lemma_slug_fixed_point(slug_of(title));
}

} // verus!
