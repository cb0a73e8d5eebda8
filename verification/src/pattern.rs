//! Wildcard patterns over text: `%` stands for any run of characters, the
//! empty run included, and `_` for exactly one character. Every other
//! character stands for itself; there is no escape character.

use crate::text::chars_of;
use vstd::prelude::*;

verus! {

/// `text` matches `pattern` from its first to its last character.
pub open spec fn like_matches(text: Seq<char>, pattern: Seq<char>) -> bool
    decreases pattern.len(), text.len(),
{
    if pattern.len() == 0 {
        text.len() == 0
    } else if pattern[0] == '%' {
        like_matches(text, pattern.skip(1)) || (text.len() > 0 && like_matches(
            text.skip(1),
            pattern,
        ))
    } else {
        text.len() > 0 && (pattern[0] == '_' || pattern[0] == text[0]) && like_matches(
            text.skip(1),
            pattern.skip(1),
        )
    }
}

/// Whether `text` from position `i` on matches `pattern` from position `j` on.
pub open spec fn tail_matches(text: Seq<char>, pattern: Seq<char>, i: int, j: int) -> bool {
    like_matches(text.skip(i), pattern.skip(j))
}

/// How a match at `(i, j)` follows from the matches one step further on.
pub proof fn lemma_tail_matches_step(text: Seq<char>, pattern: Seq<char>, i: int, j: int)
    requires
        0 <= i <= text.len(),
        0 <= j <= pattern.len(),
    ensures
        j == pattern.len() ==> tail_matches(text, pattern, i, j) == (i == text.len()),
        j < pattern.len() && pattern[j] == '%' ==> tail_matches(text, pattern, i, j) == (
        tail_matches(text, pattern, i, j + 1) || (i < text.len() && tail_matches(
            text,
            pattern,
            i + 1,
            j,
        ))),
        j < pattern.len() && pattern[j] != '%' ==> tail_matches(text, pattern, i, j) == (i
            < text.len() && (pattern[j] == '_' || pattern[j] == text[i]) && tail_matches(
            text,
            pattern,
            i + 1,
            j + 1,
        )),
{
    let t = text.skip(i);
    let p = pattern.skip(j);
    if j < pattern.len() {
        assert(p.skip(1) =~= pattern.skip(j + 1));
    }
    if i < text.len() {
        assert(t.skip(1) =~= text.skip(i + 1));
    }
}

/// Decides whether `text` matches the wildcard pattern `pattern`.
pub fn matches_like(text: &str, pattern: &str) -> (out: bool)
    ensures
        out == like_matches(text@, pattern@),
{
    let s = chars_of(text);
    let p = chars_of(pattern);
    let n = s.len();
    let m = p.len();
    proof {
        assert(s@.skip(0) =~= s@);
        assert(p@.skip(0) =~= p@);
    }
    if m == 0 {
        proof {
            lemma_tail_matches_step(s@, p@, 0, 0);
        }
        return n == 0;
    }
    let mut row: Vec<bool> = Vec::new();
    while row.len() < m
        invariant
            row.len() <= m,
        decreases m - row.len(),
    {
        row.push(false);
    }
    // The row for the empty tail of the text.
    let mut next = true;
    let mut j = m;
    while j > 0
        invariant
            n == s.len(),
            m == p.len(),
            row.len() == m,
            j <= m,
            next == tail_matches(s@, p@, n as int, j as int),
            forall|t: int| j <= t < m ==> row[t] == tail_matches(s@, p@, n as int, t),
        decreases j,
    {
        j -= 1;
        proof {
            lemma_tail_matches_step(s@, p@, n as int, j as int + 1);
            lemma_tail_matches_step(s@, p@, n as int, j as int);
        }
        let here = p[j] == '%' && next;
        row.set(j, here);
        next = here;
    }
    let mut i = n;
    while i > 0
        invariant
            n == s.len(),
            m == p.len(),
            m > 0,
            row.len() == m,
            i <= n,
            forall|t: int| 0 <= t < m ==> row[t] == tail_matches(s@, p@, i as int, t),
        decreases i,
    {
        i -= 1;
        proof {
            lemma_tail_matches_step(s@, p@, i as int + 1, m as int);
            lemma_tail_matches_step(s@, p@, i as int, m as int);
        }
        let mut diagonal = i + 1 == n;
        let mut next = false;
        let mut j = m;
        while j > 0
            invariant
                n == s.len(),
                m == p.len(),
                row.len() == m,
                i < n,
                j <= m,
                diagonal == tail_matches(s@, p@, i as int + 1, j as int),
                next == tail_matches(s@, p@, i as int, j as int),
                forall|t: int| j <= t < m ==> row[t] == tail_matches(s@, p@, i as int, t),
                forall|t: int| 0 <= t < j ==> row[t] == tail_matches(s@, p@, i as int + 1, t),
            decreases j,
        {
            j -= 1;
            proof {
                lemma_tail_matches_step(s@, p@, i as int, j as int);
            }
            let below = row[j];
            let here = if p[j] == '%' {
                next || below
            } else {
                (p[j] == '_' || p[j] == s[i]) && diagonal
            };
            row.set(j, here);
            diagonal = below;
            next = here;
        }
    }
    row[0]
}

/// No character of `lit` is a wildcard.
pub open spec fn is_literal(lit: Seq<char>) -> bool {
    forall|i: int| 0 <= i < lit.len() ==> lit[i] != '%' && lit[i] != '_'
}

/// `lit` stands in `text` at position `k`.
pub open spec fn occurs_at(lit: Seq<char>, text: Seq<char>, k: int) -> bool {
    &&& 0 <= k
    &&& k + lit.len() <= text.len()
    &&& text.subrange(k, k + lit.len()) == lit
}

/// `lit` stands somewhere in `text`.
pub open spec fn occurs_in(lit: Seq<char>, text: Seq<char>) -> bool {
    exists|k: int| occurs_at(lit, text, k)
}

/// The pattern `%` matches every text.
pub proof fn lemma_percent_matches_all(text: Seq<char>)
    ensures
        like_matches(text, seq!['%']),
    decreases text.len(),
{
    let p = seq!['%'];
    assert(p.skip(1) =~= Seq::<char>::empty());
    if text.len() > 0 {
        lemma_percent_matches_all(text.skip(1));
    } else {
        assert(like_matches(text, p.skip(1)));
    }
}

/// A literal followed by `%` matches exactly the texts that start with the
/// literal.
pub proof fn lemma_like_prefix(text: Seq<char>, lit: Seq<char>)
    requires
        is_literal(lit),
    ensures
        like_matches(text, lit + seq!['%']) <==> occurs_at(lit, text, 0),
    decreases lit.len(),
{
    let p = lit + seq!['%'];
    if lit.len() == 0 {
        assert(p =~= seq!['%']);
        lemma_percent_matches_all(text);
        assert(text.subrange(0, 0) =~= lit);
    } else {
        assert(p[0] == lit[0]);
        assert(p.skip(1) =~= lit.skip(1) + seq!['%']);
        if text.len() > 0 {
            lemma_like_prefix(text.skip(1), lit.skip(1));
            let rest = text.skip(1);
            if occurs_at(lit, text, 0) {
                assert(text.subrange(0, lit.len() as int)[0] == lit[0]);
                assert(rest.subrange(0, lit.len() - 1) =~= text.subrange(
                    0,
                    lit.len() as int,
                ).skip(1));
            }
            if text[0] == lit[0] && occurs_at(lit.skip(1), rest, 0) {
                assert(rest.subrange(0, lit.len() - 1) == lit.skip(1));
                assert forall|i: int| 0 <= i < lit.len() implies text.subrange(
                    0,
                    lit.len() as int,
                )[i] == lit[i] by {
                    if i > 0 {
                        assert(rest.subrange(0, lit.len() - 1)[i - 1] == lit.skip(1)[i - 1]);
                    }
                }
                assert(text.subrange(0, lit.len() as int) =~= lit);
            }
        }
    }
}

/// A pattern that starts with `%` matches exactly the texts of which some
/// tail matches the rest of the pattern.
pub proof fn lemma_like_leading_percent(text: Seq<char>, rest: Seq<char>)
    ensures
        like_matches(text, seq!['%'] + rest) <==> exists|k: int|
            0 <= k <= text.len() && like_matches(#[trigger] text.skip(k), rest),
    decreases text.len(),
{
    let p = seq!['%'] + rest;
    assert(p.skip(1) =~= rest);
    assert(text.skip(0) =~= text);
    if text.len() > 0 {
        let tail = text.skip(1);
        lemma_like_leading_percent(tail, rest);
        if like_matches(tail, p) {
            let k = choose|k: int| 0 <= k <= tail.len() && like_matches(#[trigger] tail.skip(k), rest);
            assert(tail.skip(k) =~= text.skip(k + 1));
        }
        if exists|k: int| 0 <= k <= text.len() && like_matches(#[trigger] text.skip(k), rest) {
            let k = choose|k: int| 0 <= k <= text.len() && like_matches(#[trigger] text.skip(k), rest);
            if k > 0 {
                assert(tail.skip(k - 1) =~= text.skip(k));
            }
        }
    }
}

/// A literal between two `%` matches exactly the texts in which the literal
/// occurs.
pub proof fn lemma_like_infix(text: Seq<char>, lit: Seq<char>)
    requires
        is_literal(lit),
    ensures
        like_matches(text, seq!['%'] + lit + seq!['%']) <==> occurs_in(lit, text),
{
    let rest = lit + seq!['%'];
    assert(seq!['%'] + lit + seq!['%'] =~= seq!['%'] + rest);
    lemma_like_leading_percent(text, rest);
    assert forall|k: int| 0 <= k <= text.len() implies (like_matches(
        #[trigger] text.skip(k),
        rest,
    ) <==> occurs_at(lit, text, k)) by {
        lemma_like_prefix(text.skip(k), lit);
        if k + lit.len() <= text.len() {
            assert(text.skip(k).subrange(0, lit.len() as int) =~= text.subrange(
                k,
                k + lit.len(),
            ));
        }
    }
    if occurs_in(lit, text) {
        let k = choose|k: int| occurs_at(lit, text, k);
        assert(like_matches(text.skip(k), rest));
    }
}

} // verus!
