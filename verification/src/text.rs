//! Text as sequences of characters: the order in which text columns sort.

use vstd::prelude::*;

verus! {

/// The characters of a string, in order.
pub fn chars_of(s: &str) -> (out: Vec<char>)
    ensures
        out@ == s@,
{
    let mut out: Vec<char> = Vec::new();
    for c in it: s.chars()
        invariant
            it.seq() == s@,
            out@ == s@.take(it.index()),
    {
        proof {
            let i = it.index();
            assert(s@.take(i + 1) =~= s@.take(i).push(s@[i]));
        }
        out.push(c);
    }
    proof {
        assert(s@.take(s@.len() as int) =~= s@);
    }
    out
}

/// `a` and `b` agree on their first `k` characters.
pub open spec fn agree_until(a: Seq<char>, b: Seq<char>, k: int) -> bool {
    &&& 0 <= k <= a.len()
    &&& k <= b.len()
    &&& forall|i: int| 0 <= i < k ==> a[i] == b[i]
}

/// `a` sorts strictly before `b`: at the first position where they differ `a`
/// has the smaller code point, or `a` is a proper prefix of `b`.
pub open spec fn text_before(a: Seq<char>, b: Seq<char>) -> bool {
    exists|k: int|
        #[trigger] agree_until(a, b, k) && k < b.len() && (k == a.len() || a[k] < b[k])
}

/// Decides whether `a` sorts strictly before `b`.
pub fn is_text_before(a: &Vec<char>, b: &Vec<char>) -> (out: bool)
    ensures
        out == text_before(a@, b@),
{
    let mut i: usize = 0;
    while i < a.len() && i < b.len()
        invariant
            agree_until(a@, b@, i as int),
        decreases a.len() - i,
    {
        if a[i] != b[i] {
            let less = a[i] < b[i];
            proof {
                if !less {
                    assert forall|k: int|
                        !(#[trigger] agree_until(a@, b@, k) && k < b@.len() && (k == a@.len()
                            || a@[k] < b@[k])) by {
                        if agree_until(a@, b@, k) && k > i {
                            assert(a@[i as int] == b@[i as int]);
                        }
                    }
                }
            }
            return less;
        }
        i += 1;
    }
    let shorter = i < b.len();
    proof {
        if !shorter {
            assert forall|k: int|
                !(#[trigger] agree_until(a@, b@, k) && k < b@.len() && (k == a@.len() || a@[k]
                    < b@[k])) by {}
        } else {
            assert(agree_until(a@, b@, i as int));
        }
    }
    shorter
}

/// Of two texts at most one sorts before the other.
pub proof fn lemma_text_before_asymmetric(a: Seq<char>, b: Seq<char>)
    ensures
        !(text_before(a, b) && text_before(b, a)),
{
    if text_before(a, b) && text_before(b, a) {
        let k1 = choose|k: int|
            #[trigger] agree_until(a, b, k) && k < b.len() && (k == a.len() || a[k] < b[k]);
        let k2 = choose|k: int|
            #[trigger] agree_until(b, a, k) && k < a.len() && (k == b.len() || b[k] < a[k]);
        if k1 < k2 {
            assert(b[k1] == a[k1]);
        } else if k2 < k1 {
            assert(a[k2] == b[k2]);
        }
    }
}

/// Sorting before is transitive.
pub proof fn lemma_text_before_transitive(a: Seq<char>, b: Seq<char>, c: Seq<char>)
    requires
        text_before(a, b),
        text_before(b, c),
    ensures
        text_before(a, c),
{
    let k1 = choose|k: int|
        #[trigger] agree_until(a, b, k) && k < b.len() && (k == a.len() || a[k] < b[k]);
    let k2 = choose|k: int|
        #[trigger] agree_until(b, c, k) && k < c.len() && (k == b.len() || b[k] < c[k]);
    let k = if k1 <= k2 { k1 } else { k2 };
    assert forall|i: int| 0 <= i < k implies a[i] == c[i] by {
        assert(a[i] == b[i]);
        assert(b[i] == c[i]);
    }
    if k2 < k1 {
        assert(a[k2] == b[k2]);
    } else if k1 < k2 {
        assert(b[k1] == c[k1]);
    }
    assert(agree_until(a, c, k));
}

/// Two texts that agree on their first `k` characters and are not the same
/// text are ordered one way or the other.
proof fn lemma_text_order_from(a: Seq<char>, b: Seq<char>, k: int)
    requires
        agree_until(a, b, k),
        a != b,
    ensures
        text_before(a, b) || text_before(b, a),
    decreases a.len() - k,
{
    if k == a.len() && k == b.len() {
        assert(a =~= b);
    } else if k == a.len() {
        assert(agree_until(a, b, k));
    } else if k == b.len() {
        assert(agree_until(b, a, k));
    } else if a[k] < b[k] {
        assert(agree_until(a, b, k));
    } else if b[k] < a[k] {
        assert(agree_until(b, a, k));
    } else {
        assert(a[k] == b[k]);
        lemma_text_order_from(a, b, k + 1);
    }
}

/// Of two different texts one sorts before the other.
pub proof fn lemma_text_order_total(a: Seq<char>, b: Seq<char>)
    ensures
        a != b ==> text_before(a, b) || text_before(b, a),
{
    if a != b {
        lemma_text_order_from(a, b, 0);
    }
}

/// No text sorts before itself.
pub proof fn lemma_text_before_irreflexive(a: Seq<char>)
    ensures
        !text_before(a, a),
{
    lemma_text_before_asymmetric(a, a);
}

/// If `a` does not sort before `b`, nor `b` before `c`, then `a` does not sort
/// before `c`.
pub proof fn lemma_text_not_before_transitive(a: Seq<char>, b: Seq<char>, c: Seq<char>)
    requires
        !text_before(a, b),
        !text_before(b, c),
    ensures
        !text_before(a, c),
{
    lemma_text_order_total(a, b);
    lemma_text_order_total(b, c);
    if text_before(a, c) {
        if a == b || b == c {
        } else {
            lemma_text_before_transitive(c, b, a);
            lemma_text_before_asymmetric(a, c);
        }
    }
}

} // verus!
