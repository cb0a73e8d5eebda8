//! The order of rows: by one column, ascending or descending. Sorting is
//! stable, so rows with equal keys stay in the order in which they came.

use crate::models::{rows_of, Post, PostRow};
use crate::text::{
    chars_of, is_text_before, lemma_text_before_asymmetric, lemma_text_not_before_transitive,
    text_before,
};
use vstd::prelude::*;

verus! {

/// The column that rows are sorted by.
#[derive(Clone, Copy, Debug, PartialEq, Eq)]
pub enum SortField {
    Id,
    Title,
    Slug,
    Body,
}

/// The direction of a sort.
#[derive(Clone, Copy, Debug, PartialEq, Eq)]
pub enum Direction {
    Ascending,
    Descending,
}

/// An order clause: a column and a direction.
#[derive(Clone, Copy, Debug, PartialEq, Eq)]
pub struct OrderBy {
    pub field: SortField,
    pub direction: Direction,
}

/// `a` has the strictly smaller value in column `field`: the smaller number
/// for `Id`, the text that sorts first for the text columns.
pub open spec fn key_before(a: PostRow, b: PostRow, field: SortField) -> bool {
    match field {
        SortField::Id => a.id < b.id,
        SortField::Title => text_before(a.title, b.title),
        SortField::Slug => text_before(a.slug, b.slug),
        SortField::Body => text_before(a.body, b.body),
    }
}

/// `a` must come strictly before `b` under `order`.
pub open spec fn row_before(a: PostRow, b: PostRow, order: OrderBy) -> bool {
    match order.direction {
        Direction::Ascending => key_before(a, b, order.field),
        Direction::Descending => key_before(b, a, order.field),
    }
}

/// `rows` with `row` put in behind every row that it need not come before:
/// it moves forward from the end past the rows that it must precede.
pub open spec fn placed(rows: Seq<PostRow>, row: PostRow, order: OrderBy) -> Seq<PostRow>
    decreases rows.len(),
{
    if rows.len() > 0 && row_before(row, rows.last(), order) {
        placed(rows.drop_last(), row, order).push(rows.last())
    } else {
        rows.push(row)
    }
}

/// `rows` sorted by `order`; rows with equal keys keep their relative order.
pub open spec fn ordered(rows: Seq<PostRow>, order: OrderBy) -> Seq<PostRow>
    decreases rows.len(),
{
    if rows.len() == 0 {
        rows
    } else {
        placed(ordered(rows.drop_last(), order), rows.last(), order)
    }
}

/// `placed` puts the row at the position `k` behind which every row must
/// follow it and in front of which the nearest row need not.
pub proof fn lemma_placed_at(rows: Seq<PostRow>, row: PostRow, order: OrderBy, k: int)
    requires
        0 <= k <= rows.len(),
        forall|t: int| k <= t < rows.len() ==> row_before(row, rows[t], order),
        k > 0 ==> !row_before(row, rows[k - 1], order),
    ensures
        placed(rows, row, order) == rows.insert(k, row),
    decreases rows.len(),
{
    if k == rows.len() {
        assert(rows.push(row) =~= rows.insert(k, row));
    } else {
        let front = rows.drop_last();
        lemma_placed_at(front, row, order, k);
        assert(front.insert(k, row).push(rows.last()) =~= rows.insert(k, row));
    }
}

/// Decides whether `a` must come strictly before `b` under `order`.
pub fn comes_before(a: &Post, b: &Post, order: OrderBy) -> (out: bool)
    ensures
        out == row_before(a@, b@, order),
{
    let (x, y) = match order.direction {
        Direction::Ascending => (a, b),
        Direction::Descending => (b, a),
    };
    match order.field {
        SortField::Id => x.id < y.id,
        SortField::Title => is_text_before(
            &chars_of(x.title.as_str()),
            &chars_of(y.title.as_str()),
        ),
        SortField::Slug => is_text_before(&chars_of(x.slug.as_str()), &chars_of(y.slug.as_str())),
        SortField::Body => is_text_before(&chars_of(x.body.as_str()), &chars_of(y.body.as_str())),
    }
}

/// Puts `post` into `out` where `placed` puts it.
fn place(out: &mut Vec<Post>, post: Post, order: OrderBy)
    ensures
        rows_of(final(out)@) == placed(rows_of(old(out)@), post@, order),
{
    let mut k: usize = out.len();
    while k > 0 && comes_before(&post, &out[k - 1], order)
        invariant
            k <= out.len(),
            out@ == old(out)@,
            forall|t: int| k <= t < out.len() ==> row_before(post@, out@[t]@, order),
        decreases k,
    {
        k -= 1;
    }
    proof {
        lemma_placed_at(rows_of(out@), post@, order, k as int);
    }
    out.insert(k, post);
    proof {
        assert(rows_of(out@) =~= rows_of(old(out)@).insert(k as int, post@));
    }
}

/// Copies `posts` sorted by `order`; posts with equal keys keep their
/// relative order.
pub fn arrange(posts: &Vec<Post>, order: OrderBy) -> (out: Vec<Post>)
    ensures
        rows_of(out@) == ordered(rows_of(posts@), order),
{
    let mut out: Vec<Post> = Vec::new();
    let mut i: usize = 0;
    proof {
        assert(rows_of(posts@.take(0)) =~= Seq::<PostRow>::empty());
        assert(rows_of(out@) =~= Seq::<PostRow>::empty());
    }
    while i < posts.len()
        invariant
            i <= posts.len(),
            rows_of(out@) == ordered(rows_of(posts@.take(i as int)), order),
        decreases posts.len() - i,
    {
        proof {
            let seen = rows_of(posts@.take(i + 1));
            assert(seen.drop_last() =~= rows_of(posts@.take(i as int)));
            assert(seen.last() == posts@[i as int]@);
        }
        place(&mut out, posts[i].clone(), order);
        i += 1;
    }
    proof {
        assert(posts@.take(posts@.len() as int) =~= posts@);
    }
    out
}

/// No row of `rows` must come before a row that stands in front of it.
pub open spec fn in_order(rows: Seq<PostRow>, order: OrderBy) -> bool {
    forall|i: int, j: int| 0 <= i < j < rows.len() ==> !row_before(rows[j], rows[i], order)
}

/// Of two rows at most one must come before the other.
pub proof fn lemma_row_before_asymmetric(a: PostRow, b: PostRow, order: OrderBy)
    ensures
        !(row_before(a, b, order) && row_before(b, a, order)),
{
    lemma_text_before_asymmetric(a.title, b.title);
    lemma_text_before_asymmetric(a.slug, b.slug);
    lemma_text_before_asymmetric(a.body, b.body);
}

/// If `a` need not come before `b`, nor `b` before `c`, then `a` need not come
/// before `c`.
pub proof fn lemma_row_not_before_transitive(a: PostRow, b: PostRow, c: PostRow, order: OrderBy)
    requires
        !row_before(a, b, order),
        !row_before(b, c, order),
    ensures
        !row_before(a, c, order),
{
    match order.direction {
        Direction::Ascending => {
            match order.field {
                SortField::Id => {},
                SortField::Title => lemma_text_not_before_transitive(a.title, b.title, c.title),
                SortField::Slug => lemma_text_not_before_transitive(a.slug, b.slug, c.slug),
                SortField::Body => lemma_text_not_before_transitive(a.body, b.body, c.body),
            }
        },
        Direction::Descending => {
            match order.field {
                SortField::Id => {},
                SortField::Title => lemma_text_not_before_transitive(c.title, b.title, a.title),
                SortField::Slug => lemma_text_not_before_transitive(c.slug, b.slug, a.slug),
                SortField::Body => lemma_text_not_before_transitive(c.body, b.body, a.body),
            }
        },
    }
}

/// Where `placed` puts a row: the position behind which every row must
/// follow it and in front of which the nearest row need not.
pub proof fn lemma_placed_position(rows: Seq<PostRow>, row: PostRow, order: OrderBy) -> (k: int)
    ensures
        0 <= k <= rows.len(),
        placed(rows, row, order) == rows.insert(k, row),
        forall|t: int| k <= t < rows.len() ==> row_before(row, rows[t], order),
        k > 0 ==> !row_before(row, rows[k - 1], order),
    decreases rows.len(),
{
    if rows.len() > 0 && row_before(row, rows.last(), order) {
        let front = rows.drop_last();
        let k = lemma_placed_position(front, row, order);
        assert forall|t: int| k <= t < rows.len() implies row_before(row, rows[t], order) by {
            if t < front.len() {
                assert(rows[t] == front[t]);
            }
        }
        if k > 0 {
            assert(rows[k - 1] == front[k - 1]);
        }
        lemma_placed_at(rows, row, order, k);
        k
    } else {
        lemma_placed_at(rows, row, order, rows.len() as int);
        rows.len() as int
    }
}

/// Placing a row into rows that are in order leaves them in order, and adds
/// that row and no other.
pub proof fn lemma_placed_in_order(rows: Seq<PostRow>, row: PostRow, order: OrderBy)
    requires
        in_order(rows, order),
    ensures
        in_order(placed(rows, row, order), order),
        placed(rows, row, order).to_multiset() == rows.to_multiset().insert(row),
{
    let k = lemma_placed_position(rows, row, order);
    let out = rows.insert(k, row);
    assert forall|i: int, j: int| 0 <= i < j < out.len() implies !row_before(
        out[j],
        out[i],
        order,
    ) by {
        if j == k {
            // out[j] is the new row; out[i] stands in front of it.
            if i < k - 1 {
                lemma_row_not_before_transitive(row, rows[k - 1], rows[i], order);
            }
        } else if i == k {
            lemma_row_before_asymmetric(row, rows[j - 1], order);
        } else {
            let oi = if i < k { i } else { i - 1 };
            let oj = if j < k { j } else { j - 1 };
            assert(out[i] == rows[oi]);
            assert(out[j] == rows[oj]);
        }
    }
    assert(out.remove(k) =~= rows);
    vstd::seq_lib::to_multiset_remove(out, k);
    assert(out.to_multiset() =~= rows.to_multiset().insert(row)) by {
        out.to_multiset_ensures();
        assert(out.contains(row)) by {
            assert(out[k] == row);
        }
    }
}

/// Sorting puts the rows in order and neither adds nor drops a row.
pub proof fn lemma_ordered_is_sorted_permutation(rows: Seq<PostRow>, order: OrderBy)
    ensures
        in_order(ordered(rows, order), order),
        ordered(rows, order).to_multiset() == rows.to_multiset(),
        ordered(rows, order).len() == rows.len(),
    decreases rows.len(),
{
    if rows.len() > 0 {
        let front = rows.drop_last();
        lemma_ordered_is_sorted_permutation(front, order);
        lemma_placed_in_order(ordered(front, order), rows.last(), order);
        vstd::seq_lib::to_multiset_build(front, rows.last());
        assert(front.push(rows.last()) =~= rows);
    }
    ordered(rows, order).to_multiset_ensures();
    rows.to_multiset_ensures();
}

/// Neither row must come before the other: their keys are equal.
pub open spec fn same_rank(a: PostRow, b: PostRow, order: OrderBy) -> bool {
    !row_before(a, b, order) && !row_before(b, a, order)
}

/// A sequence of which no element meets `pred` has nothing left after
/// filtering by it.
pub proof fn lemma_filter_nothing<A>(s: Seq<A>, pred: spec_fn(A) -> bool)
    requires
        forall|i: int| 0 <= i < s.len() ==> !pred(#[trigger] s[i]),
    ensures
        s.filter(pred) == Seq::<A>::empty(),
    decreases s.len(),
{
    reveal(Seq::filter);
    if s.len() > 0 {
        let front = s.drop_last();
        assert forall|i: int| 0 <= i < front.len() implies !pred(#[trigger] front[i]) by {
            assert(front[i] == s[i]);
        }
        lemma_filter_nothing(front, pred);
        assert(!pred(s[s.len() - 1]));
    }
}

/// Sorting is stable: the rows that share a key with `row` come out in the
/// order in which they went in. Together with being in order this fixes
/// where every row stands.
pub proof fn lemma_ordered_is_stable(rows: Seq<PostRow>, order: OrderBy, row: PostRow)
    ensures
        ordered(rows, order).filter(|x: PostRow| same_rank(x, row, order)) == rows.filter(
            |x: PostRow| same_rank(x, row, order),
        ),
    decreases rows.len(),
{
    let f = |x: PostRow| same_rank(x, row, order);
    if rows.len() > 0 {
        let front = rows.drop_last();
        let x = rows.last();
        lemma_ordered_is_stable(front, order, row);
        let s = ordered(front, order);
        let k = lemma_placed_position(s, x, order);
        let out = s.insert(k, x);
        let head = s.take(k);
        let tail = s.skip(k);
        assert(s =~= head + tail);
        assert(out =~= head.push(x) + tail);
        Seq::filter_distributes_over_add(head, tail, f);
        Seq::filter_distributes_over_add(head.push(x), tail, f);
        head.lemma_filter_push(x, f);
        front.lemma_filter_push(x, f);
        assert(front.push(x) =~= rows);
        if f(x) {
            assert forall|t: int| 0 <= t < tail.len() implies !f(#[trigger] tail[t]) by {
                assert(tail[t] == s[k + t]);
                if f(tail[t]) {
                    lemma_row_not_before_transitive(x, row, tail[t], order);
                }
            }
            lemma_filter_nothing(tail, f);
            assert(head.filter(f) + Seq::<PostRow>::empty() =~= head.filter(f));
            assert(head.filter(f).push(x) + Seq::<PostRow>::empty() =~= head.filter(f).push(x));
        }
    } else {
        assert(ordered(rows, order) == rows);
    }
}

/// Rows that are already in order are left as they are.
pub proof fn lemma_ordered_fixed_point(rows: Seq<PostRow>, order: OrderBy)
    requires
        in_order(rows, order),
    ensures
        ordered(rows, order) == rows,
    decreases rows.len(),
{
    if rows.len() > 0 {
        let front = rows.drop_last();
        lemma_ordered_fixed_point(front, order);
        if front.len() > 0 {
            assert(front.last() == rows[rows.len() - 2]);
        }
        lemma_placed_at(front, rows.last(), order, front.len() as int);
        assert(front.insert(front.len() as int, rows.last()) =~= rows);
    }
}

} // verus!
