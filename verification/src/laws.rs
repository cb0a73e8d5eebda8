//! Laws of the table's operations, stated over the mathematical values that
//! the operations' contracts use.

use crate::models::{NewRow, PostRow};
use crate::order::{
    lemma_filter_nothing, lemma_ordered_fixed_point, lemma_placed_at, ordered, Direction, OrderBy,
    SortField,
};
use crate::pattern::{is_literal, lemma_like_infix, occurs_in};
use crate::query::{arranged, capped, keeps, selected, FilterSpec};
use crate::table::{
    after_insert, changed, lemma_insert_is_fresh, remaining, well_formed, ChangeSpec, TableState,
};
use vstd::prelude::*;

verus! {

/// Ascending by identifier.
pub open spec fn oldest_first() -> OrderBy {
    OrderBy { field: SortField::Id, direction: Direction::Ascending }
}

/// Descending by identifier.
pub open spec fn newest_first() -> OrderBy {
    OrderBy { field: SortField::Id, direction: Direction::Descending }
}

/// A table stores its rows oldest first: sorted ascending by identifier they
/// come as stored, sorted descending they come in reverse.
pub proof fn lemma_ordered_by_id(state: TableState)
    requires
        well_formed(state),
    ensures
        ordered(state.rows, oldest_first()) == state.rows,
        ordered(state.rows, newest_first()) == state.rows.reverse(),
    decreases state.rows.len(),
{
    let rows = state.rows;
    lemma_ordered_fixed_point(rows, oldest_first());
    if rows.len() > 0 {
        let front = TableState { rows: rows.drop_last(), last_id: state.last_id };
        assert forall|i: int| 0 <= i < front.rows.len() implies 1 <= (#[trigger] front.rows[i]).id
            <= front.last_id by {
            assert(front.rows[i] == rows[i]);
        }
        assert forall|i: int, j: int| 0 <= i < j < front.rows.len() implies (
        #[trigger] front.rows[i]).id < (#[trigger] front.rows[j]).id by {
            assert(front.rows[i] == rows[i]);
            assert(front.rows[j] == rows[j]);
        }
        lemma_ordered_by_id(front);
        let turned = front.rows.reverse();
        assert forall|t: int| 0 <= t < turned.len() implies (#[trigger] turned[t]).id
            < rows.last().id by {
            assert(turned[t] == rows[front.rows.len() - 1 - t]);
        }
        lemma_placed_at(turned, rows.last(), newest_first(), 0);
        assert(turned.insert(0, rows.last()) =~= rows.reverse());
    } else {
        assert(rows.reverse() =~= rows);
    }
}

/// Listing a table that holds a row, newest first and cut to one row, gives
/// exactly the row that was created last, which has the greatest identifier.
pub proof fn lemma_newest_first_limit_one(state: TableState)
    requires
        well_formed(state),
        state.rows.len() > 0,
    ensures
        capped(arranged(state.rows, Some(newest_first())), Some(1u64)) == seq![state.rows.last()],
        forall|i: int| 0 <= i < state.rows.len() ==> (#[trigger] state.rows[i]).id <= state.rows.last().id,
{
    lemma_ordered_by_id(state);
    let turned = state.rows.reverse();
    assert(turned[0] == state.rows.last());
    assert(turned.take(1) =~= seq![state.rows.last()]);
    if turned.len() == 1 {
        assert(turned =~= seq![state.rows.last()]);
    }
}

/// A filter that keeps no row of `rows` selects nothing.
pub proof fn lemma_selected_nothing(rows: Seq<PostRow>, filter: FilterSpec)
    requires
        forall|i: int| 0 <= i < rows.len() ==> !keeps(filter, #[trigger] rows[i]),
    ensures
        selected(rows, filter) == Seq::<PostRow>::empty(),
{
    lemma_filter_nothing(rows, |row: PostRow| keeps(filter, row));
}

/// Looking up a slug that no row has gives no row.
pub proof fn lemma_unknown_slug_finds_nothing(rows: Seq<PostRow>, slug: Seq<char>)
    requires
        forall|i: int| 0 <= i < rows.len() ==> (#[trigger] rows[i]).slug != slug,
    ensures
        selected(rows, FilterSpec::Equals(slug)) == Seq::<PostRow>::empty(),
{
    lemma_selected_nothing(rows, FilterSpec::Equals(slug));
}

/// The changes that set the title and nothing else.
pub open spec fn title_only(title: Seq<char>) -> ChangeSpec {
    ChangeSpec { title: Some(title), slug: None, body: None }
}

/// Updating only the title of the row at `i` sets that row's title and leaves
/// its identifier, slug and body, and every other row, as they were.
pub proof fn lemma_title_update_changes_title_only(rows: Seq<PostRow>, i: int, title: Seq<char>)
    requires
        0 <= i < rows.len(),
    ensures
        ({
            let after = rows.update(i, changed(rows[i], title_only(title)));
            &&& after.len() == rows.len()
            &&& after[i].title == title
            &&& after[i].id == rows[i].id
            &&& after[i].slug == rows[i].slug
            &&& after[i].body == rows[i].body
            &&& forall|j: int| 0 <= j < rows.len() && j != i ==> after[j] == rows[j]
        }),
{
}

/// A deletion splits the rows in two: those that the filter keeps, which it
/// counts, and those that stay. None of those that stay is kept by the
/// filter, so the same deletion again finds nothing to delete and leaves the
/// rows as they are.
pub proof fn lemma_delete_twice(rows: Seq<PostRow>, filter: FilterSpec)
    ensures
        selected(rows, filter).len() + remaining(rows, filter).len() == rows.len(),
        forall|i: int|
            0 <= i < remaining(rows, filter).len() ==> !keeps(
                filter,
                #[trigger] remaining(rows, filter)[i],
            ),
        selected(remaining(rows, filter), filter).len() == 0,
        remaining(remaining(rows, filter), filter) == remaining(rows, filter),
    decreases rows.len(),
{
    reveal(Seq::filter);
    let stay = |row: PostRow| !keeps(filter, row);
    let left = remaining(rows, filter);
    if rows.len() > 0 {
        let front = rows.drop_last();
        lemma_delete_twice(front, filter);
        let left_front = remaining(front, filter);
        if keeps(filter, rows.last()) {
            assert(left == left_front);
        } else {
            assert(left == left_front.push(rows.last()));
            assert forall|i: int| 0 <= i < left.len() implies !keeps(filter, #[trigger] left[i]) by {
                if i < left_front.len() {
                    assert(left[i] == left_front[i]);
                }
            }
            left_front.lemma_filter_push(rows.last(), stay);
        }
    }
    lemma_selected_nothing(left, filter);
}

/// A deletion leaves exactly the rows that the filter does not keep: a row
/// stays if and only if it was there and the filter does not keep it.
pub proof fn lemma_delete_leaves_the_rest(rows: Seq<PostRow>, filter: FilterSpec, row: PostRow)
    ensures
        remaining(rows, filter).contains(row) <==> rows.contains(row) && !keeps(filter, row),
    decreases rows.len(),
{
    reveal(Seq::filter);
    let left = remaining(rows, filter);
    if rows.len() > 0 {
        let front = rows.drop_last();
        lemma_delete_leaves_the_rest(front, filter, row);
        let left_front = remaining(front, filter);
        if rows.contains(row) {
            let i = choose|i: int| 0 <= i < rows.len() && rows[i] == row;
            if i < front.len() {
                assert(front[i] == row);
            }
        }
        if front.contains(row) {
            let i = choose|i: int| 0 <= i < front.len() && front[i] == row;
            assert(rows[i] == row);
        }
        if left_front.contains(row) {
            let i = choose|i: int| 0 <= i < left_front.len() && left_front[i] == row;
            if !keeps(filter, rows.last()) {
                assert(left[i] == row);
            }
        }
        if left.contains(row) {
            let i = choose|i: int| 0 <= i < left.len() && left[i] == row;
            if !keeps(filter, rows.last()) {
                if i < left_front.len() {
                    assert(left_front[i] == row);
                } else {
                    assert(rows[rows.len() - 1] == row);
                }
            }
        }
        if !keeps(filter, rows.last()) && row == rows.last() {
            assert(left[left.len() - 1] == row);
            assert(rows[rows.len() - 1] == row);
        }
    }
}

/// Deleting by the pattern `%lit%`, for a text `lit` without wildcards,
/// removes a row if and only if `lit` occurs in its slug.
pub proof fn lemma_delete_by_infix(rows: Seq<PostRow>, lit: Seq<char>, row: PostRow)
    requires
        is_literal(lit),
    ensures
        remaining(rows, FilterSpec::Like(seq!['%'] + lit + seq!['%'])).contains(row)
            <==> rows.contains(row) && !occurs_in(lit, row.slug),
{
    lemma_delete_leaves_the_rest(rows, FilterSpec::Like(seq!['%'] + lit + seq!['%']), row);
    lemma_like_infix(row.slug, lit);
}

/// The table after a run of insertions, one row after the other.
pub open spec fn after_inserts(state: TableState, news: Seq<NewRow>) -> TableState
    decreases news.len(),
{
    if news.len() == 0 {
        state
    } else {
        after_insert(after_inserts(state, news.drop_last()), news.last())
    }
}

/// A run of insertions for which the table has identifiers left stores one
/// row for each, in turn, under consecutive identifiers that follow the last
/// one handed out: so each insertion receives an identifier of its own,
/// whatever the order in which the insertions arrive.
pub proof fn lemma_inserts_get_distinct_ids(state: TableState, news: Seq<NewRow>)
    requires
        well_formed(state),
        state.last_id + news.len() <= i32::MAX,
    ensures
        ({
            let after = after_inserts(state, news);
            &&& well_formed(after)
            &&& after.last_id == state.last_id + news.len()
            &&& after.rows.len() == state.rows.len() + news.len()
            &&& forall|k: int|
                0 <= k < state.rows.len() ==> #[trigger] after.rows[k] == state.rows[k]
            &&& forall|k: int|
                0 <= k < news.len() ==> (#[trigger] after.rows[state.rows.len() + k]) == (PostRow {
                    id: state.last_id + 1 + k,
                    title: news[k].title,
                    slug: news[k].slug,
                    body: news[k].body,
                })
            &&& forall|j: int, k: int|
                0 <= j < k < news.len() ==> (#[trigger] after.rows[state.rows.len() + j]).id != (
                #[trigger] after.rows[state.rows.len() + k]).id
        }),
    decreases news.len(),
{
    if news.len() > 0 {
        let front = news.drop_last();
        lemma_inserts_get_distinct_ids(state, front);
        let mid = after_inserts(state, front);
        lemma_insert_is_fresh(mid, news.last());
        let after = after_inserts(state, news);
        assert forall|k: int| 0 <= k < news.len() implies (#[trigger] after.rows[state.rows.len()
            + k]) == (PostRow {
            id: state.last_id + 1 + k,
            title: news[k].title,
            slug: news[k].slug,
            body: news[k].body,
        }) by {
            if k < front.len() {
                assert(after.rows[state.rows.len() + k] == mid.rows[state.rows.len() + k]);
                assert(front[k] == news[k]);
            }
        }
        assert forall|k: int| 0 <= k < state.rows.len() implies #[trigger] after.rows[k]
            == state.rows[k] by {
            assert(after.rows[k] == mid.rows[k]);
        }
    }
}

} // verus!
