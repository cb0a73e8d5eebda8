//! The posts table: the rows in the order of their insertion, and the last
//! identifier that the table has handed out. Every operation is one statement
//! over the table.

use crate::error::RepoError;
use crate::models::{projected, rows_of, NewPost, NewPostHandler, NewRow, Post, PostRow, SimplifiedPost, SimplifiedRow};
use crate::order::OrderBy;
use crate::query::{answer, arranged, capped, keeps, run, selected, FilterSpec, PostQuery, SlugFilter};
use crate::slug::slug_of;
use vstd::prelude::*;

verus! {

/// The mathematical value of a table.
pub struct TableState {
    /// The stored rows, oldest first.
    pub rows: Seq<PostRow>,
    /// The greatest identifier handed out so far; 0 before the first.
    pub last_id: int,
}

/// The invariant of a table: identifiers start at 1, none exceeds the last
/// one handed out, and they grow strictly along the rows, so no two rows
/// share one.
pub open spec fn well_formed(state: TableState) -> bool {
    &&& 0 <= state.last_id <= i32::MAX
    &&& forall|i: int| 0 <= i < state.rows.len() ==> 1 <= (#[trigger] state.rows[i]).id <= state.last_id
    &&& forall|i: int, j: int|
        0 <= i < j < state.rows.len() ==> (#[trigger] state.rows[i]).id < (#[trigger] state.rows[j]).id
}

/// Whether the table has an identifier left to hand out.
pub open spec fn can_insert(state: TableState) -> bool {
    state.last_id < i32::MAX
}

/// The row that an insertion stores: the next identifier and the given
/// columns.
pub open spec fn inserted_row(state: TableState, new: NewRow) -> PostRow {
    PostRow { id: state.last_id + 1, title: new.title, slug: new.slug, body: new.body }
}

/// The table after an insertion.
pub open spec fn after_insert(state: TableState, new: NewRow) -> TableState {
    TableState { rows: state.rows.push(inserted_row(state, new)), last_id: state.last_id + 1 }
}

/// The row to insert for a create request: the slug is derived from the
/// title.
pub open spec fn new_row_for(title: Seq<char>, body: Seq<char>) -> NewRow {
    NewRow { title, body, slug: slug_of(title) }
}

/// Some row of `rows` has the identifier `id`.
pub open spec fn has_id(rows: Seq<PostRow>, id: int) -> bool {
    exists|i: int| 0 <= i < rows.len() && (#[trigger] rows[i]).id == id
}

/// The mathematical value of a set of changes.
pub struct ChangeSpec {
    pub title: Option<Seq<char>>,
    pub slug: Option<Seq<char>>,
    pub body: Option<Seq<char>>,
}

/// The columns that an update sets; a column left `None` keeps its value.
/// The identifier cannot be changed.
#[derive(Debug, PartialEq, Eq)]
pub struct PostChanges {
    pub title: Option<String>,
    pub slug: Option<String>,
    pub body: Option<String>,
}

impl View for PostChanges {
    type V = ChangeSpec;

    open spec fn view(&self) -> ChangeSpec {
        ChangeSpec {
            title: match self.title {
                Some(t) => Some(t@),
                None => None,
            },
            slug: match self.slug {
                Some(s) => Some(s@),
                None => None,
            },
            body: match self.body {
                Some(b) => Some(b@),
                None => None,
            },
        }
    }
}

/// One column after an update.
pub open spec fn column_after(current: Seq<char>, change: Option<Seq<char>>) -> Seq<char> {
    match change {
        Some(text) => text,
        None => current,
    }
}

/// A row after an update: each supplied column is replaced, the others and
/// the identifier stay.
pub open spec fn changed(row: PostRow, changes: ChangeSpec) -> PostRow {
    PostRow {
        id: row.id,
        title: column_after(row.title, changes.title),
        slug: column_after(row.slug, changes.slug),
        body: column_after(row.body, changes.body),
    }
}

/// The rows that a deletion by `filter` leaves, in their order.
pub open spec fn remaining(rows: Seq<PostRow>, filter: FilterSpec) -> Seq<PostRow> {
    rows.filter(|row: PostRow| !keeps(filter, row))
}

/// The projections of a sequence of rows.
pub open spec fn projections(rows: Seq<PostRow>) -> Seq<SimplifiedRow> {
    rows.map_values(|row: PostRow| projected(row))
}

/// The views of a sequence of projected posts.
pub open spec fn simplified_rows_of(posts: Seq<SimplifiedPost>) -> Seq<SimplifiedRow> {
    posts.map_values(|p: SimplifiedPost| p@)
}

/// The posts table.
pub struct PostTable {
    rows: Vec<Post>,
    last_id: i32,
}

impl View for PostTable {
    type V = TableState;

    closed spec fn view(&self) -> TableState {
        TableState { rows: rows_of(self.rows@), last_id: self.last_id as int }
    }
}

fn copy_column(current: &String, change: &Option<String>) -> (out: String)
    ensures
        out@ == column_after(
            current@,
            match change {
                Some(t) => Some(t@),
                None => None,
            },
        ),
{
    match change {
        Some(text) => text.clone(),
        None => current.clone(),
    }
}

impl PostTable {
    /// The table's invariant holds.
    pub open spec fn wf(&self) -> bool {
        well_formed(self@)
    }

    /// An empty table that has handed out no identifier.
    pub fn new() -> (table: PostTable)
        ensures
            table.wf(),
            table@.rows == Seq::<PostRow>::empty(),
            table@.last_id == 0,
    {
        let table = PostTable { rows: Vec::new(), last_id: 0 };
        proof {
            assert(rows_of(table.rows@) =~= Seq::<PostRow>::empty());
        }
        table
    }

    /// An empty table that has already handed out the identifiers up to
    /// `last_id`, as a table is after its rows were deleted. There is none
    /// for a negative `last_id`.
    pub fn resume(last_id: i32) -> (out: Option<PostTable>)
        ensures
            out is Some <==> last_id >= 0,
            out matches Some(table) ==> table.wf() && table@.rows == Seq::<PostRow>::empty()
                && table@.last_id == last_id,
    {
        if last_id < 0 {
            return None;
        }
        let table = PostTable { rows: Vec::new(), last_id };
        proof {
            assert(rows_of(table.rows@) =~= Seq::<PostRow>::empty());
        }
        Some(table)
    }

    /// The number of stored rows.
    pub fn len(&self) -> (n: usize)
        ensures
            n == self@.rows.len(),
    {
        self.rows.len()
    }

    /// The greatest identifier handed out so far.
    pub fn last_id(&self) -> (id: i32)
        ensures
            id == self@.last_id,
    {
        self.last_id
    }

    /// Stores `row` under the next identifier and returns the stored post.
    /// Fails with `Db`, and changes nothing, once the identifiers are used
    /// up.
    pub fn insert(&mut self, row: &NewPost) -> (out: Result<Post, RepoError>)
        requires
            old(self).wf(),
        ensures
            final(self).wf(),
            can_insert(old(self)@) ==> (out matches Ok(post) && post@ == inserted_row(
                old(self)@,
                row@,
            )) && final(self)@ == after_insert(old(self)@, row@),
            !can_insert(old(self)@) ==> out == Err::<Post, RepoError>(RepoError::Db) && final(self)@ == old(self)@,
    {
        if self.last_id == i32::MAX {
            return Err(RepoError::Db);
        }
        let id: i32 = self.last_id + 1;
        let post = Post {
            id,
            title: row.title.to_owned(),
            slug: row.slug.to_owned(),
            body: row.body.to_owned(),
        };
        let copy = post.clone();
        self.rows.push(post);
        self.last_id = id;
        proof {
            assert(rows_of(self.rows@) =~= rows_of(old(self).rows@).push(copy@));
            lemma_insert_is_fresh(old(self)@, row@);
        }
        Ok(copy)
    }

    /// Runs `query` over the table.
    pub fn query(&self, query: &PostQuery) -> (out: Vec<Post>)
        ensures
            rows_of(out@) == answer(self@.rows, query@),
    {
        run(&self.rows, query)
    }

    /// Every row, sorted by `order` where one is given, cut to `limit` where
    /// one is given.
    pub fn list_all(&self, order: Option<OrderBy>, limit: Option<u64>) -> (out: Vec<Post>)
        ensures
            rows_of(out@) == capped(arranged(self@.rows, order), limit),
    {
        let query = PostQuery { filter: SlugFilter::Any, order, limit };
        proof {
            lemma_selected_any(self@.rows);
        }
        run(&self.rows, &query)
    }

    /// Every row, reduced to its title and body.
    pub fn list_projected(&self) -> (out: Vec<SimplifiedPost>)
        ensures
            simplified_rows_of(out@) == projections(self@.rows),
    {
        let mut out: Vec<SimplifiedPost> = Vec::new();
        let mut i: usize = 0;
        while i < self.rows.len()
            invariant
                i <= self.rows.len(),
                out.len() == i,
                forall|j: int| 0 <= j < i ==> out@[j]@ == projected(self.rows@[j]@),
            decreases self.rows.len() - i,
        {
            out.push(self.rows[i].simplified());
            i += 1;
        }
        proof {
            assert(simplified_rows_of(out@) =~= projections(self@.rows));
        }
        out
    }

    /// The rows whose slug is exactly `slug`; none is not a failure.
    pub fn find_by_slug(&self, slug: &str) -> (out: Vec<Post>)
        ensures
            rows_of(out@) == selected(self@.rows, FilterSpec::Equals(slug@)),
    {
        let query = PostQuery { filter: SlugFilter::Equals(slug.to_owned()), order: None, limit: None };
        run(&self.rows, &query)
    }

    /// The rows whose slug matches the wildcard pattern `pattern`.
    pub fn find_by_partial_slug(&self, pattern: &str) -> (out: Vec<Post>)
        ensures
            rows_of(out@) == selected(self@.rows, FilterSpec::Like(pattern@)),
    {
        let query = PostQuery { filter: SlugFilter::Like(pattern.to_owned()), order: None, limit: None };
        run(&self.rows, &query)
    }

    /// Sets the supplied columns of the row with identifier `id` and returns
    /// the row as it then stands. Fails with `NotFound`, and changes
    /// nothing, where no row has that identifier.
    pub fn update(&mut self, id: i32, changes: &PostChanges) -> (out: Result<Post, RepoError>)
        requires
            old(self).wf(),
        ensures
            final(self).wf(),
            final(self)@.last_id == old(self)@.last_id,
            has_id(old(self)@.rows, id as int) ==> (out matches Ok(post) && exists|i: int|
                0 <= i < old(self)@.rows.len() && (#[trigger] old(self)@.rows[i]).id == id
                    && post@ == changed(old(self)@.rows[i], changes@) && final(self)@.rows
                    == old(self)@.rows.update(i, post@)),
            !has_id(old(self)@.rows, id as int) ==> out == Err::<Post, RepoError>(
                RepoError::NotFound,
            ) && final(self)@ == old(self)@,
    {
        let mut i: usize = 0;
        while i < self.rows.len()
            invariant
                i <= self.rows.len(),
                self.rows@ == old(self).rows@,
                self.last_id == old(self).last_id,
                well_formed(old(self)@),
                forall|j: int| 0 <= j < i ==> (#[trigger] self@.rows[j]).id != id,
            decreases self.rows.len() - i,
        {
            if self.rows[i].id == id {
                let current = &self.rows[i];
                let post = Post {
                    id: current.id,
                    title: copy_column(&current.title, &changes.title),
                    slug: copy_column(&current.slug, &changes.slug),
                    body: copy_column(&current.body, &changes.body),
                };
                let copy = post.clone();
                self.rows.set(i, post);
                proof {
                    let before = old(self)@.rows;
                    assert(before[i as int].id == id);
                    assert(copy@ == changed(before[i as int], changes@));
                    assert(self@.rows =~= before.update(i as int, copy@));
                    lemma_update_keeps_invariant(old(self)@, i as int, copy@);
                }
                return Ok(copy);
            }
            i += 1;
        }
        Err(RepoError::NotFound)
    }

    /// Deletes every row that `filter` keeps and returns how many there
    /// were; none is not a failure.
    pub fn delete_matching(&mut self, filter: &SlugFilter) -> (count: usize)
        requires
            old(self).wf(),
        ensures
            final(self).wf(),
            final(self)@.last_id == old(self)@.last_id,
            final(self)@.rows == remaining(old(self)@.rows, filter@),
            count == selected(old(self)@.rows, filter@).len(),
    {
        let mut left: Vec<Post> = Vec::new();
        let mut count: usize = 0;
        let mut i: usize = 0;
        let ghost before = rows_of(self.rows@);
        proof {
            assert(before.take(0) =~= Seq::<PostRow>::empty());
            assert(rows_of(left@) =~= Seq::<PostRow>::empty());
            reveal(Seq::filter);
        }
        while i < self.rows.len()
            invariant
                i <= self.rows.len(),
                before == rows_of(self.rows@),
                well_formed(self@),
                rows_of(left@) == remaining(before.take(i as int), filter@),
                count == selected(before.take(i as int), filter@).len(),
                count <= i,
                forall|j: int| 0 <= j < left.len() ==> 1 <= (#[trigger] left@[j]@).id <= self.last_id,
                forall|j: int, k: int|
                    0 <= j < k < left.len() ==> (#[trigger] left@[j]@).id < (#[trigger] left@[k]@).id,
                forall|j: int, k: int|
                    0 <= j < left.len() && i <= k < before.len() ==> (#[trigger] left@[j]@).id < (
                    #[trigger] before[k]).id,
            decreases self.rows.len() - i,
        {
            let ghost seen = before.take(i as int);
            let ghost kept_before = left@;
            let matched = filter.keeps(&self.rows[i]);
            proof {
                assert(before.take(i + 1) =~= seen.push(before[i as int]));
                seen.lemma_filter_push(before[i as int], |row: PostRow| keeps(filter@, row));
                seen.lemma_filter_push(before[i as int], |row: PostRow| !keeps(filter@, row));
                assert(before[i as int] == self.rows@[i as int]@);
            }
            if matched {
                count += 1;
            } else {
                left.push(self.rows[i].clone());
                proof {
                    assert(left@ =~= kept_before.push(left@.last()));
                    assert(rows_of(left@) =~= rows_of(kept_before).push(before[i as int]));
                    assert(self@.rows[i as int] == before[i as int]);
                }
            }
            i += 1;
        }
        proof {
            assert(before.take(before.len() as int) =~= before);
        }
        self.rows = left;
        count
    }
}

/// An insertion hands out an identifier greater than every one handed out
/// before, so greater than that of every stored row, and keeps the table's
/// invariant.
pub proof fn lemma_insert_is_fresh(state: TableState, new: NewRow)
    requires
        well_formed(state),
        can_insert(state),
    ensures
        well_formed(after_insert(state, new)),
        inserted_row(state, new).id > state.last_id,
        forall|i: int| 0 <= i < state.rows.len() ==> (#[trigger] state.rows[i]).id < inserted_row(state, new).id,
        !has_id(state.rows, inserted_row(state, new).id),
{
    let after = after_insert(state, new);
    assert forall|i: int| 0 <= i < after.rows.len() implies 1 <= (#[trigger] after.rows[i]).id
        <= after.last_id by {
        if i < state.rows.len() {
            assert(after.rows[i] == state.rows[i]);
        }
    }
    assert forall|i: int, j: int| 0 <= i < j < after.rows.len() implies (#[trigger] after.rows[i]).id
        < (#[trigger] after.rows[j]).id by {
        assert(after.rows[i] == state.rows[i]);
        if j < state.rows.len() {
            assert(after.rows[j] == state.rows[j]);
        }
    }
}

/// Replacing a row by one with the same identifier keeps the table's
/// invariant.
pub proof fn lemma_update_keeps_invariant(state: TableState, i: int, row: PostRow)
    requires
        well_formed(state),
        0 <= i < state.rows.len(),
        row.id == state.rows[i].id,
    ensures
        well_formed(TableState { rows: state.rows.update(i, row), last_id: state.last_id }),
{
    let after = TableState { rows: state.rows.update(i, row), last_id: state.last_id };
    assert forall|k: int| 0 <= k < after.rows.len() implies 1 <= (#[trigger] after.rows[k]).id
        <= after.last_id by {
        assert(after.rows[k].id == state.rows[k].id);
    }
    assert forall|k: int, j: int| 0 <= k < j < after.rows.len() implies (#[trigger] after.rows[k]).id
        < (#[trigger] after.rows[j]).id by {
        assert(after.rows[k].id == state.rows[k].id);
        assert(after.rows[j].id == state.rows[j].id);
    }
}

/// The filter `Any` keeps every row.
pub proof fn lemma_selected_any(rows: Seq<PostRow>)
    ensures
        selected(rows, FilterSpec::Any) == rows,
    decreases rows.len(),
{
    reveal(Seq::filter);
    if rows.len() > 0 {
        lemma_selected_any(rows.drop_last());
        assert(rows.drop_last().push(rows.last()) =~= rows);
    }
}

impl Post {
    /// Creates a post from a request: derives the slug from the title and
    /// inserts the row. Fails with `Db`, and changes nothing, once the
    /// table's identifiers are used up.
    pub fn create_post(table: &mut PostTable, post: &NewPostHandler) -> (out: Result<
        Post,
        RepoError,
    >)
        requires
            old(table).wf(),
        ensures
            final(table).wf(),
            can_insert(old(table)@) ==> (out matches Ok(stored) && stored@ == inserted_row(
                old(table)@,
                new_row_for(post.title@, post.body@),
            )) && final(table)@ == after_insert(
                old(table)@,
                new_row_for(post.title@, post.body@),
            ),
            !can_insert(old(table)@) ==> out == Err::<Post, RepoError>(RepoError::Db) && final(table)@ == old(table)@,
    {
        let slug = Post::slugify(post.title.as_str());
        let new_post = NewPost {
            title: post.title.as_str(),
            body: post.body.as_str(),
            slug: slug.as_str(),
        };
        table.insert(&new_post)
    }
}

} // verus!
