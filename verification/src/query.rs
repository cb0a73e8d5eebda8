//! Queries over posts: which rows are kept, in what order they come, and how
//! many of them are returned. A query is a plain value; its meaning is given
//! over sequences of rows, and the functions here compute it.

use crate::models::{rows_of, Post, PostRow};
use crate::order::{arrange, ordered, OrderBy};
use crate::pattern::{like_matches, matches_like};
use vstd::prelude::*;

verus! {

/// The mathematical value of a filter.
pub enum FilterSpec {
    Any,
    Equals(Seq<char>),
    Like(Seq<char>),
}

/// The condition on a post's slug that a query keeps rows by.
#[derive(Debug, PartialEq, Eq)]
pub enum SlugFilter {
    /// Every row.
    Any,
    /// Rows whose slug is exactly this text.
    Equals(String),
    /// Rows whose slug matches this wildcard pattern.
    Like(String),
}

impl View for SlugFilter {
    type V = FilterSpec;

    open spec fn view(&self) -> FilterSpec {
        match self {
            SlugFilter::Any => FilterSpec::Any,
            SlugFilter::Equals(s) => FilterSpec::Equals(s@),
            SlugFilter::Like(p) => FilterSpec::Like(p@),
        }
    }
}

/// Whether `filter` keeps `row`.
pub open spec fn keeps(filter: FilterSpec, row: PostRow) -> bool {
    match filter {
        FilterSpec::Any => true,
        FilterSpec::Equals(s) => row.slug == s,
        FilterSpec::Like(p) => like_matches(row.slug, p),
    }
}

/// The rows of `rows` that `filter` keeps, in their order.
pub open spec fn selected(rows: Seq<PostRow>, filter: FilterSpec) -> Seq<PostRow> {
    rows.filter(|row: PostRow| keeps(filter, row))
}

impl SlugFilter {
    /// Decides whether the filter keeps `post`.
    pub fn keeps(&self, post: &Post) -> (out: bool)
        ensures
            out == keeps(self@, post@),
    {
        match self {
            SlugFilter::Any => true,
            SlugFilter::Equals(s) => post.slug == *s,
            SlugFilter::Like(p) => matches_like(post.slug.as_str(), p.as_str()),
        }
    }
}

/// Taking the views of a sequence with one more post.
pub proof fn lemma_rows_of_push(posts: Seq<Post>, post: Post)
    ensures
        rows_of(posts.push(post)) == rows_of(posts).push(post@),
{
    assert(rows_of(posts.push(post)) =~= rows_of(posts).push(post@));
}

/// Copies the posts that `filter` keeps, in their order.
pub fn select(posts: &Vec<Post>, filter: &SlugFilter) -> (out: Vec<Post>)
    ensures
        rows_of(out@) == selected(rows_of(posts@), filter@),
{
    let mut out: Vec<Post> = Vec::new();
    let mut i: usize = 0;
    proof {
        assert(rows_of(posts@.take(0)) =~= Seq::<PostRow>::empty());
        assert(rows_of(out@) =~= Seq::<PostRow>::empty());
        reveal(Seq::filter);
    }
    while i < posts.len()
        invariant
            i <= posts.len(),
            rows_of(out@) == selected(rows_of(posts@.take(i as int)), filter@),
        decreases posts.len() - i,
    {
        let ghost before = out@;
        let ghost seen = rows_of(posts@.take(i as int));
        let kept = filter.keeps(&posts[i]);
        proof {
            assert(posts@.take(i + 1) =~= posts@.take(i as int).push(posts@[i as int]));
            lemma_rows_of_push(posts@.take(i as int), posts@[i as int]);
            seen.lemma_filter_push(posts@[i as int]@, |row: PostRow| keeps(filter@, row));
        }
        if kept {
            out.push(posts[i].clone());
            proof {
                lemma_rows_of_push(before, out@.last());
                assert(out@ =~= before.push(out@.last()));
            }
        }
        i += 1;
    }
    proof {
        assert(posts@.take(posts@.len() as int) =~= posts@);
    }
    out
}

/// At most `limit` rows from the front of `rows`; all of them without a limit.
pub open spec fn capped(rows: Seq<PostRow>, limit: Option<u64>) -> Seq<PostRow> {
    match limit {
        Some(n) if n < rows.len() => rows.take(n as int),
        _ => rows,
    }
}

/// Cuts `posts` down to its first `limit` posts where it has more.
pub fn cap(posts: Vec<Post>, limit: Option<u64>) -> (out: Vec<Post>)
    ensures
        rows_of(out@) == capped(rows_of(posts@), limit),
{
    let mut out = posts;
    match limit {
        Some(n) => {
            if n < out.len() as u64 {
                out.truncate(n as usize);
                proof {
                    assert(rows_of(out@) =~= rows_of(posts@).take(n as int));
                }
            }
        },
        None => {},
    }
    out
}

/// The mathematical value of a query.
pub struct QuerySpec {
    pub filter: FilterSpec,
    pub order: Option<OrderBy>,
    pub limit: Option<u64>,
}

/// A query over posts: a filter, an optional order clause and an optional
/// limit.
#[derive(Debug, PartialEq, Eq)]
pub struct PostQuery {
    pub filter: SlugFilter,
    pub order: Option<OrderBy>,
    pub limit: Option<u64>,
}

impl View for PostQuery {
    type V = QuerySpec;

    open spec fn view(&self) -> QuerySpec {
        QuerySpec { filter: self.filter@, order: self.order, limit: self.limit }
    }
}

/// `rows` in the order that `order` asks for; as they are without one.
pub open spec fn arranged(rows: Seq<PostRow>, order: Option<OrderBy>) -> Seq<PostRow> {
    match order {
        Some(o) => ordered(rows, o),
        None => rows,
    }
}

/// What a query returns over `rows`: the rows are filtered, then sorted, then
/// cut to the limit.
pub open spec fn answer(rows: Seq<PostRow>, query: QuerySpec) -> Seq<PostRow> {
    capped(arranged(selected(rows, query.filter), query.order), query.limit)
}

/// Runs `query` over `posts`.
pub fn run(posts: &Vec<Post>, query: &PostQuery) -> (out: Vec<Post>)
    ensures
        rows_of(out@) == answer(rows_of(posts@), query@),
{
    let kept = select(posts, &query.filter);
    let sorted = match query.order {
        Some(order) => arrange(&kept, order),
        None => kept,
    };
    cap(sorted, query.limit)
}

} // verus!
