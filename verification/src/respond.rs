//! What each request is answered with, decided from what the repository
//! returned. Rendering and sending are left to the caller.

use crate::error::{status_of, RepoError};
use crate::models::{rows_of, Post, PostRow};
use vstd::prelude::*;

verus! {

/// The mathematical value of an answer.
pub enum OutcomeSpec {
    IndexPage(Seq<PostRow>),
    PostPage(PostRow),
    Created(PostRow),
    NotFound,
    Failure(RepoError),
}

/// The answer to a request.
#[derive(Debug, PartialEq, Eq)]
pub enum Outcome {
    /// The index page over these posts.
    IndexPage(Vec<Post>),
    /// The page of this post.
    PostPage(Post),
    /// The post that was created, as JSON.
    Created(Post),
    /// No post has the slug that was asked for. The answer has no body.
    NotFound,
    /// The repository failed. The body reports the failure as JSON.
    Failure(RepoError),
}

impl View for Outcome {
    type V = OutcomeSpec;

    open spec fn view(&self) -> OutcomeSpec {
        match self {
            Outcome::IndexPage(posts) => OutcomeSpec::IndexPage(rows_of(posts@)),
            Outcome::PostPage(post) => OutcomeSpec::PostPage(post@),
            Outcome::Created(post) => OutcomeSpec::Created(post@),
            Outcome::NotFound => OutcomeSpec::NotFound,
            Outcome::Failure(e) => OutcomeSpec::Failure(*e),
        }
    }
}

/// The HTTP status of an answer: 200 for a page or a created post, 404 where
/// no post was found, the failure's own status otherwise.
pub open spec fn outcome_status(outcome: OutcomeSpec) -> u16 {
    match outcome {
        OutcomeSpec::IndexPage(_) => 200,
        OutcomeSpec::PostPage(_) => 200,
        OutcomeSpec::Created(_) => 200,
        OutcomeSpec::NotFound => 404,
        OutcomeSpec::Failure(e) => status_of(e),
    }
}

/// The template that renders an answer, for the answers that are pages.
pub open spec fn outcome_template(outcome: OutcomeSpec) -> Option<Seq<char>> {
    match outcome {
        OutcomeSpec::IndexPage(_) => Some("index.html"@),
        OutcomeSpec::PostPage(_) => Some("post.html"@),
        _ => None,
    }
}

/// The name under which a page's template finds its data: `posts` for the
/// posts of the index page, `post` for the post of a post page.
pub open spec fn outcome_context_key(outcome: OutcomeSpec) -> Option<Seq<char>> {
    match outcome {
        OutcomeSpec::IndexPage(_) => Some("posts"@),
        OutcomeSpec::PostPage(_) => Some("post"@),
        _ => None,
    }
}

/// The content type of an answer's body: HTML for a page, JSON for a created
/// post or a failure, none where there is no body.
pub open spec fn outcome_content_type(outcome: OutcomeSpec) -> Option<Seq<char>> {
    match outcome {
        OutcomeSpec::IndexPage(_) => Some("text/html"@),
        OutcomeSpec::PostPage(_) => Some("text/html"@),
        OutcomeSpec::Created(_) => Some("application/json"@),
        OutcomeSpec::NotFound => None,
        OutcomeSpec::Failure(_) => Some("application/json"@),
    }
}

/// The view of an optional text.
pub open spec fn text_view(text: Option<&'static str>) -> Option<Seq<char>> {
    match text {
        Some(t) => Some(t@),
        None => None,
    }
}

/// The answer to a request for the index page, given the rows that listing
/// the table returned.
pub open spec fn index_outcome(listed: Result<Seq<PostRow>, RepoError>) -> OutcomeSpec {
    match listed {
        Ok(rows) => OutcomeSpec::IndexPage(rows),
        Err(e) => OutcomeSpec::Failure(e),
    }
}

/// The answer to a request for one post, given the rows that the lookup by
/// slug returned: the first of them, or `NotFound` where there is none.
pub open spec fn post_view_outcome(found: Result<Seq<PostRow>, RepoError>) -> OutcomeSpec {
    match found {
        Ok(rows) => if rows.len() == 0 {
            OutcomeSpec::NotFound
        } else {
            OutcomeSpec::PostPage(rows[0])
        },
        Err(e) => OutcomeSpec::Failure(e),
    }
}

/// The answer to a request that creates a post, given what the creation
/// returned.
pub open spec fn new_post_outcome(created: Result<PostRow, RepoError>) -> OutcomeSpec {
    match created {
        Ok(row) => OutcomeSpec::Created(row),
        Err(e) => OutcomeSpec::Failure(e),
    }
}

/// The rows of a listing, or its failure.
pub open spec fn listing_view(listed: Result<Vec<Post>, RepoError>) -> Result<
    Seq<PostRow>,
    RepoError,
> {
    match listed {
        Ok(posts) => Ok(rows_of(posts@)),
        Err(e) => Err(e),
    }
}

/// The row of a created post, or the failure.
pub open spec fn creation_view(created: Result<Post, RepoError>) -> Result<PostRow, RepoError> {
    match created {
        Ok(post) => Ok(post@),
        Err(e) => Err(e),
    }
}

/// Decides the answer to a request for the index page.
pub fn index(listed: Result<Vec<Post>, RepoError>) -> (out: Outcome)
    ensures
        out@ == index_outcome(listing_view(listed)),
{
    match listed {
        Ok(posts) => Outcome::IndexPage(posts),
        Err(e) => Outcome::Failure(e),
    }
}

/// Decides the answer to a request for the post with a given slug.
pub fn post_view(found: Result<Vec<Post>, RepoError>) -> (out: Outcome)
    ensures
        out@ == post_view_outcome(listing_view(found)),
{
    match found {
        Ok(posts) => {
            let mut posts = posts;
            if posts.len() == 0 {
                Outcome::NotFound
            } else {
                Outcome::PostPage(posts.swap_remove(0))
            }
        },
        Err(e) => Outcome::Failure(e),
    }
}

/// Decides the answer to a request that creates a post.
pub fn new_post(created: Result<Post, RepoError>) -> (out: Outcome)
    ensures
        out@ == new_post_outcome(creation_view(created)),
{
    match created {
        Ok(post) => Outcome::Created(post),
        Err(e) => Outcome::Failure(e),
    }
}

impl Outcome {
    /// The HTTP status of this answer.
    pub fn status(&self) -> (code: u16)
        ensures
            code == outcome_status(self@),
    {
        match self {
            Outcome::IndexPage(_) => 200,
            Outcome::PostPage(_) => 200,
            Outcome::Created(_) => 200,
            Outcome::NotFound => 404,
            Outcome::Failure(e) => e.status(),
        }
    }

    /// The template that renders this answer, if it is a page.
    pub fn template(&self) -> (out: Option<&'static str>)
        ensures
            text_view(out) == outcome_template(self@),
    {
        match self {
            Outcome::IndexPage(_) => Some("index.html"),
            Outcome::PostPage(_) => Some("post.html"),
            _ => None,
        }
    }

    /// The name under which this answer's template finds its data, if it is
    /// a page.
    pub fn context_key(&self) -> (out: Option<&'static str>)
        ensures
            text_view(out) == outcome_context_key(self@),
    {
        match self {
            Outcome::IndexPage(_) => Some("posts"),
            Outcome::PostPage(_) => Some("post"),
            _ => None,
        }
    }

    /// The content type of this answer's body, if it has one.
    pub fn content_type(&self) -> (out: Option<&'static str>)
        ensures
            text_view(out) == outcome_content_type(self@),
    {
        match self {
            Outcome::IndexPage(_) => Some("text/html"),
            Outcome::PostPage(_) => Some("text/html"),
            Outcome::Created(_) => Some("application/json"),
            Outcome::NotFound => None,
            Outcome::Failure(_) => Some("application/json"),
        }
    }
}

/// An answer has status 404 exactly where no post was found or the
/// repository reported a missing row; a page or a created post has 200; every
/// other failure has a status from 500 to 599.
pub proof fn lemma_outcome_status_classes(outcome: OutcomeSpec)
    ensures
        outcome_status(outcome) == 404 <==> outcome == OutcomeSpec::NotFound || outcome
            == OutcomeSpec::Failure(RepoError::NotFound),
        outcome_status(outcome) == 200 <==> !(outcome is NotFound) && !(outcome is Failure),
        outcome_status(outcome) == 200 || outcome_status(outcome) == 404 || 500 <= outcome_status(
            outcome,
        ) <= 599,
{
}

} // verus!
