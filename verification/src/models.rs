//! The data model: a stored post, the request that creates one, the row handed
//! to the table on insertion, and the reduced projection of a post.

use vstd::prelude::*;

verus! {

/// The mathematical value of a stored post.
pub struct PostRow {
    pub id: int,
    pub title: Seq<char>,
    pub slug: Seq<char>,
    pub body: Seq<char>,
}

/// A stored post. `id` is assigned by the table and never changes; `slug` is
/// derived from the title when the post is created.
#[derive(Debug, PartialEq, Eq)]
pub struct Post {
    pub id: i32,
    pub title: String,
    pub slug: String,
    pub body: String,
}

impl View for Post {
    type V = PostRow;

    open spec fn view(&self) -> PostRow {
        PostRow { id: self.id as int, title: self.title@, slug: self.slug@, body: self.body@ }
    }
}

impl Clone for Post {
    fn clone(&self) -> (copy: Post)
        ensures
            copy@ == self@,
    {
        Post {
            id: self.id,
            title: self.title.clone(),
            slug: self.slug.clone(),
            body: self.body.clone(),
        }
    }
}

/// The views of a sequence of posts, in order.
pub open spec fn rows_of(posts: Seq<Post>) -> Seq<PostRow> {
    posts.map_values(|p: Post| p@)
}

/// What a client sends to create a post. The slug is never taken from the
/// client.
#[derive(Debug, PartialEq, Eq)]
pub struct NewPostHandler {
    pub title: String,
    pub body: String,
}

/// The mathematical value of a row about to be inserted.
pub struct NewRow {
    pub title: Seq<char>,
    pub body: Seq<char>,
    pub slug: Seq<char>,
}

/// The columns of a row about to be inserted; the table supplies the `id`.
#[derive(Debug, PartialEq, Eq)]
pub struct NewPost<'a> {
    pub title: &'a str,
    pub body: &'a str,
    pub slug: &'a str,
}

impl<'a> View for NewPost<'a> {
    type V = NewRow;

    open spec fn view(&self) -> NewRow {
        NewRow { title: self.title@, body: self.body@, slug: self.slug@ }
    }
}

/// The mathematical value of a projected post.
pub struct SimplifiedRow {
    pub title: Seq<char>,
    pub body: Seq<char>,
}

/// The projection of a post onto `title` and `body`. It has no `id` and no
/// `slug` field.
#[derive(Debug, PartialEq, Eq)]
pub struct SimplifiedPost {
    pub title: String,
    pub body: String,
}

impl View for SimplifiedPost {
    type V = SimplifiedRow;

    open spec fn view(&self) -> SimplifiedRow {
        SimplifiedRow { title: self.title@, body: self.body@ }
    }
}

/// The projection of a row onto `title` and `body`.
pub open spec fn projected(row: PostRow) -> SimplifiedRow {
    SimplifiedRow { title: row.title, body: row.body }
}

impl Post {
    /// Projects the post onto `title` and `body`.
    pub fn simplified(&self) -> (out: SimplifiedPost)
        ensures
            out@ == projected(self@),
    {
        SimplifiedPost { title: self.title.clone(), body: self.body.clone() }
    }
}

} // verus!
