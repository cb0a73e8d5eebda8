use blog::respond::{index, new_post, post_view};
use blog::{Outcome, Post, RepoError};

fn post(id: i32, slug: &str) -> Post {
    Post { id, title: "T".to_string(), slug: slug.to_string(), body: "B".to_string() }
}

#[test]
fn error_statuses() {
    assert_eq!(RepoError::NotFound.status(), 404);
    assert_eq!(RepoError::Db.status(), 500);
    assert_eq!(RepoError::Config.status(), 500);
    assert_eq!(RepoError::PoolExhausted.status(), 503);
    assert_eq!(RepoError::Connection.status(), 503);
}

#[test]
fn error_names_and_bodies() {
    assert_eq!(RepoError::NotFound.name(), "not_found");
    assert_eq!(RepoError::Db.name(), "database");
    assert_eq!(RepoError::Config.name(), "config");
    assert_eq!(RepoError::PoolExhausted.name(), "pool_exhausted");
    assert_eq!(RepoError::Connection.name(), "connection");
    assert_eq!(RepoError::NotFound.body(), "{\"error\":\"not_found\"}");
    assert_eq!(RepoError::Db.body(), "{\"error\":\"database\"}");
    assert_eq!(RepoError::PoolExhausted.body(), "{\"error\":\"pool_exhausted\"}");
}

#[test]
fn only_connection_failures_are_retryable() {
    assert!(RepoError::PoolExhausted.is_retryable());
    assert!(RepoError::Connection.is_retryable());
    assert!(!RepoError::Db.is_retryable());
    assert!(!RepoError::NotFound.is_retryable());
    assert!(!RepoError::Config.is_retryable());
}

#[test]
fn index_renders_the_listing() {
    let listed = vec![post(1, "a"), post(2, "b")];
    let outcome = index(Ok(listed.clone()));
    assert_eq!(outcome, Outcome::IndexPage(listed));
    assert_eq!(outcome.status(), 200);
    assert_eq!(index(Ok(Vec::new())), Outcome::IndexPage(Vec::new()));
}

#[test]
fn index_failure_is_not_a_success() {
    let outcome = index(Err(RepoError::Db));
    assert_eq!(outcome, Outcome::Failure(RepoError::Db));
    assert_eq!(outcome.status(), 500);
    assert_eq!(index(Err(RepoError::PoolExhausted)).status(), 503);
}

#[test]
fn post_view_takes_the_first_match() {
    let outcome = post_view(Ok(vec![post(3, "s"), post(8, "s")]));
    assert_eq!(outcome, Outcome::PostPage(post(3, "s")));
    assert_eq!(outcome.status(), 200);
    assert_eq!(post_view(Ok(vec![post(4, "t")])), Outcome::PostPage(post(4, "t")));
}

#[test]
fn post_view_without_match_is_not_found() {
    let outcome = post_view(Ok(Vec::new()));
    assert_eq!(outcome, Outcome::NotFound);
    assert_eq!(outcome.status(), 404);
}

#[test]
fn post_view_failure() {
    assert_eq!(post_view(Err(RepoError::Connection)), Outcome::Failure(RepoError::Connection));
    assert_eq!(post_view(Err(RepoError::NotFound)).status(), 404);
}

#[test]
fn new_post_returns_the_created_post() {
    let outcome = new_post(Ok(post(1, "first-post")));
    assert_eq!(outcome, Outcome::Created(post(1, "first-post")));
    assert_eq!(outcome.status(), 200);
    let outcome = new_post(Err(RepoError::Db));
    assert_eq!(outcome, Outcome::Failure(RepoError::Db));
    assert_eq!(outcome.status(), 500);
}

#[test]
fn pages_name_their_template_and_data() {
    let index_page = index(Ok(vec![post(1, "a")]));
    assert_eq!(index_page.template(), Some("index.html"));
    assert_eq!(index_page.context_key(), Some("posts"));
    assert_eq!(index_page.content_type(), Some("text/html"));
    let post_page = post_view(Ok(vec![post(1, "a")]));
    assert_eq!(post_page.template(), Some("post.html"));
    assert_eq!(post_page.context_key(), Some("post"));
    assert_eq!(post_page.content_type(), Some("text/html"));
}

#[test]
fn other_answers_have_no_template() {
    let created = new_post(Ok(post(1, "a")));
    assert_eq!(created.template(), None);
    assert_eq!(created.context_key(), None);
    assert_eq!(created.content_type(), Some("application/json"));
    let failed = index(Err(RepoError::Db));
    assert_eq!(failed.template(), None);
    assert_eq!(failed.content_type(), Some("application/json"));
    let missing = post_view(Ok(Vec::new()));
    assert_eq!(missing.template(), None);
    assert_eq!(missing.context_key(), None);
    assert_eq!(missing.content_type(), None);
}
