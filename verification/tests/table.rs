use blog::{
    Direction, NewPost, NewPostHandler, OrderBy, Post, PostChanges, PostQuery, PostTable,
    RepoError, SimplifiedPost, SlugFilter, SortField,
};

fn request(title: &str, body: &str) -> NewPostHandler {
    NewPostHandler { title: title.to_string(), body: body.to_string() }
}

fn sample_table() -> PostTable {
    let mut table = PostTable::new();
    for (title, body) in [
        ("First Post", "one"),
        ("Second Post", "two"),
        ("About", "three"),
        ("Third Post Draft", "four"),
    ] {
        Post::create_post(&mut table, &request(title, body)).unwrap();
    }
    table
}

fn ids(posts: &[Post]) -> Vec<i32> {
    posts.iter().map(|p| p.id).collect()
}

fn newest_first() -> OrderBy {
    OrderBy { field: SortField::Id, direction: Direction::Descending }
}

#[test]
fn new_table_is_empty() {
    let table = PostTable::new();
    assert_eq!(table.len(), 0);
    assert_eq!(table.last_id(), 0);
    assert!(table.list_all(None, None).is_empty());
    assert!(table.list_projected().is_empty());
}

#[test]
fn create_derives_the_slug() {
    let mut table = PostTable::new();
    Post::create_post(&mut table, &request("First Post", "...")).unwrap();
    let second = Post::create_post(&mut table, &request("Second Post", "...")).unwrap();
    assert_eq!(
        second,
        Post {
            id: 2,
            title: "Second Post".to_string(),
            slug: "second-post".to_string(),
            body: "...".to_string(),
        }
    );
    assert_eq!(table.len(), 2);
    assert_eq!(table.last_id(), 2);
}

#[test]
fn create_returns_the_stored_row() {
    let mut table = PostTable::new();
    let created = Post::create_post(&mut table, &request("A B C", "body")).unwrap();
    assert_eq!(created.id, 1);
    assert_eq!(created.slug, "a-b-c");
    assert_eq!(table.list_all(None, None), vec![created]);
}

#[test]
fn create_hands_out_growing_ids() {
    let mut table = PostTable::new();
    let mut last = 0;
    for n in 0..50 {
        let post = Post::create_post(&mut table, &request(&format!("Post {}", n), "b")).unwrap();
        assert!(post.id > last);
        assert_eq!(post.id, last + 1);
        last = post.id;
    }
    let mut seen = ids(&table.list_all(None, None));
    seen.dedup();
    assert_eq!(seen.len(), 50);
}

#[test]
fn create_allows_equal_slugs() {
    let mut table = PostTable::new();
    let a = Post::create_post(&mut table, &request("Same Title", "a")).unwrap();
    let b = Post::create_post(&mut table, &request("same title", "b")).unwrap();
    assert_eq!(a.slug, b.slug);
    assert_ne!(a.id, b.id);
    assert_eq!(ids(&table.find_by_slug("same-title")), vec![1, 2]);
}

#[test]
fn ids_are_not_reused_after_deletion() {
    let mut table = sample_table();
    assert_eq!(table.delete_matching(&SlugFilter::Any), 4);
    assert_eq!(table.len(), 0);
    assert_eq!(table.last_id(), 4);
    let next = Post::create_post(&mut table, &request("Again", "x")).unwrap();
    assert_eq!(next.id, 5);
}

#[test]
fn insert_stores_the_given_slug() {
    let mut table = PostTable::new();
    let row = NewPost { title: "Title", body: "Body", slug: "custom" };
    let stored = table.insert(&row).unwrap();
    assert_eq!(
        stored,
        Post {
            id: 1,
            title: "Title".to_string(),
            slug: "custom".to_string(),
            body: "Body".to_string(),
        }
    );
}

#[test]
fn insert_fails_when_identifiers_are_used_up() {
    let mut table = PostTable::resume(i32::MAX - 1).unwrap();
    let last = Post::create_post(&mut table, &request("Last One", "x")).unwrap();
    assert_eq!(last.id, i32::MAX);
    assert_eq!(Post::create_post(&mut table, &request("Too Many", "x")), Err(RepoError::Db));
    let row = NewPost { title: "t", body: "b", slug: "s" };
    assert_eq!(table.insert(&row), Err(RepoError::Db));
    assert_eq!(table.len(), 1);
    assert_eq!(table.last_id(), i32::MAX);
}

#[test]
fn resume_refuses_negative_identifiers() {
    assert!(PostTable::resume(-1).is_none());
    assert!(PostTable::resume(i32::MIN).is_none());
    let table = PostTable::resume(0).unwrap();
    assert_eq!(table.last_id(), 0);
    let table = PostTable::resume(41).unwrap();
    assert_eq!(table.len(), 0);
    assert_eq!(table.last_id(), 41);
}

#[test]
fn list_all_newest_first_limit_one() {
    let table = sample_table();
    let listed = table.list_all(Some(newest_first()), Some(1));
    assert_eq!(listed.len(), 1);
    assert_eq!(listed[0].id, 4);
    assert_eq!(listed[0].title, "Third Post Draft");
}

#[test]
fn list_all_without_order_is_storage_order() {
    let table = sample_table();
    assert_eq!(ids(&table.list_all(None, None)), vec![1, 2, 3, 4]);
    assert_eq!(ids(&table.list_all(None, Some(2))), vec![1, 2]);
    assert_eq!(ids(&table.list_all(None, Some(0))), Vec::<i32>::new());
    assert_eq!(ids(&table.list_all(None, Some(4))), vec![1, 2, 3, 4]);
    assert_eq!(ids(&table.list_all(None, Some(u64::MAX))), vec![1, 2, 3, 4]);
}

#[test]
fn list_all_orders_then_limits() {
    let table = sample_table();
    let by_title = OrderBy { field: SortField::Title, direction: Direction::Ascending };
    assert_eq!(ids(&table.list_all(Some(by_title), None)), vec![3, 1, 2, 4]);
    assert_eq!(ids(&table.list_all(Some(by_title), Some(2))), vec![3, 1]);
    let by_title_desc = OrderBy { field: SortField::Title, direction: Direction::Descending };
    assert_eq!(ids(&table.list_all(Some(by_title_desc), Some(3))), vec![4, 2, 1]);
    assert_eq!(ids(&table.list_all(Some(newest_first()), None)), vec![4, 3, 2, 1]);
    let by_body = OrderBy { field: SortField::Body, direction: Direction::Ascending };
    assert_eq!(ids(&table.list_all(Some(by_body), None)), vec![4, 1, 3, 2]);
    let by_slug = OrderBy { field: SortField::Slug, direction: Direction::Descending };
    assert_eq!(ids(&table.list_all(Some(by_slug), None)), vec![4, 2, 1, 3]);
}

#[test]
fn list_projected_has_title_and_body() {
    let table = sample_table();
    let projected = table.list_projected();
    assert_eq!(projected.len(), 4);
    let SimplifiedPost { title, body } = &projected[1];
    assert_eq!(title, "Second Post");
    assert_eq!(body, "two");
    assert_eq!(
        projected[2],
        SimplifiedPost { title: "About".to_string(), body: "three".to_string() }
    );
}

#[test]
fn find_by_slug_unknown_is_empty() {
    let table = sample_table();
    assert!(table.find_by_slug("nonexistent").is_empty());
    assert!(PostTable::new().find_by_slug("nonexistent").is_empty());
}

#[test]
fn find_by_slug_is_exact() {
    let table = sample_table();
    let found = table.find_by_slug("second-post");
    assert_eq!(ids(&found), vec![2]);
    assert_eq!(found[0].body, "two");
    assert!(table.find_by_slug("second").is_empty());
    assert!(table.find_by_slug("Second-Post").is_empty());
    assert!(table.find_by_slug("%").is_empty());
}

#[test]
fn find_by_partial_slug_uses_wildcards() {
    let table = sample_table();
    assert_eq!(ids(&table.find_by_partial_slug("%-post%")), vec![1, 2, 4]);
    assert_eq!(ids(&table.find_by_partial_slug("%-post")), vec![1, 2]);
    assert_eq!(ids(&table.find_by_partial_slug("about")), vec![3]);
    assert_eq!(ids(&table.find_by_partial_slug("_____")), vec![3]);
    assert_eq!(ids(&table.find_by_partial_slug("%")), vec![1, 2, 3, 4]);
    assert!(table.find_by_partial_slug("").is_empty());
}

#[test]
fn query_filters_orders_and_limits() {
    let table = sample_table();
    let query = PostQuery {
        filter: SlugFilter::Like("%-post%".to_string()),
        order: Some(newest_first()),
        limit: Some(2),
    };
    assert_eq!(ids(&table.query(&query)), vec![4, 2]);
    let query = PostQuery {
        filter: SlugFilter::Equals("about".to_string()),
        order: Some(newest_first()),
        limit: Some(0),
    };
    assert!(table.query(&query).is_empty());
    let query = PostQuery { filter: SlugFilter::Any, order: None, limit: None };
    assert_eq!(table.query(&query), table.list_all(None, None));
}

#[test]
fn update_title_only() {
    let mut table = sample_table();
    let before = table.list_all(None, None);
    let changes = PostChanges { title: Some("Second Post".to_string()), slug: None, body: None };
    let updated = table.update(2, &changes).unwrap();
    assert_eq!(updated, before[1]);
    let changes = PostChanges { title: Some("Renamed".to_string()), slug: None, body: None };
    let updated = table.update(2, &changes).unwrap();
    assert_eq!(
        updated,
        Post {
            id: 2,
            title: "Renamed".to_string(),
            slug: "second-post".to_string(),
            body: "two".to_string(),
        }
    );
    let after = table.list_all(None, None);
    assert_eq!(after[1], updated);
    assert_eq!(after[0], before[0]);
    assert_eq!(after[2], before[2]);
    assert_eq!(after[3], before[3]);
    assert_eq!(table.last_id(), 4);
}

#[test]
fn update_sets_each_supplied_column() {
    let mut table = sample_table();
    let changes = PostChanges {
        title: None,
        slug: Some("new-slug".to_string()),
        body: Some("new body".to_string()),
    };
    let updated = table.update(1, &changes).unwrap();
    assert_eq!(updated.id, 1);
    assert_eq!(updated.title, "First Post");
    assert_eq!(updated.slug, "new-slug");
    assert_eq!(updated.body, "new body");
    assert_eq!(ids(&table.find_by_slug("new-slug")), vec![1]);
    assert!(table.find_by_slug("first-post").is_empty());
}

#[test]
fn update_without_changes_returns_the_row() {
    let mut table = sample_table();
    let before = table.list_all(None, None);
    let changes = PostChanges { title: None, slug: None, body: None };
    assert_eq!(table.update(3, &changes).unwrap(), before[2]);
    assert_eq!(table.list_all(None, None), before);
}

#[test]
fn update_unknown_id_is_not_found() {
    let mut table = sample_table();
    let before = table.list_all(None, None);
    let changes = PostChanges { title: Some("x".to_string()), slug: None, body: None };
    assert_eq!(table.update(99, &changes), Err(RepoError::NotFound));
    assert_eq!(table.update(0, &changes), Err(RepoError::NotFound));
    assert_eq!(table.update(-1, &changes), Err(RepoError::NotFound));
    assert_eq!(table.list_all(None, None), before);
    assert_eq!(PostTable::new().update(1, &changes), Err(RepoError::NotFound));
}

#[test]
fn delete_matching_counts_and_repeats_with_zero() {
    let mut table = sample_table();
    let filter = SlugFilter::Like("%-post%".to_string());
    assert_eq!(table.delete_matching(&filter), 3);
    assert_eq!(ids(&table.list_all(None, None)), vec![3]);
    assert_eq!(table.delete_matching(&filter), 0);
    assert_eq!(ids(&table.list_all(None, None)), vec![3]);
}

#[test]
fn delete_matching_nothing_is_not_a_failure() {
    let mut table = sample_table();
    assert_eq!(table.delete_matching(&SlugFilter::Equals("nonexistent".to_string())), 0);
    assert_eq!(table.len(), 4);
    assert_eq!(PostTable::new().delete_matching(&SlugFilter::Any), 0);
}

#[test]
fn delete_matching_by_exact_slug() {
    let mut table = sample_table();
    assert_eq!(table.delete_matching(&SlugFilter::Equals("about".to_string())), 1);
    assert_eq!(ids(&table.list_all(None, None)), vec![1, 2, 4]);
    assert!(table.update(3, &PostChanges { title: None, slug: None, body: None }).is_err());
}

#[test]
fn creates_in_any_order_get_distinct_ids() {
    let titles = ["a", "b", "c", "d", "e"];
    let mut forward = PostTable::new();
    let mut backward = PostTable::new();
    let mut got = Vec::new();
    for t in titles.iter() {
        got.push(Post::create_post(&mut forward, &request(t, "")).unwrap().id);
    }
    for t in titles.iter().rev() {
        got.push(Post::create_post(&mut backward, &request(t, "")).unwrap().id);
    }
    assert_eq!(got, vec![1, 2, 3, 4, 5, 1, 2, 3, 4, 5]);
}
