use blog::slug::hyphenate;
use blog::Post;

#[test]
fn slugify_first_post() {
    assert_eq!(Post::slugify("First Post"), "first-post");
}

#[test]
fn slugify_single_letters() {
    assert_eq!(Post::slugify("A B C"), "a-b-c");
}

#[test]
fn slugify_second_post() {
    assert_eq!(Post::slugify("Second Post"), "second-post");
}

#[test]
fn slugify_is_idempotent_on_slugs() {
    let titles = vec![
        "First Post",
        "A B C",
        "already-a-slug",
        "  leading and trailing  ",
        "Hello, World!",
        "ÀÉÎ Õü",
        "ΟΔΥΣΣΕΥΣ ΑΣ",
        "İstanbul Notes",
        "",
    ];
    for title in titles {
        let once = Post::slugify(title);
        let twice = Post::slugify(&once);
        assert_eq!(twice, once);
    }
}

#[test]
fn slugify_keeps_punctuation() {
    assert_eq!(Post::slugify("Hello, World!"), "hello,-world!");
    assert_eq!(Post::slugify("What's New?"), "what's-new?");
}

#[test]
fn slugify_maps_each_space() {
    assert_eq!(Post::slugify("a  b"), "a--b");
    assert_eq!(Post::slugify(" x "), "-x-");
    assert_eq!(Post::slugify("   "), "---");
}

#[test]
fn slugify_leaves_other_whitespace() {
    assert_eq!(Post::slugify("Tab\tHere"), "tab\there");
    assert_eq!(Post::slugify("Line\nBreak"), "line\nbreak");
}

#[test]
fn slugify_empty_title() {
    assert_eq!(Post::slugify(""), "");
}

#[test]
fn slugify_lowercases_beyond_ascii() {
    assert_eq!(Post::slugify("ÀÉÎ Õü"), "àéî-õü");
    assert_eq!(Post::slugify("ΑΣ"), "ας");
}

#[test]
fn slugify_agrees_with_std() {
    let titles = vec!["First Post", "MiXeD Case Title", "ÀB c", "x"];
    for title in titles {
        assert_eq!(Post::slugify(title), title.replace(" ", "-").to_lowercase());
    }
}

#[test]
fn slugs_collide_for_titles_that_differ_in_case() {
    assert_eq!(Post::slugify("My Post"), Post::slugify("my post"));
    assert_ne!(Post::slugify("My Post"), Post::slugify("My Post!"));
}

#[test]
fn hyphenate_keeps_case() {
    assert_eq!(hyphenate("First Post"), "First-Post");
    assert_eq!(hyphenate("A B C"), "A-B-C");
    assert_eq!(hyphenate("none"), "none");
    assert_eq!(hyphenate(""), "");
}

#[test]
fn hyphenate_twice_is_once() {
    let once = hyphenate("a b  c");
    assert_eq!(hyphenate(&once), once);
}
