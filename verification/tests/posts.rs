use content_pipeline::frontmatter::{FrontMatter, RawFrontMatter, Timestamp};
use content_pipeline::post::markdown::FormatResponse;
use content_pipeline::post::{sort_posts, Post};

fn raw(slug: &str, published: Option<&str>, section: Option<&str>) -> RawFrontMatter {
    RawFrontMatter {
        title: format!("Title of {}", slug),
        slug: slug.to_string(),
        tags: vec!["one".to_string(), "two".to_string()],
        published: published.map(|p| p.to_string()),
        summary: "Summary".to_string(),
        section: section.map(|s| s.to_string()),
    }
}

/// Reads the fields of a header from its YAML text.
fn raw_from_yaml(text: &str) -> RawFrontMatter {
    let value: serde_yaml::Value = serde_yaml::from_str(text).unwrap();
    let field = |key: &str| value.get(key).and_then(|v| v.as_str()).map(|s| s.to_string());
    RawFrontMatter {
        title: field("title").unwrap(),
        slug: field("slug").unwrap(),
        tags: value
            .get("tags")
            .and_then(|v| v.as_sequence())
            .unwrap()
            .iter()
            .map(|t| t.as_str().unwrap().to_string())
            .collect(),
        published: field("published"),
        summary: field("summary").unwrap(),
        section: field("section"),
    }
}

fn post(slug: &str, secs: i64, nanos: u32) -> Post {
    Post {
        front: FrontMatter {
            title: slug.to_string(),
            slug: slug.to_string(),
            tags: Vec::new(),
            date: Timestamp { secs, nanos },
            summary: String::new(),
            section: "Miscellaneous".to_string(),
        },
        source: format!("posts/{}.md", slug),
        url: format!("/posts/{}/", slug),
        contents: String::new(),
    }
}

fn slugs(posts: &[Post]) -> Vec<String> {
    posts.iter().map(|p| p.front.slug.clone()).collect()
}

#[test]
fn text_without_delimiter_is_all_body() {
    for text in ["hello", "", "--- \ntitle: x\n---\n", "----\na\n---\n", " ---\na\n---\n", "--\n", "---"] {
        let (front, contents) = Post::extract_frontmatter(text);
        assert_eq!(front, None);
        assert_eq!(contents, text);
    }
}

#[test]
fn header_stands_between_two_delimiter_lines() {
    let (front, contents) = Post::extract_frontmatter("---\ntitle: T\nslug: s\n---\nhello\n---\nmore");
    assert_eq!(front, Some("title: T\nslug: s\n".to_string()));
    assert_eq!(contents, "hello\n---\nmore");
}

#[test]
fn header_with_carriage_returns() {
    let (front, contents) = Post::extract_frontmatter("---\r\ntitle: T\r\n---\r\nbody\r\n");
    assert_eq!(front, Some("title: T\r\n".to_string()));
    assert_eq!(contents, "body\r\n");
}

#[test]
fn header_without_closing_delimiter_is_all_body() {
    for text in ["---\ntitle: T\nhello", "---\ntitle: T\n---", "---\r\ntitle: T\r\n---\nbody", "---\ntitle: T\n---\r\nbody"] {
        let (front, contents) = Post::extract_frontmatter(text);
        assert_eq!(front, None);
        assert_eq!(contents, text);
    }
}

#[test]
fn closing_delimiter_is_a_line_of_its_own() {
    let (front, contents) = Post::extract_frontmatter("---\ntitle: a---\nx: ----\n---\nbody");
    assert_eq!(front, Some("title: a---\nx: ----\n".to_string()));
    assert_eq!(contents, "body");
}

#[test]
fn empty_header_and_empty_body() {
    let (front, contents) = Post::extract_frontmatter("---\n---\n");
    assert_eq!(front, Some(String::new()));
    assert_eq!(contents, "");
    let (front, contents) = Post::extract_frontmatter("---\n---\n---\n");
    assert_eq!(front, Some(String::new()));
    assert_eq!(contents, "---\n");
}

#[test]
fn well_formed_timestamp_gives_a_header() {
    let front = FrontMatter::from_raw(raw("s", Some("2023-01-02T03:04:05+00:00"), Some("Notes"))).unwrap();
    assert_eq!(front.title, "Title of s");
    assert_eq!(front.slug, "s");
    assert_eq!(front.tags, vec!["one", "two"]);
    assert_eq!(front.summary, "Summary");
    assert_eq!(front.section, "Notes");
    assert_eq!(front.date, Timestamp { secs: 1672628645, nanos: 0 });
}

#[test]
fn missing_section_becomes_miscellaneous() {
    let front = FrontMatter::from_raw(raw("s", Some("2023-01-02T03:04:05Z"), None)).unwrap();
    assert_eq!(front.section, "Miscellaneous");
}

#[test]
fn timestamp_is_brought_to_utc() {
    let front = FrontMatter::from_raw(raw("s", Some("2023-01-02T03:04:05.25+02:00"), None)).unwrap();
    assert_eq!(front.date, Timestamp { secs: 1672628645 - 7200, nanos: 250_000_000 });
    let early = FrontMatter::from_raw(raw("s", Some("1969-12-31T23:59:59-00:00"), None)).unwrap();
    assert_eq!(early.date, Timestamp { secs: -1, nanos: 0 });
}

#[test]
fn missing_timestamp_means_not_published() {
    assert!(FrontMatter::from_raw(raw("s", None, Some("Notes"))).is_none());
}

#[test]
fn malformed_timestamp_means_not_published() {
    for text in ["", "yesterday", "2023-01-02", "2023-01-02T03:04:05", "2023-13-02T03:04:05Z", "2023-01-02 03:04:05 +0000 UTC"] {
        assert!(FrontMatter::from_raw(raw("s", Some(text), None)).is_none());
    }
}

#[test]
fn document_with_header_and_body_loads() {
    let text = "---\ntitle: T\nslug: s\ntags: []\nsummary: S\npublished: \"2023-01-02T03:04:05+00:00\"\n---\nhello";
    let (front, contents) = Post::extract_frontmatter(text);
    assert_eq!(contents, "hello");
    let post = Post::load("posts/s.md", raw_from_yaml(&front.unwrap()), contents).unwrap();
    assert_eq!(post.front.title, "T");
    assert_eq!(post.front.slug, "s");
    assert!(post.front.tags.is_empty());
    assert_eq!(post.front.summary, "S");
    assert_eq!(post.front.section, "Miscellaneous");
    assert_eq!(post.front.date, Timestamp { secs: 1672628645, nanos: 0 });
    assert_eq!(post.source, "posts/s.md");
    assert_eq!(post.url, "/posts/s/");
    assert_eq!(post.contents, "hello");
}

#[test]
fn document_without_published_field_gives_no_post() {
    let text = "---\ntitle: T\nslug: s\ntags: []\nsummary: S\n---\nhello";
    let (front, contents) = Post::extract_frontmatter(text);
    assert!(Post::load("posts/s.md", raw_from_yaml(&front.unwrap()), contents).is_none());
}

#[test]
fn page_takes_header_and_transformed_body() {
    let loaded = Post::load("a.md", raw("a", Some("2020-02-29T12:00:00Z"), None), "body".to_string()).unwrap();
    let page = loaded.render(
        "body{}",
        ".katex{}",
        FormatResponse { output: "<p>body</p>\n".to_string(), include_katex_css: true },
    );
    assert_eq!(page.title, "Title of a");
    assert_eq!(page.front.slug, "a");
    assert_eq!(page.front.tags, vec!["one", "two"]);
    assert_eq!(page.front.date, loaded.front.date);
    assert_eq!(page.front.section, "Miscellaneous");
    assert_eq!(page.content, "<p>body</p>\n");
    assert!(page.include_katex_css);
    assert_eq!(page.style, "body{}");
    assert_eq!(page.katex_style, ".katex{}");
}

#[test]
fn posts_are_listed_newest_first() {
    let sorted = sort_posts(vec![post("b", 20, 0), post("d", 5, 0), post("a", 30, 0), post("c", 20, 1)]);
    assert_eq!(slugs(&sorted), vec!["a", "c", "b", "d"]);
}

#[test]
fn posts_of_one_instant_keep_their_order() {
    let sorted = sort_posts(vec![
        post("x1", 10, 0),
        post("y1", 20, 5),
        post("x2", 10, 0),
        post("y2", 20, 5),
        post("x3", 10, 0),
    ]);
    assert_eq!(slugs(&sorted), vec!["y1", "y2", "x1", "x2", "x3"]);
}

#[test]
fn sorting_nothing_and_one() {
    assert!(sort_posts(Vec::new()).is_empty());
    assert_eq!(slugs(&sort_posts(vec![post("only", -3, 0)])), vec!["only"]);
}

#[test]
fn later_instant_compares_seconds_then_nanoseconds() {
    let a = Timestamp { secs: 10, nanos: 5 };
    assert!(a.is_later_than(&Timestamp { secs: 9, nanos: 999_999_999 }));
    assert!(a.is_later_than(&Timestamp { secs: 10, nanos: 4 }));
    assert!(!a.is_later_than(&Timestamp { secs: 10, nanos: 5 }));
    assert!(!a.is_later_than(&Timestamp { secs: 10, nanos: 6 }));
    assert!(!a.is_later_than(&Timestamp { secs: 11, nanos: 0 }));
    assert!(Timestamp { secs: -1, nanos: 0 }.is_later_than(&Timestamp { secs: -2, nanos: 7 }));
}
