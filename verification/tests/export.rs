use gmi::error::ExportError;
use gmi::models::{Data, Frontmatter, GhostImport, ProcessedMarkdown};
use gmi::processors::{GhostExporter, MarkdownProcessor};
use gmi::timestamp::Timestamp;

fn now() -> Timestamp {
    Timestamp::new(1_700_000_000, 250_000_000).unwrap()
}

fn strings(names: &[&str]) -> Vec<String> {
    names.iter().map(|name| name.to_string()).collect()
}

fn document(frontmatter: Frontmatter) -> ProcessedMarkdown {
    ProcessedMarkdown {
        frontmatter,
        content: "body".to_string(),
        html_content: "<p>body</p>\n".to_string(),
        file_path: "post.md".to_string(),
        images: vec![],
    }
}

fn bare() -> Frontmatter {
    Frontmatter { featured: None, status: None, draft: None, ..Default::default() }
}

fn tagged(title: &str, tags: &[&str]) -> ProcessedMarkdown {
    document(Frontmatter {
        title: Some(title.to_string()),
        tags: Some(strings(tags)),
        ..Default::default()
    })
}

fn export(
    posts: Vec<ProcessedMarkdown>,
    default_author: Option<&str>,
    default_tags: &[&str],
) -> GhostImport {
    GhostExporter::create_export_at(posts, default_author, strings(default_tags), now()).unwrap()
}

fn all_ids(data: &Data) -> Vec<i32> {
    let mut ids = Vec::new();
    ids.extend(data.posts.iter().map(|post| post.id));
    ids.extend(data.tags.iter().map(|tag| tag.id));
    ids.extend(data.users.iter().map(|user| user.id));
    ids.extend(data.posts_tags.iter().map(|row| row.id));
    ids.extend(data.posts_authors.iter().map(|row| row.id));
    ids.extend(data.roles_users.iter().map(|row| row.id));
    ids
}

fn tag_rows(data: &Data) -> Vec<(i32, i32, i32)> {
    data.posts_tags.iter().map(|row| (row.id, row.post_id, row.tag_id)).collect()
}

fn author_rows(data: &Data) -> Vec<(i32, i32, i32)> {
    data.posts_authors.iter().map(|row| (row.id, row.post_id, row.author_id)).collect()
}

fn tags(data: &Data) -> Vec<(i32, &str, &str)> {
    data.tags.iter().map(|tag| (tag.id, tag.name.as_str(), tag.slug.as_str())).collect()
}

fn users(data: &Data) -> Vec<(i32, &str, &str, &str)> {
    data.users
        .iter()
        .map(|user| (user.id, user.name.as_str(), user.slug.as_str(), user.email.as_str()))
        .collect()
}

#[test]
fn one_document_with_defaults() {
    let content = "---\ntitle: Test Post\ndate: 2024-01-15\nauthor: John Doe\ntags: [rust, test]\n---\n# Hello World\n";
    let (frontmatter_text, markdown) = MarkdownProcessor::extract_frontmatter(content);
    assert_eq!(
        frontmatter_text,
        "title: Test Post\ndate: 2024-01-15\nauthor: John Doe\ntags: [rust, test]"
    );
    assert!(MarkdownProcessor::parse_frontmatter(&frontmatter_text).is_none());
    let frontmatter = Frontmatter {
        title: Some("Test Post".to_string()),
        date: Some("2024-01-15".to_string()),
        author: Some("John Doe".to_string()),
        tags: Some(strings(&["rust", "test"])),
        ..bare()
    };
    let processed = MarkdownProcessor::process_document(frontmatter, markdown, "posts/test.md");
    assert_eq!(processed.content, "# Hello World\n");
    assert_eq!(processed.html_content, "<h1>Hello World</h1>\n");
    assert_eq!(processed.file_path, "posts/test.md");
    assert_eq!(processed.images, Vec::<String>::new());

    let result = export(vec![processed], Some("Default Author"), &["default"]);
    let data = &result.data;
    assert_eq!(data.posts.len(), 1);
    assert_eq!(data.posts[0].title, "Test Post");
    assert_eq!(
        tags(data),
        vec![(2, "default", "default"), (4, "rust", "rust"), (6, "test", "test")]
    );
    assert_eq!(
        users(data),
        vec![
            (1, "Default Author", "default-author", "default-author@example.com"),
            (8, "John Doe", "john-doe", "john-doe@example.com"),
        ]
    );
    assert_eq!(tag_rows(data), vec![(5, 3, 4), (7, 3, 6)]);
    assert_eq!(author_rows(data), vec![(9, 3, 8)]);
    assert!(data.roles_users.is_empty());

    let post = &data.posts[0];
    assert_eq!(post.id, 3);
    assert_eq!(post.slug, "test-post");
    assert_eq!(post.html, Some("<h1>Hello World</h1>\n".to_string()));
    assert_eq!(post.feature_image, None);
    assert_eq!(post.featured, Some(0));
    assert_eq!(post.status, "published");
    assert_eq!(post.post_type, "post");
    assert_eq!(post.published_at, Some(Timestamp::new(1_705_276_800, 0).unwrap()));
    assert_eq!(post.created_at, now());
    assert_eq!(post.updated_at, now());
    assert_eq!(post.custom_excerpt, None);
    assert_eq!(post.meta_title, None);
    assert_eq!(post.meta_description, None);
    assert_eq!(post.visibility, "public");
    assert_eq!(post.show_title_and_feature_image, Some(1));
    assert_eq!(post.email_only, Some(0));
    assert_eq!(result.meta.exported_on, 1_700_000_000_250);
    assert_eq!(result.meta.version, "5.75.1");
}

#[test]
fn one_document_without_front_matter_and_without_defaults() {
    let content = "# Just a body\n\nNo front matter here.\n";
    let (frontmatter_text, markdown) = MarkdownProcessor::extract_frontmatter(content);
    assert_eq!(frontmatter_text, "");
    assert_eq!(markdown, content);
    let frontmatter = MarkdownProcessor::parse_frontmatter(&frontmatter_text).unwrap();
    let processed = MarkdownProcessor::process_document(frontmatter, markdown, "plain.md");

    let result = export(vec![processed], None, &[]);
    let data = &result.data;
    assert_eq!(data.posts.len(), 1);
    assert_eq!(data.posts[0].id, 1);
    assert_eq!(data.posts[0].title, "Untitled Post 1");
    assert_eq!(data.posts[0].slug, "untitled-post-1");
    assert_eq!(data.posts[0].status, "published");
    assert_eq!(data.posts[0].published_at, Some(now()));
    assert_eq!(tags(data), vec![(1, "General", "general")]);
    assert_eq!(
        users(data),
        vec![(2, "Default Author", "default-author", "default-author@example.com")]
    );
    assert!(data.posts_tags.is_empty());
    assert_eq!(author_rows(data), vec![(3, 1, 2)]);
    assert_eq!(data.tags[0].created_at, now());
}

#[test]
fn no_documents_and_no_defaults() {
    let result = export(vec![], None, &[]);
    let data = &result.data;
    assert!(data.posts.is_empty());
    assert_eq!(tags(data), vec![(1, "General", "general")]);
    assert_eq!(users(data), vec![(1, "Default Author", "default-author", "author@example.com")]);
    assert!(data.posts_tags.is_empty());
    assert!(data.posts_authors.is_empty());
    assert_eq!(data.users[0].created_at, now());
    assert_eq!(data.users[0].updated_at, now());
}

#[test]
fn a_tag_named_by_two_documents_is_registered_once() {
    let result = export(
        vec![tagged("One", &["rust", "web"]), tagged("Two", &["cli", "rust"])],
        Some("Ann"),
        &[],
    );
    let data = &result.data;
    let rust: Vec<_> = data.tags.iter().filter(|tag| tag.name == "rust").collect();
    assert_eq!(rust.len(), 1);
    assert_eq!(tags(data), vec![(3, "rust", "rust"), (5, "web", "web"), (9, "cli", "cli")]);
    assert_eq!(
        tag_rows(data),
        vec![(4, 2, 3), (6, 2, 5), (10, 8, 9), (11, 8, 3)]
    );
    assert_eq!(data.posts_tags[0].tag_id, data.posts_tags[3].tag_id);
    assert_eq!(users(data), vec![(1, "Ann", "ann", "ann@example.com")]);
    assert_eq!(author_rows(data), vec![(7, 2, 1), (12, 8, 1)]);
}

#[test]
fn a_tag_named_twice_by_one_document_gets_two_rows() {
    let result = export(vec![tagged("One", &["rust", "rust"])], None, &["rust"]);
    let data = &result.data;
    assert_eq!(tags(data), vec![(1, "rust", "rust")]);
    assert_eq!(tag_rows(data), vec![(3, 2, 1), (4, 2, 1)]);
}

#[test]
fn names_differ_by_case_and_whitespace() {
    let result = export(vec![tagged("One", &["Rust", "rust", " rust"])], None, &[]);
    assert_eq!(
        tags(&result.data),
        vec![(2, "Rust", "rust"), (4, "rust", "rust"), (6, " rust", "rust")]
    );
}

#[test]
fn default_tags_collapse_and_come_first() {
    let result = export(vec![tagged("One", &["b", "a"])], Some("Ann"), &["a", "b", "a"]);
    let data = &result.data;
    assert_eq!(users(data), vec![(1, "Ann", "ann", "ann@example.com")]);
    assert_eq!(tags(data), vec![(2, "a", "a"), (3, "b", "b")]);
    assert_eq!(data.posts[0].id, 4);
    assert_eq!(tag_rows(data), vec![(5, 4, 3), (6, 4, 2)]);
    assert_eq!(author_rows(data), vec![(7, 4, 1)]);
}

#[test]
fn identifiers_of_an_export_are_distinct_and_positive() {
    let posts = vec![
        tagged("One", &["rust", "web"]),
        document(Frontmatter {
            authors: Some(strings(&["Ann", "Bob"])),
            tags: Some(strings(&["web"])),
            ..Default::default()
        }),
        document(Frontmatter { author: Some("Bob".to_string()), ..Default::default() }),
        tagged("Four", &[]),
    ];
    let result = export(posts, Some("Carol"), &["news", "rust"]);
    let ids = all_ids(&result.data);
    let mut sorted = ids.clone();
    sorted.sort();
    sorted.dedup();
    assert_eq!(sorted.len(), ids.len());
    assert_eq!(sorted, (1..=ids.len() as i32).collect::<Vec<i32>>());
    assert_eq!(ids.len(), 18);
}

#[test]
fn rows_point_at_entities_of_the_export() {
    let posts = vec![
        tagged("One", &["rust", "web"]),
        document(Frontmatter {
            authors: Some(strings(&["Ann", "Bob"])),
            tags: Some(strings(&["web"])),
            ..Default::default()
        }),
        tagged("Three", &[]),
    ];
    let result = export(posts, None, &[]);
    let data = &result.data;
    assert_eq!(data.posts_tags.len(), 3);
    assert_eq!(data.posts_authors.len(), 4);
    for row in &data.posts_tags {
        assert_eq!(data.posts.iter().filter(|post| post.id == row.post_id).count(), 1);
        assert_eq!(data.tags.iter().filter(|tag| tag.id == row.tag_id).count(), 1);
    }
    for row in &data.posts_authors {
        assert_eq!(data.posts.iter().filter(|post| post.id == row.post_id).count(), 1);
        assert_eq!(data.users.iter().filter(|user| user.id == row.author_id).count(), 1);
    }
    let user_names: Vec<&str> = data.users.iter().map(|user| user.name.as_str()).collect();
    assert_eq!(user_names, vec!["Default Author", "Ann", "Bob"]);
}

#[test]
fn a_stand_in_shares_its_identifier() {
    let result = export(vec![tagged("One", &[])], None, &[]);
    let data = &result.data;
    assert_eq!(data.posts[0].id, 1);
    assert_eq!(tags(data), vec![(1, "General", "general")]);
}

#[test]
fn untitled_posts_are_numbered_by_position() {
    let mut posts = vec![tagged("Titled", &[])];
    for _ in 0..11 {
        posts.push(document(bare()));
    }
    let result = export(posts, None, &[]);
    let titles: Vec<&str> = result.data.posts.iter().map(|post| post.title.as_str()).collect();
    assert_eq!(titles[0], "Titled");
    assert_eq!(titles[1], "Untitled Post 2");
    assert_eq!(titles[8], "Untitled Post 9");
    assert_eq!(titles[9], "Untitled Post 10");
    assert_eq!(titles[11], "Untitled Post 12");
    assert_eq!(result.data.posts[9].slug, "untitled-post-10");
}

#[test]
fn slug_of_a_post() {
    let explicit = document(Frontmatter {
        title: Some("A Title".to_string()),
        slug: Some("Custom_Slug".to_string()),
        ..bare()
    });
    let derived = document(Frontmatter { title: Some("Ünïcödé & More!".to_string()), ..bare() });
    let result = export(vec![explicit, derived], None, &[]);
    assert_eq!(result.data.posts[0].slug, "Custom_Slug");
    assert_eq!(result.data.posts[1].slug, "ünïcödé-more");
}

#[test]
fn feature_image_of_a_post() {
    let both = document(Frontmatter {
        image: Some("cover.png".to_string()),
        images: Some(strings(&["one.png", "two.png"])),
        ..bare()
    });
    let list = document(Frontmatter { images: Some(strings(&["one.png", "two.png"])), ..bare() });
    let empty = document(Frontmatter { images: Some(vec![]), ..bare() });
    let none = document(bare());
    let result = export(vec![both, list, empty, none], None, &[]);
    let images: Vec<Option<&str>> =
        result.data.posts.iter().map(|post| post.feature_image.as_deref()).collect();
    assert_eq!(images, vec![Some("cover.png"), Some("one.png"), None, None]);
}

#[test]
fn status_and_featured_flag_of_a_post() {
    let draft = document(Frontmatter {
        draft: Some(true),
        status: Some("published".to_string()),
        featured: Some(true),
        ..bare()
    });
    let scheduled = document(Frontmatter {
        draft: Some(false),
        status: Some("scheduled".to_string()),
        featured: Some(false),
        ..bare()
    });
    let silent = document(bare());
    let result = export(vec![draft, scheduled, silent], None, &[]);
    let seen: Vec<(&str, Option<i32>)> =
        result.data.posts.iter().map(|post| (post.status.as_str(), post.featured)).collect();
    assert_eq!(
        seen,
        vec![("draft", Some(1)), ("scheduled", Some(0)), ("published", Some(0))]
    );
}

#[test]
fn excerpt_of_a_post() {
    let both = document(Frontmatter {
        description: Some("described".to_string()),
        summary: Some("summed up".to_string()),
        ..bare()
    });
    let summary = document(Frontmatter { summary: Some("summed up".to_string()), ..bare() });
    let result = export(vec![both, summary, document(bare())], None, &[]);
    let seen: Vec<Option<&str>> =
        result.data.posts.iter().map(|post| post.custom_excerpt.as_deref()).collect();
    assert_eq!(seen, vec![Some("described"), Some("summed up"), None]);
}

#[test]
fn published_time_of_a_post() {
    let dated = document(Frontmatter { date: Some("2024-01-15T14:30:00Z".to_string()), ..bare() });
    let long_form = document(Frontmatter { date: Some("January 15, 2024".to_string()), ..bare() });
    let unreadable = document(Frontmatter { date: Some("soon".to_string()), ..bare() });
    let undated = document(bare());
    let result = export(vec![dated, long_form, unreadable, undated], None, &[]);
    let seen: Vec<Option<Timestamp>> =
        result.data.posts.iter().map(|post| post.published_at).collect();
    assert_eq!(
        seen,
        vec![
            Timestamp::new(1_705_329_000, 0),
            Timestamp::new(1_705_276_800, 0),
            Some(now()),
            Some(now()),
        ]
    );
    for post in &result.data.posts {
        assert_eq!(post.created_at, now());
        assert_eq!(post.updated_at, now());
    }
}

#[test]
fn authors_of_a_post() {
    let listed = document(Frontmatter {
        authors: Some(strings(&["Ann", "Bob", "Ann"])),
        author: Some("Carol".to_string()),
        ..bare()
    });
    let empty_list = document(Frontmatter {
        authors: Some(vec![]),
        author: Some("Carol".to_string()),
        ..bare()
    });
    let single = document(Frontmatter { author: Some("Bob".to_string()), ..bare() });
    let silent = document(bare());
    let result = export(vec![listed, empty_list, single, silent], Some("Dan"), &["t"]);
    let data = &result.data;
    assert_eq!(
        users(data),
        vec![
            (1, "Dan", "dan", "dan@example.com"),
            (4, "Ann", "ann", "ann@example.com"),
            (6, "Bob", "bob", "bob@example.com"),
            (10, "Carol", "carol", "carol@example.com"),
        ]
    );
    assert_eq!(
        author_rows(data),
        vec![(5, 3, 4), (7, 3, 6), (8, 3, 4), (11, 9, 10), (13, 12, 6), (15, 14, 1)]
    );

    let result = export(vec![document(bare()), document(bare())], None, &["t"]);
    assert_eq!(
        users(&result.data),
        vec![(3, "Default Author", "default-author", "default-author@example.com")]
    );
    assert_eq!(author_rows(&result.data), vec![(4, 2, 3), (6, 5, 3)]);
}

#[test]
fn export_at_the_time_the_clock_reads() {
    let before = chrono::Utc::now().timestamp_millis();
    let result = GhostExporter::create_export(
        vec![tagged("One", &["rust"])],
        Some("Ann"),
        strings(&["news"]),
    )
    .unwrap();
    let after = chrono::Utc::now().timestamp_millis();
    assert!(before <= result.meta.exported_on && result.meta.exported_on <= after);
    let post = &result.data.posts[0];
    assert_eq!(post.created_at, post.updated_at);
    assert_eq!(post.published_at, Some(post.created_at));
    assert_eq!(post.created_at.millis(), result.meta.exported_on);
    assert_eq!(result.data.tags[0].created_at, post.created_at);
    assert_eq!(result.data.users[0].created_at, post.created_at);
    assert_eq!(all_ids(&result.data), vec![3, 2, 4, 1, 5, 6]);
}

#[test]
fn export_error_says_what_went_wrong() {
    assert_eq!(
        ExportError::IdentifiersExhausted.message(),
        "the export needs more identifiers than a 32-bit counter holds"
    );
}
