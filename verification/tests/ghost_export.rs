use chrono::{DateTime, Datelike, Timelike};
use gmi::models::{Frontmatter, ProcessedMarkdown};
use gmi::processors::GhostExporter;

#[test]
fn test_create_export() {
    let processed = ProcessedMarkdown {
        frontmatter: Frontmatter {
            title: Some("Test Post".to_string()),
            date: Some("2024-01-15".to_string()),
            author: Some("John Doe".to_string()),
            tags: Some(vec!["rust".to_string(), "test".to_string()]),
            slug: Some("test-post".to_string()),
            description: Some("Test description".to_string()),
            ..Default::default()
        },
        content: "# Hello World".to_string(),
        html_content: "<h1>Hello World</h1>".to_string(),
        file_path: "test.md".to_string(),
        images: vec![],
    };

    let export = GhostExporter::create_export(
        vec![processed],
        Some("Default Author"),
        vec!["default".to_string()],
    )
    .unwrap();

    assert_eq!(export.data.posts.len(), 1);
    assert_eq!(export.data.posts[0].title, "Test Post");
    assert_eq!(export.data.tags.len(), 3); // 2 from post + 1 default
    assert_eq!(export.data.users.len(), 2); // 1 from post + 1 default
}

#[test]
fn ghost_export_test_generate_slug() {
    assert_eq!(GhostExporter::generate_slug("Hello World"), "hello-world");
    assert_eq!(GhostExporter::generate_slug("Test's Post!"), "test-s-post");
    assert_eq!(GhostExporter::generate_slug("Multiple   Spaces"), "multiple-spaces");
}

#[test]
fn test_parse_date() {
    let date = GhostExporter::parse_date("2024-01-15");
    let date = DateTime::from_timestamp(date.seconds(), date.nanos()).unwrap();
    assert_eq!(date.year(), 2024);
    assert_eq!(date.month(), 1);
    assert_eq!(date.day(), 15);

    let date = GhostExporter::parse_date("2024-01-15T14:30:00Z");
    let date = DateTime::from_timestamp(date.seconds(), date.nanos()).unwrap();
    assert_eq!(date.year(), 2024);
    assert_eq!(date.hour(), 14);
    assert_eq!(date.minute(), 30);
}
