use gmi::processors::MarkdownProcessor;

#[test]
fn test_extract_frontmatter() {
    let content = "---\ntitle: Test Post\n---\n# Hello World\nThis is content.";
    let (frontmatter, markdown) = MarkdownProcessor::extract_frontmatter(content);

    assert!(frontmatter.contains("title: Test Post"));
    assert_eq!(markdown.trim(), "# Hello World\nThis is content.");
}

#[test]
fn test_markdown_to_html() {
    let markdown = "# Hello\n\nThis is **bold** text.";
    let html = MarkdownProcessor::markdown_to_html(markdown);

    assert!(html.contains("<h1>Hello</h1>"));
    assert!(html.contains("<strong>bold</strong>"));
}

#[test]
fn markdown_test_generate_slug() {
    assert_eq!(MarkdownProcessor::generate_slug("Hello World"), "hello-world");
    assert_eq!(MarkdownProcessor::generate_slug("Test's Post!"), "test-s-post");
    assert_eq!(MarkdownProcessor::generate_slug("  Trim Spaces  "), "trim-spaces");
}
