use gmi::processors::MarkdownProcessor;
use gmi::text::{chars_of, same_text};

#[test]
fn characters_of_a_string() {
    assert_eq!(chars_of(""), Vec::<char>::new());
    assert_eq!(chars_of("héllo 日本"), vec!['h', 'é', 'l', 'l', 'o', ' ', '日', '本']);
    assert_eq!(chars_of("e\u{301}"), vec!['e', '\u{301}']);
}

#[test]
fn strings_with_the_same_characters() {
    assert!(same_text("", ""));
    assert!(same_text("jpg", "jpg"));
    assert!(!same_text("jpg", "jpeg"));
    assert!(!same_text("jpg", "jpG"));
    assert!(!same_text("é", "e\u{301}"));
}

#[test]
fn processed_document_holds_its_parts() {
    let frontmatter = MarkdownProcessor::parse_frontmatter("").unwrap();
    let markdown = "# Title\n\n![cover](cover.png) and ~~old~~ text\n\n- [x] done\n".to_string();
    let processed = MarkdownProcessor::process_document(frontmatter, markdown.clone(), "a/b.md");
    assert_eq!(processed.content, markdown);
    assert_eq!(processed.html_content, MarkdownProcessor::markdown_to_html(&markdown));
    assert_eq!(processed.file_path, "a/b.md");
    assert_eq!(processed.images, vec!["cover.png"]);
    assert_eq!(processed.frontmatter.status, Some("published".to_string()));
    assert!(processed.html_content.contains("<del>old</del>"));
    assert!(processed.html_content.contains("type=\"checkbox\""));
}

#[test]
fn rendering_knows_tables_and_footnotes() {
    let html = MarkdownProcessor::markdown_to_html(
        "| a | b |\n|---|---|\n| 1 | 2 |\n\nNote[^1].\n\n[^1]: The note.\n",
    );
    assert!(html.contains("<table>"));
    assert!(html.contains("<td>1</td>"));
    assert!(html.contains("footnote"));
    assert_eq!(MarkdownProcessor::markdown_to_html(""), "");
    assert_eq!(MarkdownProcessor::markdown_to_html("*em*"), "<p><em>em</em></p>\n");
}
