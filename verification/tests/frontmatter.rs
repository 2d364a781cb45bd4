use gmi::models::Frontmatter;
use gmi::processors::MarkdownProcessor;
use regex::Regex;

fn split(content: &str) -> (String, String) {
    MarkdownProcessor::extract_frontmatter(content)
}

fn pair(frontmatter: &str, body: &str) -> (String, String) {
    (frontmatter.to_string(), body.to_string())
}

#[test]
fn document_without_block_is_all_body() {
    for content in [
        "",
        "# Title\n\nBody",
        "   \n# Title",
        "--\ntitle: x\n--\nbody",
        "---title: x\n---\nbody",
        "---\ntitle: x\nbody",
        "---\n---\nbody",
        "text\n---\ntitle: x\n---\nbody",
        "---\ntitle: x\n--- \nbody",
        "---\ntitle: x\n----\nbody",
        "---\ntitle: x\n---body",
    ] {
        assert_eq!(split(content), pair("", content), "for {:?}", content);
    }
}

#[test]
fn block_followed_by_body() {
    assert_eq!(split("---\ntitle: x\n---\nbody"), pair("title: x", "body"));
    assert_eq!(split("---\ntitle: x\n---\n"), pair("title: x", ""));
    assert_eq!(split("---\na: 1\nb: 2\n---\n\nbody\n"), pair("a: 1\nb: 2", "\nbody\n"));
    assert_eq!(split("---\n\n---\nbody"), pair("", "body"));
}

#[test]
fn block_with_carriage_returns() {
    assert_eq!(split("---\r\ntitle: x\r\n---\r\nbody\r\n"), pair("title: x", "body\r\n"));
    assert_eq!(split("---\r\ntitle: x\n---\nbody"), pair("title: x", "body"));
    assert_eq!(split("---\ntitle: x\r\r\n---\nbody"), pair("title: x\r", "body"));
}

#[test]
fn block_that_ends_the_document() {
    assert_eq!(split("---\ntitle: x\n---"), pair("title: x", ""));
    assert_eq!(split("---\r\ntitle: x\r\n---"), pair("title: x", ""));
}

#[test]
fn block_after_leading_whitespace() {
    assert_eq!(split("\n\n  ---\ntitle: x\n---\nbody"), pair("title: x", "body"));
    assert_eq!(split("\u{a0}\t---\ntitle: x\n---\nbody"), pair("title: x", "body"));
}

#[test]
fn block_ends_at_the_first_closing_line() {
    assert_eq!(split("---\na\n---\nb\n---\nc"), pair("a", "b\n---\nc"));
    assert_eq!(split("---\na\n---x\nb\n---\nc"), pair("a\n---x\nb", "c"));
    assert_eq!(split("---\na\n---\nb\n---"), pair("a", "b\n---"));
}

/// The splitter of the patterns `^[\s\n]*---\r?\n(.*?)\r?\n---\r?\n(.*)$` and
/// `^[\s\n]*---\r?\n(.*?)\r?\n---$`.
fn split_by_pattern(with_body: &Regex, at_end: &Regex, content: &str) -> (String, String) {
    if let Some(found) = with_body.captures(content) {
        (found[1].to_string(), found[2].to_string())
    } else if let Some(found) = at_end.captures(content) {
        (found[1].to_string(), String::new())
    } else {
        (String::new(), content.to_string())
    }
}

#[test]
fn splitting_agrees_with_the_patterns() {
    let with_body = Regex::new("(?s)^[\\s\\n]*---\\r?\\n(.*?)\\r?\\n---\\r?\\n(.*)$").unwrap();
    let at_end = Regex::new("(?s)^[\\s\\n]*---\\r?\\n(.*?)\\r?\\n---$").unwrap();
    let pieces = ["---", "\n", "\r\n", "\r", "a", " ", "-", "----", "x: y"];
    let mut texts: Vec<String> = vec![String::new()];
    for _ in 0..5 {
        let mut longer = Vec::new();
        for text in &texts {
            for piece in pieces {
                longer.push(format!("{}{}", text, piece));
            }
        }
        texts.extend(longer);
        texts.sort();
        texts.dedup();
    }
    assert!(texts.len() > 40_000);
    for text in &texts {
        assert_eq!(split(text), split_by_pattern(&with_body, &at_end, text), "for {:?}", text);
        let opened = format!("---\n{}", text);
        assert_eq!(
            split(&opened),
            split_by_pattern(&with_body, &at_end, &opened),
            "for {:?}",
            opened
        );
    }
}

#[test]
fn blank_front_matter_gives_the_defaults() {
    for text in ["", " ", "\n", " \t\r\n ", "\u{a0}\u{2003}"] {
        let frontmatter: Frontmatter = MarkdownProcessor::parse_frontmatter(text).unwrap();
        assert_eq!(frontmatter.title, None);
        assert_eq!(frontmatter.date, None);
        assert_eq!(frontmatter.author, None);
        assert_eq!(frontmatter.tags, None);
        assert_eq!(frontmatter.slug, None);
        assert_eq!(frontmatter.description, None);
        assert_eq!(frontmatter.summary, None);
        assert_eq!(frontmatter.featured, Some(false));
        assert_eq!(frontmatter.status, Some("published".to_string()));
        assert_eq!(frontmatter.image, None);
        assert_eq!(frontmatter.images, None);
        assert_eq!(frontmatter.category, None);
        assert_eq!(frontmatter.draft, Some(false));
        assert_eq!(frontmatter.authors, None);
        assert_eq!(frontmatter.layout, None);
        assert!(frontmatter.extra.is_empty());
    }
}

#[test]
fn front_matter_with_content_is_left_to_the_decoder() {
    for text in ["title: x", " a ", "\n-\n", "{"] {
        assert!(MarkdownProcessor::parse_frontmatter(text).is_none());
    }
}
