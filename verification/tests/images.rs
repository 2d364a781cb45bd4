use gmi::processors::MarkdownProcessor;
use regex::Regex;

fn images(html: &str) -> Vec<String> {
    MarkdownProcessor::extract_images(html)
}

#[test]
fn images_in_document_order_with_duplicates() {
    let html = "<p><img src=\"a.png\" alt=\"A\" /> text <img src=\"b.jpg\"><img src=\"a.png\"></p>";
    assert_eq!(images(html), vec!["a.png", "b.jpg", "a.png"]);
}

#[test]
fn no_images() {
    assert_eq!(images(""), Vec::<String>::new());
    assert_eq!(images("<p>text</p>"), Vec::<String>::new());
    assert_eq!(images("<img>"), Vec::<String>::new());
    assert_eq!(images("<img src=\"\">"), Vec::<String>::new());
    assert_eq!(images("<img src=\"a.png>"), Vec::<String>::new());
    assert_eq!(images("<imgsrc=\"a.png\">"), Vec::<String>::new());
    assert_eq!(images("<img alt=\"x\"> src=\"a.png\""), Vec::<String>::new());
    assert_eq!(images("<IMG SRC=\"a.png\">"), Vec::<String>::new());
}

#[test]
fn the_last_source_of_a_tag_counts() {
    assert_eq!(images("<img data-src=\"lazy.png\" src=\"real.png\">"), vec!["real.png"]);
    assert_eq!(images("<img src=\"real.png\" data-src=\"lazy.png\">"), vec!["lazy.png"]);
    assert_eq!(images("<img src=\"a.png\" src=\"\">"), vec!["a.png"]);
}

#[test]
fn a_source_may_hold_any_character_but_a_quote() {
    assert_eq!(images("<img src=\"a>b.png\">"), vec!["a>b.png"]);
    assert_eq!(images("<img src=\"a\nb.png\">"), vec!["a\nb.png"]);
    assert_eq!(images("<img\nsrc=\"ü.png\">"), vec!["ü.png"]);
}

#[test]
fn images_of_rendered_markdown() {
    let html = MarkdownProcessor::markdown_to_html(
        "![one](images/one.png)\n\ntext ![two](https://example.com/two.jpg \"Two\")\n",
    );
    assert_eq!(images(&html), vec!["images/one.png", "https://example.com/two.jpg"]);
}

fn images_by_pattern(pattern: &Regex, html: &str) -> Vec<String> {
    pattern.captures_iter(html).map(|found| found[1].to_string()).collect()
}

#[test]
fn images_agree_with_the_pattern() {
    let pattern = Regex::new("<img[^>]+src=\"([^\"]+)\"").unwrap();
    let pieces = ["<img", " ", "src=\"", "\"", ">", "a", "<", "ü"];
    let mut texts: Vec<String> = vec![String::new()];
    for _ in 0..5 {
        let mut longer = Vec::new();
        for text in &texts {
            for piece in pieces {
                longer.push(format!("{}{}", text, piece));
            }
        }
        texts.extend(longer);
        texts.sort();
        texts.dedup();
    }
    assert!(texts.len() > 20_000);
    for text in &texts {
        assert_eq!(images(text), images_by_pattern(&pattern, text), "for {:?}", text);
        let tagged = format!("<img {}", text);
        assert_eq!(images(&tagged), images_by_pattern(&pattern, &tagged), "for {:?}", tagged);
        let doubled = format!("{}<img a src=\"x\">{}", text, text);
        assert_eq!(images(&doubled), images_by_pattern(&pattern, &doubled), "for {:?}", doubled);
    }
}
