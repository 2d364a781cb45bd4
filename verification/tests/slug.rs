use gmi::processors::{GhostExporter, MarkdownProcessor};
use gmi::slug::{slug_of, slug_of_lowercase, stable_slug};
use gmi::text::keeps_case;

fn sample_texts() -> Vec<&'static str> {
    vec![
        "",
        " ",
        "---",
        "Hello World",
        "  Leading and trailing  ",
        "Test's Post!",
        "a--b",
        "-a-",
        "Tabs\tand\nnewlines",
        "C++ / Rust & Go",
        "Ünïcödé Straße ÉCOLE",
        "İstanbul",
        "ΌΣΟΣ ΣΑΣ",
        "日本語 のタイトル",
        "price: 100€ (50% off)",
        "snake_case_name",
        "٣ apples",
        "emoji 🎉 party",
        "no\u{a0}break",
    ]
}

#[test]
fn slug_holds_hyphens_and_alphanumerics_only() {
    for text in sample_texts() {
        let slug = GhostExporter::generate_slug(text);
        for c in slug.chars() {
            assert!(c == '-' || c.is_alphanumeric(), "{:?} in slug of {:?}", c, text);
            assert!(c == '-' || text.to_lowercase().contains(c));
        }
    }
}

#[test]
fn slug_neither_begins_nor_ends_with_a_hyphen() {
    for text in sample_texts() {
        let slug = GhostExporter::generate_slug(text);
        assert!(!slug.starts_with('-'), "slug of {:?}", text);
        assert!(!slug.ends_with('-'), "slug of {:?}", text);
        assert!(!slug.contains("--"), "slug of {:?}", text);
    }
}

#[test]
fn slug_of_a_slug_is_the_slug() {
    for text in sample_texts() {
        let slug = GhostExporter::generate_slug(text);
        assert_eq!(GhostExporter::generate_slug(&slug), slug);
        assert_eq!(slug_of_lowercase(&slug), slug);
    }
}

#[test]
fn slug_exact_values() {
    assert_eq!(GhostExporter::generate_slug(""), "");
    assert_eq!(GhostExporter::generate_slug("   "), "");
    assert_eq!(GhostExporter::generate_slug("!!!"), "");
    assert_eq!(GhostExporter::generate_slug("---"), "");
    assert_eq!(GhostExporter::generate_slug("a"), "a");
    assert_eq!(GhostExporter::generate_slug("-a-"), "a");
    assert_eq!(GhostExporter::generate_slug("a--b"), "a-b");
    assert_eq!(GhostExporter::generate_slug("John Doe"), "john-doe");
    assert_eq!(GhostExporter::generate_slug("Default Author"), "default-author");
    assert_eq!(GhostExporter::generate_slug("snake_case_name"), "snake-case-name");
    assert_eq!(GhostExporter::generate_slug("Tabs\tand\nnewlines"), "tabs-and-newlines");
    assert_eq!(GhostExporter::generate_slug("C++ / Rust & Go"), "c-rust-go");
    assert_eq!(GhostExporter::generate_slug("Ünïcödé Straße"), "ünïcödé-straße");
    assert_eq!(GhostExporter::generate_slug("no\u{a0}break"), "no-break");
    assert_eq!(GhostExporter::generate_slug("Version 2.0"), "version-2-0");
}

#[test]
fn slug_of_lowercase_does_not_change_case() {
    assert_eq!(slug_of_lowercase("hello world"), "hello-world");
    assert_eq!(slug_of_lowercase("Hello World"), "Hello-World");
}

#[test]
fn both_processors_make_the_same_slug() {
    for text in sample_texts() {
        assert_eq!(MarkdownProcessor::generate_slug(text), GhostExporter::generate_slug(text));
        assert_eq!(slug_of(text), GhostExporter::generate_slug(text));
    }
    assert_eq!(MarkdownProcessor::generate_slug("a_b"), "a-b");
    assert_eq!(MarkdownProcessor::generate_slug("a    b"), "a-b");
    assert_eq!(MarkdownProcessor::generate_slug("a - b"), "a-b");
    assert_eq!(MarkdownProcessor::generate_slug("a\tb"), "a-b");
    assert_eq!(MarkdownProcessor::generate_slug("C++ / Rust & Go"), "c-rust-go");
}

#[test]
fn slug_with_its_stability() {
    for text in sample_texts() {
        let (slug, stable) = stable_slug(text);
        assert_eq!(slug, GhostExporter::generate_slug(text));
        assert_eq!(stable, slug.to_lowercase() == slug);
        assert!(stable, "for {:?}", text);
        assert_eq!(GhostExporter::generate_slug(&slug), slug);
    }
}

#[test]
fn texts_that_keep_their_case() {
    assert!(keeps_case(""));
    assert!(keeps_case("hello-world 1"));
    assert!(keeps_case("straße"));
    assert!(keeps_case("日本語"));
    assert!(!keeps_case("Hello"));
    assert!(!keeps_case("ÉCOLE"));
    assert!(!keeps_case("İ"));
}

fn generated_texts(longest: usize) -> Vec<String> {
    let pieces = ["a", "B", " ", "-", "_", "!", "é", "Σ", "\t", "\u{a0}", "1", "ß"];
    let mut texts: Vec<String> = vec![String::new()];
    for _ in 0..longest {
        let mut longer = Vec::new();
        for text in &texts {
            for piece in pieces {
                longer.push(format!("{}{}", text, piece));
            }
        }
        texts.extend(longer);
        texts.sort();
        texts.dedup();
    }
    texts
}

#[test]
fn slug_agrees_with_the_string_operations() {
    let texts = generated_texts(4);
    assert!(texts.len() > 20_000);
    for text in texts.iter().map(String::as_str).chain(sample_texts()) {
        let expected = text
            .to_lowercase()
            .chars()
            .map(|c| if c.is_alphanumeric() || c == ' ' { c } else { ' ' })
            .collect::<String>()
            .split_whitespace()
            .collect::<Vec<&str>>()
            .join("-");
        let slug = GhostExporter::generate_slug(text);
        assert_eq!(slug, expected, "for {:?}", text);
        assert_eq!(GhostExporter::generate_slug(&slug), slug, "for {:?}", text);
        assert_eq!(MarkdownProcessor::generate_slug(text), expected, "for {:?}", text);
        assert_eq!(stable_slug(text), (slug, true), "for {:?}", text);
    }
}
