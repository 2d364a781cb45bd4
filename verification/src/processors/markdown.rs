//! The document processor: from the text of a Markdown document to its front
//! matter, its body, the body as HTML and the images the HTML refers to.

use crate::dates::{export_date, find_export_date, instant_or};
use crate::models::markdown::{Frontmatter, FrontmatterView, ProcessedMarkdown};
use crate::processors::frontmatter::{has_frontmatter_block, split_document, split_frontmatter};
use crate::processors::images::{find_image_sources, image_sources};
use crate::slug::{slug, slug_of};
use crate::text::{char_is_whitespace, chars_of, is_alphanumeric, is_whitespace};
use crate::timestamp::{current_time, Timestamp};
use vstd::prelude::*;

verus! {

/// Processes the text of Markdown documents.
pub struct MarkdownProcessor;

/// The HTML that the Markdown renderer gives for a text, with each of the
/// four extensions switched on or off.
pub uninterp spec fn rendered_html(
    markdown: Seq<char>,
    tables: bool,
    footnotes: bool,
    strikethrough: bool,
    tasklists: bool,
) -> Seq<char>;

/// Calls `pulldown_cmark::Parser::new_ext` with the extensions that are
/// switched on, and `pulldown_cmark::html::push_html` on an empty string.
/// Trusted: the HTML is a function of the text and the four switches alone,
/// named by [`rendered_html`].
#[verifier::external_body]
fn render(
    markdown: &str,
    tables: bool,
    footnotes: bool,
    strikethrough: bool,
    tasklists: bool,
) -> (r: String)
    ensures
        r@ == rendered_html(markdown@, tables, footnotes, strikethrough, tasklists),
{
    let mut options = pulldown_cmark::Options::empty();
    options.set(pulldown_cmark::Options::ENABLE_TABLES, tables);
    options.set(pulldown_cmark::Options::ENABLE_FOOTNOTES, footnotes);
    options.set(pulldown_cmark::Options::ENABLE_STRIKETHROUGH, strikethrough);
    options.set(pulldown_cmark::Options::ENABLE_TASKLISTS, tasklists);
    let parser = pulldown_cmark::Parser::new_ext(markdown, options);
    let mut html_output = String::new();
    pulldown_cmark::html::push_html(&mut html_output, parser);
    html_output
}

/// Whether a text holds nothing but whitespace.
pub open spec fn is_blank(text: Seq<char>) -> bool {
    forall|i: int| 0 <= i < text.len() ==> is_whitespace(#[trigger] text[i])
}

impl MarkdownProcessor {
    /// Splits a document into the text of its front matter and its body. A
    /// document without a front-matter block is all body.
    pub fn extract_frontmatter(content: &str) -> (r: (String, String))
        ensures
            (r.0@, r.1@) == split_document(content@),
            !has_frontmatter_block(content@) ==> r.0@.len() == 0 && r.1@ == content@,
    {
        split_frontmatter(content)
    }

    /// The front matter of a document whose front-matter text is blank: the
    /// defaults. `None` where the text has content, which a decoder of the
    /// front-matter format must read.
    pub fn parse_frontmatter(frontmatter_str: &str) -> (r: Option<Frontmatter>)
        ensures
            r is Some <==> is_blank(frontmatter_str@),
            r matches Some(frontmatter) ==> frontmatter@ == FrontmatterView::defaults()
                && frontmatter.extra@.len() == 0,
    {
        let chars = chars_of(frontmatter_str);
        let mut i: usize = 0;
        while i < chars.len()
            invariant
                i <= chars.len(),
                chars@ == frontmatter_str@,
                forall|j: int| 0 <= j < i ==> is_whitespace(#[trigger] chars@[j]),
            decreases chars.len() - i,
        {
            if !char_is_whitespace(chars[i]) {
                assert(!is_whitespace(frontmatter_str@[i as int]));
                return None;
            }
            i += 1;
        }
        let frontmatter = Frontmatter::default();
        assert(frontmatter.extra@.len() == 0);
        Some(frontmatter)
    }

    /// Renders Markdown to HTML, with tables, footnotes, strikethrough and
    /// task lists.
    pub fn markdown_to_html(markdown: &str) -> (r: String)
        ensures
            r@ == rendered_html(markdown@, true, true, true, true),
    {
        render(markdown, true, true, true, true)
    }

    /// The image sources of rendered HTML: for each `<img` tag the value of
    /// its last `src` attribute, in document order, duplicates kept.
    pub fn extract_images(html: &str) -> (r: Vec<String>)
        ensures
            r.deep_view() == image_sources(html@),
    {
        find_image_sources(html)
    }

    /// The slug of a title: its lower-case form, cut into words at every
    /// character that is not alphanumeric, the words joined by hyphens.
    pub fn generate_slug(title: &str) -> (r: String)
        ensures
            r@ == slug(title@),
            forall|k: int| 0 <= k < r@.len() ==> #[trigger] r@[k] == '-' || is_alphanumeric(r@[k]),
            r@.len() > 0 ==> r@[0] != '-' && r@.last() != '-',
    {
        slug_of(title)
    }

    /// The instant that a date string encodes, or `fallback` where no layout
    /// parses it.
    pub fn parse_date_or(date_str: &str, fallback: Timestamp) -> (r: Timestamp)
        ensures
            r == instant_or(export_date(date_str@), fallback),
    {
        match find_export_date(date_str) {
            Some(instant) => instant,
            None => fallback,
        }
    }

    /// The instant that a date string encodes, or the time the clock reads
    /// where no layout parses it.
    pub fn parse_date(date_str: &str) -> (r: Timestamp)
        ensures
            export_date(date_str@) matches Some(instant) ==> r == instant,
    {
        match find_export_date(date_str) {
            Some(instant) => instant,
            None => current_time(),
        }
    }

    /// Processes the body of a document: renders it and collects the images
    /// of the rendered HTML.
    pub fn process_document(frontmatter: Frontmatter, markdown: String, file_path: &str) -> (r:
        ProcessedMarkdown)
        ensures
            r.frontmatter == frontmatter,
            r.content == markdown,
            r.html_content@ == rendered_html(markdown@, true, true, true, true),
            r.file_path@ == file_path@,
            r.images.deep_view() == image_sources(r.html_content@),
    {
        let html_content = MarkdownProcessor::markdown_to_html(markdown.as_str());
        let images = MarkdownProcessor::extract_images(html_content.as_str());
        ProcessedMarkdown {
            frontmatter,
            content: markdown,
            html_content,
            file_path: file_path.to_owned(),
            images,
        }
    }
}

} // verus!
