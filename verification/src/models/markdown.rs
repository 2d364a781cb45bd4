//! What is read from one Markdown document: its front matter and its body.

use std::collections::HashMap;
use vstd::prelude::*;
use vstd::string::StringExecFns;

verus! {

/// A value of the front matter's open extension map: a scalar, a sequence or
/// a mapping. The export builder carries such values and never reads them.
#[derive(Debug)]
pub enum FieldValue {
    Null,
    Bool(bool),
    Integer(i64),
    /// A number that is no `i64`, in the form in which it was written.
    Number(String),
    Text(String),
    Sequence(Vec<FieldValue>),
    Mapping(Vec<FieldEntry>),
}

/// One entry of a mapping: a key and the value it maps to.
#[derive(Debug)]
pub struct FieldEntry {
    pub key: FieldValue,
    pub value: FieldValue,
}

/// The recognised fields of a document's front matter, and the open map of
/// every other key.
#[derive(Debug)]
pub struct Frontmatter {
    pub title: Option<String>,
    pub date: Option<String>,
    pub author: Option<String>,
    pub tags: Option<Vec<String>>,
    pub slug: Option<String>,
    pub description: Option<String>,
    pub summary: Option<String>,
    pub featured: Option<bool>,
    pub status: Option<String>,
    pub image: Option<String>,
    pub images: Option<Vec<String>>,
    pub category: Option<String>,
    pub draft: Option<bool>,
    pub authors: Option<Vec<String>>,
    pub layout: Option<String>,
    pub extra: HashMap<String, FieldValue>,
}

/// The recognised fields of a [`Frontmatter`] as mathematical values.
pub struct FrontmatterView {
    pub title: Option<Seq<char>>,
    pub date: Option<Seq<char>>,
    pub author: Option<Seq<char>>,
    pub tags: Option<Seq<Seq<char>>>,
    pub slug: Option<Seq<char>>,
    pub description: Option<Seq<char>>,
    pub summary: Option<Seq<char>>,
    pub featured: Option<bool>,
    pub status: Option<Seq<char>>,
    pub image: Option<Seq<char>>,
    pub images: Option<Seq<Seq<char>>>,
    pub category: Option<Seq<char>>,
    pub draft: Option<bool>,
    pub authors: Option<Seq<Seq<char>>>,
    pub layout: Option<Seq<char>>,
}

impl FrontmatterView {
    /// The front matter of a document that declares nothing: not featured,
    /// published, no draft, every other field absent.
    pub open spec fn defaults() -> FrontmatterView {
        FrontmatterView {
            title: None,
            date: None,
            author: None,
            tags: None,
            slug: None,
            description: None,
            summary: None,
            featured: Some(false),
            status: Some("published"@),
            image: None,
            images: None,
            category: None,
            draft: Some(false),
            authors: None,
            layout: None,
        }
    }
}

impl DeepView for Frontmatter {
    type V = FrontmatterView;

    open spec fn deep_view(&self) -> FrontmatterView {
        FrontmatterView {
            title: self.title.deep_view(),
            date: self.date.deep_view(),
            author: self.author.deep_view(),
            tags: self.tags.deep_view(),
            slug: self.slug.deep_view(),
            description: self.description.deep_view(),
            summary: self.summary.deep_view(),
            featured: self.featured,
            status: self.status.deep_view(),
            image: self.image.deep_view(),
            images: self.images.deep_view(),
            category: self.category.deep_view(),
            draft: self.draft,
            authors: self.authors.deep_view(),
            layout: self.layout.deep_view(),
        }
    }
}

impl View for Frontmatter {
    type V = FrontmatterView;

    open spec fn view(&self) -> FrontmatterView {
        self.deep_view()
    }
}

impl Default for Frontmatter {
    /// The front matter of a document that declares nothing.
    fn default() -> (r: Frontmatter)
        ensures
            r@ == FrontmatterView::defaults(),
            r.extra@ == Map::<String, FieldValue>::empty(),
    {
        Frontmatter {
            title: None,
            date: None,
            author: None,
            tags: None,
            slug: None,
            description: None,
            summary: None,
            featured: Some(false),
            status: Some(String::from_str("published")),
            image: None,
            images: None,
            category: None,
            draft: Some(false),
            authors: None,
            layout: None,
            extra: HashMap::new(),
        }
    }
}

/// One document after processing: its front matter, its Markdown body, the
/// body rendered to HTML, the path it came from and the image sources found in
/// the HTML.
#[derive(Debug)]
pub struct ProcessedMarkdown {
    pub frontmatter: Frontmatter,
    pub content: String,
    pub html_content: String,
    pub file_path: String,
    pub images: Vec<String>,
}

/// A [`ProcessedMarkdown`] as mathematical values.
pub struct ProcessedMarkdownView {
    pub frontmatter: FrontmatterView,
    pub content: Seq<char>,
    pub html_content: Seq<char>,
    pub file_path: Seq<char>,
    pub images: Seq<Seq<char>>,
}

impl DeepView for ProcessedMarkdown {
    type V = ProcessedMarkdownView;

    open spec fn deep_view(&self) -> ProcessedMarkdownView {
        ProcessedMarkdownView {
            frontmatter: self.frontmatter.deep_view(),
            content: self.content@,
            html_content: self.html_content@,
            file_path: self.file_path@,
            images: self.images.deep_view(),
        }
    }
}

impl View for ProcessedMarkdown {
    type V = ProcessedMarkdownView;

    open spec fn view(&self) -> ProcessedMarkdownView {
        self.deep_view()
    }
}

} // verus!
