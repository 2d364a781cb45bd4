//! The export as a mathematical fold: the state that the builder carries, what
//! each step does to it, and the dataset that results.

use crate::dates::{export_date, instant_or};
use crate::models::ghost::{
    DataView, GhostImportView, MetaView, PostView, PostsAuthorsView, PostsTagsView, TagView,
    UserView,
};
use crate::models::markdown::{FrontmatterView, ProcessedMarkdownView};
use crate::slug::slug;
use crate::timestamp::Timestamp;
use vstd::prelude::*;

verus! {

/// What the builder carries from step to step: the next identifier to hand
/// out, and the data gathered so far.
pub struct ExportState {
    pub next_id: int,
    pub data: DataView,
}

/// The decimal digit of a number below ten.
pub open spec fn digit(d: nat) -> char {
    if d == 0 {
        '0'
    } else if d == 1 {
        '1'
    } else if d == 2 {
        '2'
    } else if d == 3 {
        '3'
    } else if d == 4 {
        '4'
    } else if d == 5 {
        '5'
    } else if d == 6 {
        '6'
    } else if d == 7 {
        '7'
    } else if d == 8 {
        '8'
    } else {
        '9'
    }
}

/// A number written in decimal, without leading zeros.
pub open spec fn decimal(n: nat) -> Seq<char>
    decreases n,
{
    if n < 10 {
        seq![digit(n)]
    } else {
        decimal(n / 10).push(digit(n % 10))
    }
}

/// The position of the first of the names that equals `name`, or the number
/// of names where none does.
pub open spec fn first_index_of(names: Seq<Seq<char>>, name: Seq<char>) -> int
    decreases names.len(),
{
    if names.len() == 0 {
        0
    } else if names[0] == name {
        0
    } else {
        1 + first_index_of(names.skip(1), name)
    }
}

/// Where the first occurrence of a name lies: at a name equal to it, after
/// names that differ from it.
pub proof fn lemma_first_index_of(names: Seq<Seq<char>>, name: Seq<char>)
    ensures
        0 <= first_index_of(names, name) <= names.len(),
        first_index_of(names, name) < names.len() ==> names[first_index_of(names, name)] == name,
        forall|j: int| 0 <= j < first_index_of(names, name) ==> names[j] != name,
    decreases names.len(),
{
    if names.len() > 0 && names[0] != name {
        let rest = names.skip(1);
        lemma_first_index_of(rest, name);
        let k = first_index_of(rest, name);
        assert forall|j: int| 0 <= j < 1 + k implies names[j] != name by {
            if j > 0 {
                assert(rest[j - 1] == names[j]);
            }
        }
    }
}

/// A position that holds the name, after names that differ from it, is the
/// first occurrence.
pub proof fn lemma_first_index_is(names: Seq<Seq<char>>, name: Seq<char>, at: int)
    requires
        0 <= at <= names.len(),
        at < names.len() ==> names[at] == name,
        forall|j: int| 0 <= j < at ==> names[j] != name,
    ensures
        first_index_of(names, name) == at,
{
    lemma_first_index_of(names, name);
}

/// The names of the tags, in order.
pub open spec fn tag_names(tags: Seq<TagView>) -> Seq<Seq<char>> {
    Seq::new(tags.len(), |i: int| tags[i].name)
}

/// The names of the users, in order.
pub open spec fn user_names(users: Seq<UserView>) -> Seq<Seq<char>> {
    Seq::new(users.len(), |i: int| users[i].name)
}

/// Whether a tag of that name is registered.
pub open spec fn has_tag(tags: Seq<TagView>, name: Seq<char>) -> bool {
    first_index_of(tag_names(tags), name) < tags.len()
}

/// The identifier of the tag registered under that name.
pub open spec fn tag_id(tags: Seq<TagView>, name: Seq<char>) -> int {
    tags[first_index_of(tag_names(tags), name)].id
}

/// Whether a user of that name is registered.
pub open spec fn has_user(users: Seq<UserView>, name: Seq<char>) -> bool {
    first_index_of(user_names(users), name) < users.len()
}

/// The identifier of the user registered under that name.
pub open spec fn user_id(users: Seq<UserView>, name: Seq<char>) -> int {
    users[first_index_of(user_names(users), name)].id
}

/// The tag that a name gives rise to.
pub open spec fn new_tag(id: int, name: Seq<char>, now: Timestamp) -> TagView {
    TagView::named(id, name, slug(name), now)
}

/// The user that a name gives rise to: the e-mail address is the slug at
/// `example.com`.
pub open spec fn new_user(id: int, name: Seq<char>, now: Timestamp) -> UserView {
    UserView::named(id, name, slug(name), slug(name) + "@example.com"@, now)
}

impl ExportState {
    /// The state before anything is registered: identifiers start at 1.
    pub open spec fn start() -> ExportState {
        ExportState { next_id: 1, data: DataView::empty() }
    }

    /// Registers a tag under the name unless one is registered already. A new
    /// tag draws one identifier.
    pub open spec fn with_tag(self, name: Seq<char>, now: Timestamp) -> ExportState {
        if has_tag(self.data.tags, name) {
            self
        } else {
            ExportState {
                next_id: self.next_id + 1,
                data: DataView {
                    tags: self.data.tags.push(new_tag(self.next_id, name, now)),
                    ..self.data
                },
            }
        }
    }

    /// Registers a tag for each name, in order.
    pub open spec fn with_tags(self, names: Seq<Seq<char>>, now: Timestamp) -> ExportState
        decreases names.len(),
    {
        if names.len() == 0 {
            self
        } else {
            self.with_tags(names.drop_last(), now).with_tag(names.last(), now)
        }
    }

    /// Registers a user under the name unless one is registered already. A new
    /// user draws one identifier.
    pub open spec fn with_user(self, name: Seq<char>, now: Timestamp) -> ExportState {
        if has_user(self.data.users, name) {
            self
        } else {
            ExportState {
                next_id: self.next_id + 1,
                data: DataView {
                    users: self.data.users.push(new_user(self.next_id, name, now)),
                    ..self.data
                },
            }
        }
    }

    /// Looks up or registers the tag, then adds the row that joins the post to
    /// it. The row draws one identifier, after the tag's.
    pub open spec fn with_tag_link(
        self,
        post_id: int,
        name: Seq<char>,
        now: Timestamp,
    ) -> ExportState {
        let registered = self.with_tag(name, now);
        ExportState {
            next_id: registered.next_id + 1,
            data: DataView {
                posts_tags: registered.data.posts_tags.push(
                    PostsTagsView {
                        id: registered.next_id,
                        post_id,
                        tag_id: tag_id(registered.data.tags, name),
                    },
                ),
                ..registered.data
            },
        }
    }

    /// Joins the post to each of the named tags, in order.
    pub open spec fn with_tag_links(
        self,
        post_id: int,
        names: Seq<Seq<char>>,
        now: Timestamp,
    ) -> ExportState
        decreases names.len(),
    {
        if names.len() == 0 {
            self
        } else {
            self.with_tag_links(post_id, names.drop_last(), now).with_tag_link(
                post_id,
                names.last(),
                now,
            )
        }
    }

    /// Looks up or registers the user, then adds the row that joins the post
    /// to its author. The row draws one identifier, after the user's.
    pub open spec fn with_author_link(
        self,
        post_id: int,
        name: Seq<char>,
        now: Timestamp,
    ) -> ExportState {
        let registered = self.with_user(name, now);
        ExportState {
            next_id: registered.next_id + 1,
            data: DataView {
                posts_authors: registered.data.posts_authors.push(
                    PostsAuthorsView {
                        id: registered.next_id,
                        post_id,
                        author_id: user_id(registered.data.users, name),
                    },
                ),
                ..registered.data
            },
        }
    }

    /// Joins the post to each of the named authors, in order.
    pub open spec fn with_author_links(
        self,
        post_id: int,
        names: Seq<Seq<char>>,
        now: Timestamp,
    ) -> ExportState
        decreases names.len(),
    {
        if names.len() == 0 {
            self
        } else {
            self.with_author_links(post_id, names.drop_last(), now).with_author_link(
                post_id,
                names.last(),
                now,
            )
        }
    }

    /// Adds the post of a document.
    pub open spec fn with_post(self, post: PostView) -> ExportState {
        ExportState {
            next_id: self.next_id + 1,
            data: DataView { posts: self.data.posts.push(post), ..self.data },
        }
    }

    /// Folds one document into the state: its post, then its tags, then its
    /// authors. `position` counts the documents from 1.
    pub open spec fn with_document(
        self,
        document: ProcessedMarkdownView,
        position: nat,
        default_author: Option<Seq<char>>,
        now: Timestamp,
    ) -> ExportState {
        let post_id = self.next_id;
        self.with_post(post_of(document, post_id, position, now)).with_tag_links(
            post_id,
            tag_list(document.frontmatter),
            now,
        ).with_author_links(post_id, author_list(document.frontmatter, default_author), now)
    }

    /// Folds the documents into the state, in order.
    pub open spec fn with_documents(
        self,
        documents: Seq<ProcessedMarkdownView>,
        default_author: Option<Seq<char>>,
        now: Timestamp,
    ) -> ExportState
        decreases documents.len(),
    {
        if documents.len() == 0 {
            self
        } else {
            self.with_documents(documents.drop_last(), default_author, now).with_document(
                documents.last(),
                documents.len(),
                default_author,
                now,
            )
        }
    }

    /// The state once the defaults are registered: the default author first,
    /// then the default tags.
    pub open spec fn with_defaults(
        self,
        default_author: Option<Seq<char>>,
        default_tags: Seq<Seq<char>>,
        now: Timestamp,
    ) -> ExportState {
        let authored = match default_author {
            Some(name) => self.with_user(name, now),
            None => self,
        };
        authored.with_tags(default_tags, now)
    }

    /// The data section that the state gives: where no user or no tag was
    /// registered, one stands in, with identifier 1.
    pub open spec fn finished(self, now: Timestamp) -> DataView {
        DataView {
            users: if self.data.users.len() == 0 {
                seq![fallback_user(now)]
            } else {
                self.data.users
            },
            tags: if self.data.tags.len() == 0 {
                seq![fallback_tag(now)]
            } else {
                self.data.tags
            },
            ..self.data
        }
    }
}

/// The user that stands in where an export has none.
pub open spec fn fallback_user(now: Timestamp) -> UserView {
    UserView::named(1, "Default Author"@, "default-author"@, "author@example.com"@, now)
}

/// The tag that stands in where an export has none.
pub open spec fn fallback_tag(now: Timestamp) -> TagView {
    TagView::named(1, "General"@, "general"@, now)
}

/// The title of a document: the one it declares, else "Untitled Post" and its
/// position.
pub open spec fn title_of(frontmatter: FrontmatterView, position: nat) -> Seq<char> {
    match frontmatter.title {
        Some(title) => title,
        None => "Untitled Post "@ + decimal(position),
    }
}

/// The feature image of a document: the `image` field, else the first of
/// `images`.
pub open spec fn feature_image_of(frontmatter: FrontmatterView) -> Option<Seq<char>> {
    match frontmatter.image {
        Some(image) => Some(image),
        None => match frontmatter.images {
            Some(images) => if images.len() > 0 {
                Some(images[0])
            } else {
                None
            },
            None => None,
        },
    }
}

/// The status of a document: a draft where it is flagged as one, else the
/// status it declares, else published.
pub open spec fn status_of(frontmatter: FrontmatterView) -> Seq<char> {
    if frontmatter.draft == Some(true) {
        "draft"@
    } else {
        match frontmatter.status {
            Some(status) => status,
            None => "published"@,
        }
    }
}

/// The excerpt of a document: its description, else its summary.
pub open spec fn excerpt_of(frontmatter: FrontmatterView) -> Option<Seq<char>> {
    match frontmatter.description {
        Some(description) => Some(description),
        None => frontmatter.summary,
    }
}

/// When a document was published: the instant its date encodes, else `now`.
pub open spec fn published_at_of(frontmatter: FrontmatterView, now: Timestamp) -> Timestamp {
    match frontmatter.date {
        Some(date) => instant_or(export_date(date), now),
        None => now,
    }
}

/// The post that a document gives rise to.
pub open spec fn post_of(
    document: ProcessedMarkdownView,
    id: int,
    position: nat,
    now: Timestamp,
) -> PostView {
    let frontmatter = document.frontmatter;
    let title = title_of(frontmatter, position);
    PostView {
        id,
        title,
        slug: match frontmatter.slug {
            Some(slug) => slug,
            None => slug(title),
        },
        html: Some(document.html_content),
        feature_image: feature_image_of(frontmatter),
        featured: Some(
            if frontmatter.featured == Some(true) {
                1int
            } else {
                0int
            },
        ),
        status: status_of(frontmatter),
        published_at: Some(published_at_of(frontmatter, now)),
        custom_excerpt: excerpt_of(frontmatter),
        ..PostView::blank(now)
    }
}

/// The tag names of a document, in the order it lists them.
pub open spec fn tag_list(frontmatter: FrontmatterView) -> Seq<Seq<char>> {
    match frontmatter.tags {
        Some(tags) => tags,
        None => Seq::empty(),
    }
}

/// The name that stands in where neither a document nor the run names an
/// author.
pub open spec fn fallback_author() -> Seq<char> {
    "Default Author"@
}

/// The authors of a document: its `authors` list where that has a name, else
/// its `author`, else the default author of the run, else the fallback name.
pub open spec fn author_list(
    frontmatter: FrontmatterView,
    default_author: Option<Seq<char>>,
) -> Seq<Seq<char>> {
    if frontmatter.authors is Some && frontmatter.authors->0.len() > 0 {
        frontmatter.authors->0
    } else if frontmatter.author is Some {
        seq![frontmatter.author->0]
    } else if default_author is Some {
        seq![default_author->0]
    } else {
        seq![fallback_author()]
    }
}

/// The state after the defaults and every document.
pub open spec fn export_state(
    documents: Seq<ProcessedMarkdownView>,
    default_author: Option<Seq<char>>,
    default_tags: Seq<Seq<char>>,
    now: Timestamp,
) -> ExportState {
    ExportState::start().with_defaults(default_author, default_tags, now).with_documents(
        documents,
        default_author,
        now,
    )
}

/// The export of the documents made at `now`.
pub open spec fn export_of(
    documents: Seq<ProcessedMarkdownView>,
    default_author: Option<Seq<char>>,
    default_tags: Seq<Seq<char>>,
    now: Timestamp,
) -> GhostImportView {
    GhostImportView {
        meta: MetaView::at(now),
        data: export_state(documents, default_author, default_tags, now).finished(now),
    }
}

} // verus!
