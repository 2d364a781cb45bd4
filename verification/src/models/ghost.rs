//! The relational dataset that a Ghost import holds: posts, tags, users and
//! the rows that join them.

use crate::timestamp::{current_time, Timestamp};
use vstd::prelude::*;
use vstd::string::StringExecFns;

verus! {

/// The root of an export: metadata and the data section.
#[derive(Debug)]
pub struct GhostImport {
    pub meta: Meta,
    pub data: Data,
}

/// When the export was made, in milliseconds since the epoch, and the schema
/// version it follows.
#[derive(Debug)]
pub struct Meta {
    pub exported_on: i64,
    pub version: String,
}

/// The entities of an export and the relations between them.
#[derive(Debug)]
pub struct Data {
    pub posts: Vec<Post>,
    pub tags: Vec<Tag>,
    pub users: Vec<User>,
    pub posts_tags: Vec<PostsTags>,
    pub posts_authors: Vec<PostsAuthors>,
    pub roles_users: Vec<RolesUsers>,
}

/// A post: one for each document.
#[derive(Debug, Clone)]
pub struct Post {
    pub id: i32,
    pub title: String,
    pub slug: String,
    pub html: Option<String>,
    pub feature_image: Option<String>,
    pub featured: Option<i32>,
    pub status: String,
    pub post_type: String,
    pub published_at: Option<Timestamp>,
    pub created_at: Timestamp,
    pub updated_at: Timestamp,
    pub custom_excerpt: Option<String>,
    pub meta_title: Option<String>,
    pub meta_description: Option<String>,
    pub visibility: String,
    pub show_title_and_feature_image: Option<i32>,
    pub email_only: Option<i32>,
}

/// A tag, registered once under its name.
#[derive(Debug, Clone)]
pub struct Tag {
    pub id: i32,
    pub name: String,
    pub slug: String,
    pub description: Option<String>,
    pub feature_image: Option<String>,
    pub meta_title: Option<String>,
    pub meta_description: Option<String>,
    pub created_at: Timestamp,
    pub updated_at: Timestamp,
}

/// A user, registered once under its name.
#[derive(Debug, Clone)]
pub struct User {
    pub id: i32,
    pub name: String,
    pub slug: String,
    pub email: String,
    pub profile_image: Option<String>,
    pub cover_image: Option<String>,
    pub bio: Option<String>,
    pub website: Option<String>,
    pub location: Option<String>,
    pub facebook: Option<String>,
    pub twitter: Option<String>,
    pub created_at: Timestamp,
    pub updated_at: Timestamp,
}

/// One row of the relation between posts and tags.
#[derive(Debug, Clone, Copy, PartialEq, Eq)]
pub struct PostsTags {
    pub id: i32,
    pub post_id: i32,
    pub tag_id: i32,
}

/// One row of the relation between posts and their authors.
#[derive(Debug, Clone, Copy, PartialEq, Eq)]
pub struct PostsAuthors {
    pub id: i32,
    pub post_id: i32,
    pub author_id: i32,
}

/// One row of the relation between users and roles.
#[derive(Debug, Clone, Copy, PartialEq, Eq)]
pub struct RolesUsers {
    pub id: i32,
    pub user_id: i32,
    pub role_id: i32,
}

/// The schema version that every export declares.
pub open spec fn schema_version() -> Seq<char> {
    "5.75.1"@
}

/// A [`Meta`] as mathematical values.
pub struct MetaView {
    pub exported_on: int,
    pub version: Seq<char>,
}

/// A [`Post`] as mathematical values.
pub struct PostView {
    pub id: int,
    pub title: Seq<char>,
    pub slug: Seq<char>,
    pub html: Option<Seq<char>>,
    pub feature_image: Option<Seq<char>>,
    pub featured: Option<int>,
    pub status: Seq<char>,
    pub post_type: Seq<char>,
    pub published_at: Option<Timestamp>,
    pub created_at: Timestamp,
    pub updated_at: Timestamp,
    pub custom_excerpt: Option<Seq<char>>,
    pub meta_title: Option<Seq<char>>,
    pub meta_description: Option<Seq<char>>,
    pub visibility: Seq<char>,
    pub show_title_and_feature_image: Option<int>,
    pub email_only: Option<int>,
}

/// A [`Tag`] as mathematical values.
pub struct TagView {
    pub id: int,
    pub name: Seq<char>,
    pub slug: Seq<char>,
    pub description: Option<Seq<char>>,
    pub feature_image: Option<Seq<char>>,
    pub meta_title: Option<Seq<char>>,
    pub meta_description: Option<Seq<char>>,
    pub created_at: Timestamp,
    pub updated_at: Timestamp,
}

/// A [`User`] as mathematical values.
pub struct UserView {
    pub id: int,
    pub name: Seq<char>,
    pub slug: Seq<char>,
    pub email: Seq<char>,
    pub profile_image: Option<Seq<char>>,
    pub cover_image: Option<Seq<char>>,
    pub bio: Option<Seq<char>>,
    pub website: Option<Seq<char>>,
    pub location: Option<Seq<char>>,
    pub facebook: Option<Seq<char>>,
    pub twitter: Option<Seq<char>>,
    pub created_at: Timestamp,
    pub updated_at: Timestamp,
}

/// A [`PostsTags`] row as mathematical values.
pub struct PostsTagsView {
    pub id: int,
    pub post_id: int,
    pub tag_id: int,
}

/// A [`PostsAuthors`] row as mathematical values.
pub struct PostsAuthorsView {
    pub id: int,
    pub post_id: int,
    pub author_id: int,
}

/// A [`RolesUsers`] row as mathematical values.
pub struct RolesUsersView {
    pub id: int,
    pub user_id: int,
    pub role_id: int,
}

/// A [`Data`] section as mathematical values.
pub struct DataView {
    pub posts: Seq<PostView>,
    pub tags: Seq<TagView>,
    pub users: Seq<UserView>,
    pub posts_tags: Seq<PostsTagsView>,
    pub posts_authors: Seq<PostsAuthorsView>,
    pub roles_users: Seq<RolesUsersView>,
}

/// A [`GhostImport`] as mathematical values.
pub struct GhostImportView {
    pub meta: MetaView,
    pub data: DataView,
}

/// An optional 32-bit number as an optional mathematical integer.
pub open spec fn wide(n: Option<i32>) -> Option<int> {
    match n {
        Some(v) => Some(v as int),
        None => None,
    }
}

impl PostView {
    /// A post with identifier 1, empty title and slug, published and public,
    /// with every time set to `now`.
    pub open spec fn blank(now: Timestamp) -> PostView {
        PostView {
            id: 1,
            title: Seq::empty(),
            slug: Seq::empty(),
            html: None,
            feature_image: None,
            featured: Some(0),
            status: "published"@,
            post_type: "post"@,
            published_at: Some(now),
            created_at: now,
            updated_at: now,
            custom_excerpt: None,
            meta_title: None,
            meta_description: None,
            visibility: "public"@,
            show_title_and_feature_image: Some(1),
            email_only: Some(0),
        }
    }
}

impl TagView {
    /// A tag with the given identifier, name and slug, created at `now`, with
    /// every optional field absent.
    pub open spec fn named(id: int, name: Seq<char>, slug: Seq<char>, now: Timestamp) -> TagView {
        TagView {
            id,
            name,
            slug,
            description: None,
            feature_image: None,
            meta_title: None,
            meta_description: None,
            created_at: now,
            updated_at: now,
        }
    }
}

impl UserView {
    /// A user with the given identifier, name, slug and e-mail address,
    /// created at `now`, with every optional field absent.
    pub open spec fn named(
        id: int,
        name: Seq<char>,
        slug: Seq<char>,
        email: Seq<char>,
        now: Timestamp,
    ) -> UserView {
        UserView {
            id,
            name,
            slug,
            email,
            profile_image: None,
            cover_image: None,
            bio: None,
            website: None,
            location: None,
            facebook: None,
            twitter: None,
            created_at: now,
            updated_at: now,
        }
    }
}

impl DataView {
    /// The data section that holds nothing.
    pub open spec fn empty() -> DataView {
        DataView {
            posts: Seq::empty(),
            tags: Seq::empty(),
            users: Seq::empty(),
            posts_tags: Seq::empty(),
            posts_authors: Seq::empty(),
            roles_users: Seq::empty(),
        }
    }
}

impl DeepView for Meta {
    type V = MetaView;

    open spec fn deep_view(&self) -> MetaView {
        MetaView { exported_on: self.exported_on as int, version: self.version@ }
    }
}

impl View for Meta {
    type V = MetaView;

    open spec fn view(&self) -> MetaView {
        self.deep_view()
    }
}

impl DeepView for Post {
    type V = PostView;

    open spec fn deep_view(&self) -> PostView {
        PostView {
            id: self.id as int,
            title: self.title@,
            slug: self.slug@,
            html: self.html.deep_view(),
            feature_image: self.feature_image.deep_view(),
            featured: wide(self.featured),
            status: self.status@,
            post_type: self.post_type@,
            published_at: self.published_at,
            created_at: self.created_at,
            updated_at: self.updated_at,
            custom_excerpt: self.custom_excerpt.deep_view(),
            meta_title: self.meta_title.deep_view(),
            meta_description: self.meta_description.deep_view(),
            visibility: self.visibility@,
            show_title_and_feature_image: wide(self.show_title_and_feature_image),
            email_only: wide(self.email_only),
        }
    }
}

impl View for Post {
    type V = PostView;

    open spec fn view(&self) -> PostView {
        self.deep_view()
    }
}

impl DeepView for Tag {
    type V = TagView;

    open spec fn deep_view(&self) -> TagView {
        TagView {
            id: self.id as int,
            name: self.name@,
            slug: self.slug@,
            description: self.description.deep_view(),
            feature_image: self.feature_image.deep_view(),
            meta_title: self.meta_title.deep_view(),
            meta_description: self.meta_description.deep_view(),
            created_at: self.created_at,
            updated_at: self.updated_at,
        }
    }
}

impl View for Tag {
    type V = TagView;

    open spec fn view(&self) -> TagView {
        self.deep_view()
    }
}

impl DeepView for User {
    type V = UserView;

    open spec fn deep_view(&self) -> UserView {
        UserView {
            id: self.id as int,
            name: self.name@,
            slug: self.slug@,
            email: self.email@,
            profile_image: self.profile_image.deep_view(),
            cover_image: self.cover_image.deep_view(),
            bio: self.bio.deep_view(),
            website: self.website.deep_view(),
            location: self.location.deep_view(),
            facebook: self.facebook.deep_view(),
            twitter: self.twitter.deep_view(),
            created_at: self.created_at,
            updated_at: self.updated_at,
        }
    }
}

impl View for User {
    type V = UserView;

    open spec fn view(&self) -> UserView {
        self.deep_view()
    }
}

impl DeepView for PostsTags {
    type V = PostsTagsView;

    open spec fn deep_view(&self) -> PostsTagsView {
        PostsTagsView {
            id: self.id as int,
            post_id: self.post_id as int,
            tag_id: self.tag_id as int,
        }
    }
}

impl View for PostsTags {
    type V = PostsTagsView;

    open spec fn view(&self) -> PostsTagsView {
        self.deep_view()
    }
}

impl DeepView for PostsAuthors {
    type V = PostsAuthorsView;

    open spec fn deep_view(&self) -> PostsAuthorsView {
        PostsAuthorsView {
            id: self.id as int,
            post_id: self.post_id as int,
            author_id: self.author_id as int,
        }
    }
}

impl View for PostsAuthors {
    type V = PostsAuthorsView;

    open spec fn view(&self) -> PostsAuthorsView {
        self.deep_view()
    }
}

impl DeepView for RolesUsers {
    type V = RolesUsersView;

    open spec fn deep_view(&self) -> RolesUsersView {
        RolesUsersView {
            id: self.id as int,
            user_id: self.user_id as int,
            role_id: self.role_id as int,
        }
    }
}

impl View for RolesUsers {
    type V = RolesUsersView;

    open spec fn view(&self) -> RolesUsersView {
        self.deep_view()
    }
}

impl DeepView for Data {
    type V = DataView;

    open spec fn deep_view(&self) -> DataView {
        DataView {
            posts: self.posts.deep_view(),
            tags: self.tags.deep_view(),
            users: self.users.deep_view(),
            posts_tags: self.posts_tags.deep_view(),
            posts_authors: self.posts_authors.deep_view(),
            roles_users: self.roles_users.deep_view(),
        }
    }
}

impl View for Data {
    type V = DataView;

    open spec fn view(&self) -> DataView {
        self.deep_view()
    }
}

impl DeepView for GhostImport {
    type V = GhostImportView;

    open spec fn deep_view(&self) -> GhostImportView {
        GhostImportView { meta: self.meta.deep_view(), data: self.data.deep_view() }
    }
}

impl View for GhostImport {
    type V = GhostImportView;

    open spec fn view(&self) -> GhostImportView {
        self.deep_view()
    }
}

impl MetaView {
    /// The metadata of an export made at `now`: the time in milliseconds, and
    /// the schema version.
    pub open spec fn at(now: Timestamp) -> MetaView {
        MetaView { exported_on: now.millis_since_epoch(), version: schema_version() }
    }
}

impl Meta {
    /// The metadata of an export made at `now`.
    pub fn at(now: Timestamp) -> (r: Meta)
        ensures
            r@ == MetaView::at(now),
    {
        Meta { exported_on: now.millis(), version: String::from_str("5.75.1") }
    }
}

impl Default for Meta {
    /// The metadata of an export made at the time the clock reads.
    fn default() -> (r: Meta)
        ensures
            exists|now: Timestamp| r@ == #[trigger] MetaView::at(now),
    {
        Meta::at(current_time())
    }
}

impl Post {
    /// A post with identifier 1, empty title and slug, published and public,
    /// with every time set to `now`.
    pub fn blank(now: Timestamp) -> (r: Post)
        ensures
            r@ == PostView::blank(now),
    {
        Post {
            id: 1,
            title: String::new(),
            slug: String::new(),
            html: None,
            feature_image: None,
            featured: Some(0),
            status: String::from_str("published"),
            post_type: String::from_str("post"),
            published_at: Some(now),
            created_at: now,
            updated_at: now,
            custom_excerpt: None,
            meta_title: None,
            meta_description: None,
            visibility: String::from_str("public"),
            show_title_and_feature_image: Some(1),
            email_only: Some(0),
        }
    }
}

impl Default for Post {
    /// The blank post of the time the clock reads.
    fn default() -> (r: Post)
        ensures
            r@ == PostView::blank(r.created_at),
    {
        Post::blank(current_time())
    }
}

impl Tag {
    /// A tag with the given identifier, name and slug, created at `now`.
    pub fn named(id: i32, name: String, slug: String, now: Timestamp) -> (r: Tag)
        ensures
            r@ == TagView::named(id as int, name@, slug@, now),
    {
        Tag {
            id,
            name,
            slug,
            description: None,
            feature_image: None,
            meta_title: None,
            meta_description: None,
            created_at: now,
            updated_at: now,
        }
    }
}

impl Default for Tag {
    /// A tag with identifier 1 and no name, created at the time the clock
    /// reads.
    fn default() -> (r: Tag)
        ensures
            r@ == TagView::named(1, Seq::empty(), Seq::empty(), r.created_at),
    {
        Tag::named(1, String::new(), String::new(), current_time())
    }
}

impl User {
    /// A user with the given identifier, name, slug and e-mail address,
    /// created at `now`.
    pub fn named(id: i32, name: String, slug: String, email: String, now: Timestamp) -> (r: User)
        ensures
            r@ == UserView::named(id as int, name@, slug@, email@, now),
    {
        User {
            id,
            name,
            slug,
            email,
            profile_image: None,
            cover_image: None,
            bio: None,
            website: None,
            location: None,
            facebook: None,
            twitter: None,
            created_at: now,
            updated_at: now,
        }
    }
}

impl Default for User {
    /// A user with identifier 1 and no name, created at the time the clock
    /// reads.
    fn default() -> (r: User)
        ensures
            r@ == UserView::named(1, Seq::empty(), Seq::empty(), Seq::empty(), r.created_at),
    {
        User::named(1, String::new(), String::new(), String::new(), current_time())
    }
}

} // verus!
