//! The export builder: folds processed documents into the relational dataset,
//! handing out identifiers from one counter and registering each tag and user
//! once.

use crate::dates::{export_date, find_export_date, instant_or};
use crate::error::ExportError;
use crate::models::ghost::{Data, GhostImport, Meta, Post, PostsAuthors, PostsTags, Tag, User};
use crate::models::markdown::{Frontmatter, ProcessedMarkdown, ProcessedMarkdownView};
use crate::processors::export_model::{
    author_list, decimal, digit, excerpt_of, export_of, export_state, fallback_tag,
    fallback_user, feature_image_of, has_tag, has_user, lemma_first_index_is,
    lemma_first_index_of, new_tag, new_user, post_of, status_of, tag_id, tag_list, tag_names,
    title_of, user_id, user_names, ExportState,
};
use crate::slug::{slug, slug_of};
use crate::text::{is_alphanumeric, string_of};
use crate::timestamp::{current_time, Timestamp};
use vstd::prelude::*;
use vstd::string::StringExecFns;

verus! {

/// Builds the dataset of a Ghost import from processed documents.
pub struct GhostExporter;

/// The data gathered so far and the next identifier to hand out.
struct Builder {
    data: Data,
    next_id: i32,
}

impl Builder {
    /// The state of the fold that the builder stands for.
    spec fn view(&self) -> ExportState {
        ExportState { next_id: self.next_id as int, data: self.data@ }
    }

    /// Identifiers start at 1.
    spec fn wf(&self) -> bool {
        1 <= self.next_id
    }

    /// The builder that holds nothing yet.
    fn new() -> (r: Builder)
        ensures
            r@ == ExportState::start(),
            r.wf(),
    {
        let r = Builder {
            data: Data {
                posts: Vec::new(),
                tags: Vec::new(),
                users: Vec::new(),
                posts_tags: Vec::new(),
                posts_authors: Vec::new(),
                roles_users: Vec::new(),
            },
            next_id: 1,
        };
        assert(r.data.posts.deep_view() =~= Seq::empty());
        assert(r.data.tags.deep_view() =~= Seq::empty());
        assert(r.data.users.deep_view() =~= Seq::empty());
        assert(r.data.posts_tags.deep_view() =~= Seq::empty());
        assert(r.data.posts_authors.deep_view() =~= Seq::empty());
        assert(r.data.roles_users.deep_view() =~= Seq::empty());
        r
    }

    /// Hands out the next identifier, unless the counter is at its end.
    fn draw(&mut self) -> (r: Result<i32, ExportError>)
        requires
            old(self).wf(),
        ensures
            final(self).wf(),
            final(self).data == old(self).data,
            match r {
                Ok(id) => id == old(self).next_id && final(self).next_id == id + 1,
                Err(_) => old(self).next_id == i32::MAX && final(self).next_id == i32::MAX,
            },
    {
        if self.next_id == i32::MAX {
            Err(ExportError::IdentifiersExhausted)
        } else {
            let id = self.next_id;
            self.next_id = id + 1;
            Ok(id)
        }
    }

    /// The identifier of the tag registered under the name, if there is one.
    fn find_tag(&self, name: &String) -> (r: Option<i32>)
        ensures
            r is Some <==> has_tag(self@.data.tags, name@),
            r matches Some(id) ==> id == tag_id(self@.data.tags, name@),
    {
        let ghost names = tag_names(self@.data.tags);
        let mut i: usize = 0;
        while i < self.data.tags.len()
            invariant
                i <= self.data.tags.len(),
                names == tag_names(self@.data.tags),
                forall|j: int| 0 <= j < i ==> names[j] != name@,
            decreases self.data.tags.len() - i,
        {
            if self.data.tags[i].name == *name {
                proof {
                    lemma_first_index_is(names, name@, i as int);
                }
                return Some(self.data.tags[i].id);
            }
            i += 1;
        }
        proof {
            lemma_first_index_is(names, name@, names.len() as int);
        }
        None
    }

    /// Registers a tag under the name unless one is registered already, and
    /// returns its identifier.
    fn register_tag(&mut self, name: String, now: Timestamp) -> (r: Result<i32, ExportError>)
        requires
            old(self).wf(),
        ensures
            final(self).wf(),
            match r {
                Ok(id) => final(self)@ == old(self)@.with_tag(name@, now) && id == tag_id(
                    final(self)@.data.tags,
                    name@,
                ),
                Err(_) => old(self)@.with_tag(name@, now).next_id > i32::MAX,
            },
    {
        match self.find_tag(&name) {
            Some(id) => Ok(id),
            None => {
                let id = match self.draw() {
                    Ok(id) => id,
                    Err(e) => {
                        return Err(e);
                    },
                };
                let slug = GhostExporter::generate_slug(name.as_str());
                let tag = Tag::named(id, name, slug, now);
                let ghost before = self.data.tags.deep_view();
                self.data.tags.push(tag);
                proof {
                    let after = self.data.tags.deep_view();
                    assert(after =~= before.push(new_tag(id as int, name@, now)));
                    assert(tag_names(after) =~= tag_names(before).push(name@));
                    lemma_first_index_of(tag_names(before), name@);
                    lemma_first_index_is(tag_names(after), name@, before.len() as int);
                }
                Ok(id)
            },
        }
    }

    /// Looks up or registers the tag, then adds the row that joins the post to
    /// it.
    fn link_tag(&mut self, post_id: i32, name: String, now: Timestamp) -> (r: Result<
        (),
        ExportError,
    >)
        requires
            old(self).wf(),
        ensures
            final(self).wf(),
            match r {
                Ok(_) => final(self)@ == old(self)@.with_tag_link(post_id as int, name@, now),
                Err(_) => old(self)@.with_tag_link(post_id as int, name@, now).next_id > i32::MAX,
            },
    {
        let tag_id = match self.register_tag(name, now) {
            Ok(id) => id,
            Err(e) => {
                return Err(e);
            },
        };
        let id = match self.draw() {
            Ok(id) => id,
            Err(e) => {
                return Err(e);
            },
        };
        let ghost before = self.data.posts_tags.deep_view();
        let row = PostsTags { id, post_id, tag_id };
        self.data.posts_tags.push(row);
        assert(self.data.posts_tags.deep_view() =~= before.push(row@));
        Ok(())
    }

    /// Joins the post to each of the named tags, in order.
    fn link_tags(&mut self, post_id: i32, names: &Vec<String>, now: Timestamp) -> (r: Result<
        (),
        ExportError,
    >)
        requires
            old(self).wf(),
        ensures
            final(self).wf(),
            match r {
                Ok(_) => final(self)@ == old(self)@.with_tag_links(
                    post_id as int,
                    names.deep_view(),
                    now,
                ),
                Err(_) => old(self)@.with_tag_links(post_id as int, names.deep_view(), now).next_id
                    > i32::MAX,
            },
    {
        let ghost start = self@;
        let ghost all = names.deep_view();
        let mut i: usize = 0;
        while i < names.len()
            invariant
                i <= names.len(),
                self.wf(),
                start == old(self)@,
                all == names.deep_view(),
                self@ == start.with_tag_links(post_id as int, all.take(i as int), now),
            decreases names.len() - i,
        {
            proof {
                assert(all.take(i + 1).drop_last() == all.take(i as int));
                assert(all.take(i + 1).last() == names[i as int]@);
            }
            let ghost previous = self@;
            match self.link_tag(post_id, names[i].clone(), now) {
                Ok(_) => {},
                Err(e) => {
                    proof {
                        assert(start.with_tag_links(post_id as int, all.take(i + 1), now)
                            == previous.with_tag_link(post_id as int, all[i as int], now));
                        lemma_tag_links_grow(start, post_id as int, all, i + 1, now);
                    }
                    return Err(e);
                },
            }
            i += 1;
        }
        assert(all.take(names.len() as int) == all);
        Ok(())
    }

    /// The identifier of the user registered under the name, if there is one.
    fn find_user(&self, name: &String) -> (r: Option<i32>)
        ensures
            r is Some <==> has_user(self@.data.users, name@),
            r matches Some(id) ==> id == user_id(self@.data.users, name@),
    {
        let ghost names = user_names(self@.data.users);
        let mut i: usize = 0;
        while i < self.data.users.len()
            invariant
                i <= self.data.users.len(),
                names == user_names(self@.data.users),
                forall|j: int| 0 <= j < i ==> names[j] != name@,
            decreases self.data.users.len() - i,
        {
            if self.data.users[i].name == *name {
                proof {
                    lemma_first_index_is(names, name@, i as int);
                }
                return Some(self.data.users[i].id);
            }
            i += 1;
        }
        proof {
            lemma_first_index_is(names, name@, names.len() as int);
        }
        None
    }

    /// Registers a user under the name unless one is registered already, and
    /// returns its identifier.
    fn register_user(&mut self, name: String, now: Timestamp) -> (r: Result<i32, ExportError>)
        requires
            old(self).wf(),
        ensures
            final(self).wf(),
            match r {
                Ok(id) => final(self)@ == old(self)@.with_user(name@, now) && id == user_id(
                    final(self)@.data.users,
                    name@,
                ),
                Err(_) => old(self)@.with_user(name@, now).next_id > i32::MAX,
            },
    {
        match self.find_user(&name) {
            Some(id) => Ok(id),
            None => {
                let id = match self.draw() {
                    Ok(id) => id,
                    Err(e) => {
                        return Err(e);
                    },
                };
                let slug = GhostExporter::generate_slug(name.as_str());
                let mut email = slug.clone();
                email.append("@example.com");
                let user = User::named(id, name, slug, email, now);
                let ghost before = self.data.users.deep_view();
                self.data.users.push(user);
                proof {
                    let after = self.data.users.deep_view();
                    assert(after =~= before.push(new_user(id as int, name@, now)));
                    assert(user_names(after) =~= user_names(before).push(name@));
                    lemma_first_index_of(user_names(before), name@);
                    lemma_first_index_is(user_names(after), name@, before.len() as int);
                }
                Ok(id)
            },
        }
    }

    /// Looks up or registers the user, then adds the row that joins the post
    /// to its author.
    fn link_author(&mut self, post_id: i32, name: String, now: Timestamp) -> (r: Result<
        (),
        ExportError,
    >)
        requires
            old(self).wf(),
        ensures
            final(self).wf(),
            match r {
                Ok(_) => final(self)@ == old(self)@.with_author_link(post_id as int, name@, now),
                Err(_) => old(self)@.with_author_link(post_id as int, name@, now).next_id
                    > i32::MAX,
            },
    {
        let author_id = match self.register_user(name, now) {
            Ok(id) => id,
            Err(e) => {
                return Err(e);
            },
        };
        let id = match self.draw() {
            Ok(id) => id,
            Err(e) => {
                return Err(e);
            },
        };
        let ghost before = self.data.posts_authors.deep_view();
        let row = PostsAuthors { id, post_id, author_id };
        self.data.posts_authors.push(row);
        assert(self.data.posts_authors.deep_view() =~= before.push(row@));
        Ok(())
    }

    /// Joins the post to each of the named authors, in order.
    fn link_authors(&mut self, post_id: i32, names: &Vec<String>, now: Timestamp) -> (r: Result<
        (),
        ExportError,
    >)
        requires
            old(self).wf(),
        ensures
            final(self).wf(),
            match r {
                Ok(_) => final(self)@ == old(self)@.with_author_links(
                    post_id as int,
                    names.deep_view(),
                    now,
                ),
                Err(_) => old(self)@.with_author_links(
                    post_id as int,
                    names.deep_view(),
                    now,
                ).next_id > i32::MAX,
            },
    {
        let ghost start = self@;
        let ghost all = names.deep_view();
        let mut i: usize = 0;
        while i < names.len()
            invariant
                i <= names.len(),
                self.wf(),
                start == old(self)@,
                all == names.deep_view(),
                self@ == start.with_author_links(post_id as int, all.take(i as int), now),
            decreases names.len() - i,
        {
            proof {
                assert(all.take(i + 1).drop_last() == all.take(i as int));
                assert(all.take(i + 1).last() == names[i as int]@);
            }
            let ghost previous = self@;
            match self.link_author(post_id, names[i].clone(), now) {
                Ok(_) => {},
                Err(e) => {
                    proof {
                        assert(start.with_author_links(post_id as int, all.take(i + 1), now)
                            == previous.with_author_link(post_id as int, all[i as int], now));
                        lemma_author_links_grow(start, post_id as int, all, i + 1, now);
                    }
                    return Err(e);
                },
            }
            i += 1;
        }
        assert(all.take(names.len() as int) == all);
        Ok(())
    }
}

impl Builder {
    /// Registers a tag for each name, in order.
    fn register_tags(&mut self, names: &Vec<String>, now: Timestamp) -> (r: Result<
        (),
        ExportError,
    >)
        requires
            old(self).wf(),
        ensures
            final(self).wf(),
            match r {
                Ok(_) => final(self)@ == old(self)@.with_tags(names.deep_view(), now),
                Err(_) => old(self)@.with_tags(names.deep_view(), now).next_id > i32::MAX,
            },
    {
        let ghost start = self@;
        let ghost all = names.deep_view();
        let mut i: usize = 0;
        while i < names.len()
            invariant
                i <= names.len(),
                self.wf(),
                start == old(self)@,
                all == names.deep_view(),
                self@ == start.with_tags(all.take(i as int), now),
            decreases names.len() - i,
        {
            proof {
                assert(all.take(i + 1).drop_last() == all.take(i as int));
                assert(all.take(i + 1).last() == names[i as int]@);
            }
            let ghost previous = self@;
            match self.register_tag(names[i].clone(), now) {
                Ok(_) => {},
                Err(e) => {
                    proof {
                        assert(start.with_tags(all.take(i + 1), now) == previous.with_tag(
                            all[i as int],
                            now,
                        ));
                        lemma_tags_grow(start, all, i + 1, now);
                    }
                    return Err(e);
                },
            }
            i += 1;
        }
        assert(all.take(names.len() as int) == all);
        Ok(())
    }

    /// Folds one document into the data: its post, then its tags, then its
    /// authors.
    fn add_document(
        &mut self,
        document: &ProcessedMarkdown,
        position: usize,
        default_author: &Option<String>,
        now: Timestamp,
    ) -> (r: Result<(), ExportError>)
        requires
            old(self).wf(),
        ensures
            final(self).wf(),
            match r {
                Ok(_) => final(self)@ == old(self)@.with_document(
                    document@,
                    position as nat,
                    default_author.deep_view(),
                    now,
                ),
                Err(_) => old(self)@.with_document(
                    document@,
                    position as nat,
                    default_author.deep_view(),
                    now,
                ).next_id > i32::MAX,
            },
    {
        proof {
            lemma_document_grows(
                self@,
                document@,
                position as nat,
                default_author.deep_view(),
                now,
            );
        }
        let post_id = match self.draw() {
            Ok(id) => id,
            Err(e) => {
                return Err(e);
            },
        };
        let post = build_post(document, post_id, position, now);
        let ghost before = self.data.posts.deep_view();
        self.data.posts.push(post);
        assert(self.data.posts.deep_view() =~= before.push(post@));
        match &document.frontmatter.tags {
            Some(tags) => {
                match self.link_tags(post_id, tags, now) {
                    Ok(_) => {},
                    Err(e) => {
                        return Err(e);
                    },
                }
            },
            None => {},
        }
        let authors = authors_of(&document.frontmatter, default_author);
        self.link_authors(post_id, &authors, now)
    }

    /// Folds the documents into the data, in order.
    fn add_documents(
        &mut self,
        documents: &Vec<ProcessedMarkdown>,
        default_author: &Option<String>,
        now: Timestamp,
    ) -> (r: Result<(), ExportError>)
        requires
            old(self).wf(),
        ensures
            final(self).wf(),
            match r {
                Ok(_) => final(self)@ == old(self)@.with_documents(
                    documents.deep_view(),
                    default_author.deep_view(),
                    now,
                ),
                Err(_) => old(self)@.with_documents(
                    documents.deep_view(),
                    default_author.deep_view(),
                    now,
                ).next_id > i32::MAX,
            },
    {
        let ghost start = self@;
        let ghost all = documents.deep_view();
        let ghost author = default_author.deep_view();
        let mut i: usize = 0;
        while i < documents.len()
            invariant
                i <= documents.len(),
                self.wf(),
                start == old(self)@,
                all == documents.deep_view(),
                author == default_author.deep_view(),
                self@ == start.with_documents(all.take(i as int), author, now),
            decreases documents.len() - i,
        {
            proof {
                assert(all.take(i + 1).drop_last() == all.take(i as int));
                assert(all.take(i + 1).last() == documents[i as int]@);
            }
            let ghost previous = self@;
            match self.add_document(&documents[i], i + 1, default_author, now) {
                Ok(_) => {},
                Err(e) => {
                    proof {
                        assert(start.with_documents(all.take(i + 1), author, now)
                            == previous.with_document(all[i as int], (i + 1) as nat, author, now));
                        lemma_documents_grow(start, all, i + 1, author, now);
                    }
                    return Err(e);
                },
            }
            i += 1;
        }
        assert(all.take(documents.len() as int) == all);
        Ok(())
    }

    /// Puts the stand-in user and tag where none was registered, and hands out
    /// the data.
    fn finish(self, now: Timestamp) -> (r: Data)
        ensures
            r@ == self@.finished(now),
    {
        let mut data = self.data;
        if data.users.len() == 0 {
            let user = User::named(
                1,
                String::from_str("Default Author"),
                String::from_str("default-author"),
                String::from_str("author@example.com"),
                now,
            );
            data.users.push(user);
            assert(data.users.deep_view() =~= seq![fallback_user(now)]);
        }
        if data.tags.len() == 0 {
            let tag = Tag::named(
                1,
                String::from_str("General"),
                String::from_str("general"),
                now,
            );
            data.tags.push(tag);
            assert(data.tags.deep_view() =~= seq![fallback_tag(now)]);
        }
        data
    }
}

/// The decimal digit of a number below ten.
fn digit_char(d: usize) -> (c: char)
    requires
        d < 10,
    ensures
        c == digit(d as nat),
{
    if d == 0 {
        '0'
    } else if d == 1 {
        '1'
    } else if d == 2 {
        '2'
    } else if d == 3 {
        '3'
    } else if d == 4 {
        '4'
    } else if d == 5 {
        '5'
    } else if d == 6 {
        '6'
    } else if d == 7 {
        '7'
    } else if d == 8 {
        '8'
    } else {
        '9'
    }
}

/// Appends a number in decimal.
fn push_decimal(n: usize, out: &mut Vec<char>)
    ensures
        final(out)@ == old(out)@ + decimal(n as nat),
    decreases n,
{
    if n >= 10 {
        push_decimal(n / 10, out);
    }
    out.push(digit_char(n % 10));
}

/// The title of a document: the one it declares, else "Untitled Post" and its
/// position.
fn title_for(frontmatter: &Frontmatter, position: usize) -> (r: String)
    ensures
        r@ == title_of(frontmatter@, position as nat),
{
    match &frontmatter.title {
        Some(title) => title.clone(),
        None => {
            let mut digits: Vec<char> = Vec::new();
            push_decimal(position, &mut digits);
            let number = string_of(&digits);
            let mut title = String::from_str("Untitled Post ");
            title.append(number.as_str());
            assert(Seq::<char>::empty() + decimal(position as nat) == decimal(position as nat));
            title
        },
    }
}

/// The feature image of a document: the `image` field, else the first of
/// `images`.
fn feature_image_for(frontmatter: &Frontmatter) -> (r: Option<String>)
    ensures
        r.deep_view() == feature_image_of(frontmatter@),
{
    match &frontmatter.image {
        Some(image) => Some(image.clone()),
        None => match &frontmatter.images {
            Some(images) => if images.len() > 0 {
                Some(images[0].clone())
            } else {
                None
            },
            None => None,
        },
    }
}

/// The status of a document: a draft where it is flagged as one, else the
/// status it declares, else published.
fn status_for(frontmatter: &Frontmatter) -> (r: String)
    ensures
        r@ == status_of(frontmatter@),
{
    let is_draft = match frontmatter.draft {
        Some(flag) => flag,
        None => false,
    };
    if is_draft {
        String::from_str("draft")
    } else {
        match &frontmatter.status {
            Some(status) => status.clone(),
            None => String::from_str("published"),
        }
    }
}

/// The excerpt of a document: its description, else its summary.
fn excerpt_for(frontmatter: &Frontmatter) -> (r: Option<String>)
    ensures
        r.deep_view() == excerpt_of(frontmatter@),
{
    match &frontmatter.description {
        Some(description) => Some(description.clone()),
        None => frontmatter.summary.clone(),
    }
}

/// The post that a document gives rise to.
fn build_post(document: &ProcessedMarkdown, id: i32, position: usize, now: Timestamp) -> (r: Post)
    ensures
        r@ == post_of(document@, id as int, position as nat, now),
{
    let frontmatter = &document.frontmatter;
    let title = title_for(frontmatter, position);
    let slug = match &frontmatter.slug {
        Some(slug) => slug.clone(),
        None => GhostExporter::generate_slug(title.as_str()),
    };
    let featured: i32 = match frontmatter.featured {
        Some(true) => 1,
        _ => 0,
    };
    let published_at = match &frontmatter.date {
        Some(date) => GhostExporter::parse_date_or(date.as_str(), now),
        None => now,
    };
    Post {
        id,
        title,
        slug,
        html: Some(document.html_content.clone()),
        feature_image: feature_image_for(frontmatter),
        featured: Some(featured),
        status: status_for(frontmatter),
        post_type: String::from_str("post"),
        published_at: Some(published_at),
        created_at: now,
        updated_at: now,
        custom_excerpt: excerpt_for(frontmatter),
        meta_title: None,
        meta_description: None,
        visibility: String::from_str("public"),
        show_title_and_feature_image: Some(1),
        email_only: Some(0),
    }
}

/// The authors of a document: its `authors` list where that has a name, else
/// its `author`, else the default author of the run, else the fallback name.
fn authors_of(frontmatter: &Frontmatter, default_author: &Option<String>) -> (r: Vec<String>)
    ensures
        r.deep_view() == author_list(frontmatter@, default_author.deep_view()),
{
    if let Some(list) = &frontmatter.authors {
        if list.len() > 0 {
            let mut names: Vec<String> = Vec::new();
            let mut i: usize = 0;
            while i < list.len()
                invariant
                    i <= list.len(),
                    names.deep_view() == list.deep_view().take(i as int),
                decreases list.len() - i,
            {
                let ghost before = names.deep_view();
                names.push(list[i].clone());
                assert(names.deep_view() =~= before.push(list[i as int]@));
                assert(list.deep_view().take(i + 1) =~= list.deep_view().take(i as int).push(
                    list[i as int]@,
                ));
                i += 1;
            }
            assert(list.deep_view().take(list.len() as int) =~= list.deep_view());
            return names;
        }
    }
    let name = match &frontmatter.author {
        Some(author) => author.clone(),
        None => match default_author {
            Some(author) => author.clone(),
            None => String::from_str("Default Author"),
        },
    };
    let mut names: Vec<String> = Vec::new();
    names.push(name);
    assert(names.deep_view() =~= seq![name@]);
    names
}

/// Registering default tags never lowers the counter.
pub proof fn lemma_tags_grow(state: ExportState, names: Seq<Seq<char>>, count: int, now: Timestamp)
    requires
        0 <= count <= names.len(),
    ensures
        state.with_tags(names.take(count), now).next_id <= state.with_tags(names, now).next_id,
    decreases names.len(),
{
    if count == names.len() {
        assert(names.take(count) == names);
    } else {
        lemma_tags_grow(state, names.drop_last(), count, now);
        assert(names.drop_last().take(count) == names.take(count));
    }
}

/// Within one document the counter never falls: not from the post to its tags,
/// nor from its tags to its authors.
pub proof fn lemma_document_grows(
    state: ExportState,
    document: ProcessedMarkdownView,
    position: nat,
    default_author: Option<Seq<char>>,
    now: Timestamp,
)
    ensures
        ({
            let posted = state.with_post(post_of(document, state.next_id, position, now));
            let tagged = posted.with_tag_links(state.next_id, tag_list(document.frontmatter), now);
            let done = state.with_document(document, position, default_author, now);
            state.next_id < posted.next_id <= tagged.next_id <= done.next_id
        }),
{
    let posted = state.with_post(post_of(document, state.next_id, position, now));
    let tags = tag_list(document.frontmatter);
    let tagged = posted.with_tag_links(state.next_id, tags, now);
    let authors = author_list(document.frontmatter, default_author);
    lemma_tag_links_grow(posted, state.next_id, tags, 0, now);
    assert(tags.take(0) == Seq::<Seq<char>>::empty());
    lemma_author_links_grow(tagged, state.next_id, authors, 0, now);
    assert(authors.take(0) == Seq::<Seq<char>>::empty());
}

/// Folding more documents never lowers the counter.
pub proof fn lemma_documents_grow(
    state: ExportState,
    documents: Seq<ProcessedMarkdownView>,
    count: int,
    default_author: Option<Seq<char>>,
    now: Timestamp,
)
    requires
        0 <= count <= documents.len(),
    ensures
        state.with_documents(documents.take(count), default_author, now).next_id
            <= state.with_documents(documents, default_author, now).next_id,
    decreases documents.len(),
{
    if count == documents.len() {
        assert(documents.take(count) == documents);
    } else {
        lemma_documents_grow(state, documents.drop_last(), count, default_author, now);
        assert(documents.drop_last().take(count) == documents.take(count));
        lemma_document_grows(
            state.with_documents(documents.drop_last(), default_author, now),
            documents.last(),
            documents.len(),
            default_author,
            now,
        );
    }
}

/// Registering a tag never lowers the counter.
pub proof fn lemma_tag_links_grow(
    state: ExportState,
    post_id: int,
    names: Seq<Seq<char>>,
    count: int,
    now: Timestamp,
)
    requires
        0 <= count <= names.len(),
    ensures
        state.with_tag_links(post_id, names.take(count), now).next_id <= state.with_tag_links(
            post_id,
            names,
            now,
        ).next_id,
    decreases names.len(),
{
    if count == names.len() {
        assert(names.take(count) == names);
    } else {
        lemma_tag_links_grow(state, post_id, names.drop_last(), count, now);
        assert(names.drop_last().take(count) == names.take(count));
    }
}

/// Registering an author never lowers the counter.
pub proof fn lemma_author_links_grow(
    state: ExportState,
    post_id: int,
    names: Seq<Seq<char>>,
    count: int,
    now: Timestamp,
)
    requires
        0 <= count <= names.len(),
    ensures
        state.with_author_links(post_id, names.take(count), now).next_id
            <= state.with_author_links(post_id, names, now).next_id,
    decreases names.len(),
{
    if count == names.len() {
        assert(names.take(count) == names);
    } else {
        lemma_author_links_grow(state, post_id, names.drop_last(), count, now);
        assert(names.drop_last().take(count) == names.take(count));
    }
}

impl GhostExporter {
    /// The slug of a text: its lower-case form, cut into words at every
    /// character that is not alphanumeric, the words joined by hyphens.
    pub fn generate_slug(text: &str) -> (r: String)
        ensures
            r@ == slug(text@),
            forall|k: int| 0 <= k < r@.len() ==> #[trigger] r@[k] == '-' || is_alphanumeric(r@[k]),
            r@.len() > 0 ==> r@[0] != '-' && r@.last() != '-',
    {
        slug_of(text)
    }

    /// The instant that a date string encodes, or `fallback` where no layout
    /// parses it.
    pub fn parse_date_or(date_str: &str, fallback: Timestamp) -> (r: Timestamp)
        ensures
            r == instant_or(export_date(date_str@), fallback),
    {
        match find_export_date(date_str) {
            Some(instant) => instant,
            None => fallback,
        }
    }

    /// The instant that a date string encodes, or the time the clock reads
    /// where no layout parses it.
    pub fn parse_date(date_str: &str) -> (r: Timestamp)
        ensures
            export_date(date_str@) matches Some(instant) ==> r == instant,
    {
        match find_export_date(date_str) {
            Some(instant) => instant,
            None => current_time(),
        }
    }

    /// Builds the export of the documents as of `now`: the default author and
    /// tags are registered first, then each document is folded in, in order.
    /// Fails where the identifiers run out.
    pub fn create_export_at(
        posts: Vec<ProcessedMarkdown>,
        default_author: Option<&str>,
        default_tags: Vec<String>,
        now: Timestamp,
    ) -> (r: Result<GhostImport, ExportError>)
        ensures
            export_outcome(
                r,
                posts.deep_view(),
                default_author.deep_view(),
                default_tags.deep_view(),
                now,
            ),
    {
        let author: Option<String> = match default_author {
            Some(name) => Some(name.to_owned()),
            None => None,
        };
        let ghost documents = posts.deep_view();
        let ghost author_name = default_author.deep_view();
        let ghost tag_names = default_tags.deep_view();
        assert(author.deep_view() == author_name);
        let mut builder = Builder::new();
        let ghost start = builder@;
        let ghost authored = match author_name {
            Some(name) => start.with_user(name, now),
            None => start,
        };
        proof {
            lemma_tags_grow(authored, tag_names, 0, now);
            assert(tag_names.take(0) == Seq::<Seq<char>>::empty());
            lemma_documents_grow(
                start.with_defaults(author_name, tag_names, now),
                documents,
                0,
                author_name,
                now,
            );
            assert(documents.take(0) == Seq::<ProcessedMarkdownView>::empty());
        }
        match &author {
            Some(name) => {
                match builder.register_user(name.clone(), now) {
                    Ok(_) => {},
                    Err(e) => {
                        return Err(e);
                    },
                }
            },
            None => {},
        }
        match builder.register_tags(&default_tags, now) {
            Ok(_) => {},
            Err(e) => {
                return Err(e);
            },
        }
        match builder.add_documents(&posts, &author, now) {
            Ok(_) => {},
            Err(e) => {
                return Err(e);
            },
        }
        let data = builder.finish(now);
        Ok(GhostImport { meta: Meta::at(now), data })
    }

    /// Builds the export of the documents as of the time the clock reads.
    pub fn create_export(
        posts: Vec<ProcessedMarkdown>,
        default_author: Option<&str>,
        default_tags: Vec<String>,
    ) -> (r: Result<GhostImport, ExportError>)
        ensures
            exists|now: Timestamp| #[trigger]
                export_outcome(
                    r,
                    posts.deep_view(),
                    default_author.deep_view(),
                    default_tags.deep_view(),
                    now,
                ),
    {
        let now = current_time();
        GhostExporter::create_export_at(posts, default_author, default_tags, now)
    }
}

/// What building an export returns: the export of the model where the
/// identifiers it draws fit a 32-bit counter, and the error where they do not.
pub open spec fn export_outcome(
    result: Result<GhostImport, ExportError>,
    documents: Seq<ProcessedMarkdownView>,
    default_author: Option<Seq<char>>,
    default_tags: Seq<Seq<char>>,
    now: Timestamp,
) -> bool {
    let state = export_state(documents, default_author, default_tags, now);
    match result {
        Ok(export) => state.next_id <= i32::MAX && export@ == export_of(
            documents,
            default_author,
            default_tags,
            now,
        ),
        Err(error) => state.next_id > i32::MAX && error == ExportError::IdentifiersExhausted,
    }
}

} // verus!
