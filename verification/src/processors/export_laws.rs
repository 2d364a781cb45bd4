//! What holds of every export: identifiers are never handed out twice, names
//! are registered once, and every row of a relation points at entities of the
//! dataset.

use crate::models::ghost::{DataView, PostView, TagView, UserView};
use crate::models::markdown::ProcessedMarkdownView;
use crate::processors::export_model::{
    author_list, export_of, export_state, fallback_tag, fallback_user, first_index_of, has_tag,
    has_user, lemma_first_index_is, lemma_first_index_of, new_tag, new_user, post_of, tag_id,
    tag_list, tag_names, user_id, user_names, ExportState,
};
use crate::timestamp::Timestamp;
use vstd::prelude::*;

verus! {

/// Every identifier of a data section: those of the posts, the tags and the
/// users, then those of the rows of the three relations.
pub open spec fn all_ids(data: DataView) -> Seq<int> {
    Seq::new(data.posts.len(), |i: int| data.posts[i].id) + Seq::new(
        data.tags.len(),
        |i: int| data.tags[i].id,
    ) + Seq::new(data.users.len(), |i: int| data.users[i].id) + Seq::new(
        data.posts_tags.len(),
        |i: int| data.posts_tags[i].id,
    ) + Seq::new(data.posts_authors.len(), |i: int| data.posts_authors[i].id) + Seq::new(
        data.roles_users.len(),
        |i: int| data.roles_users[i].id,
    )
}

/// No two positions of the sequence hold the same value.
pub open spec fn distinct<T>(values: Seq<T>) -> bool {
    forall|i: int, j: int| 0 <= i < j < values.len() ==> values[i] != values[j]
}

/// The identifiers handed out so far are distinct and lie below the counter,
/// and the first of them, where one was handed out, is 1.
pub open spec fn ids_fresh(state: ExportState) -> bool {
    &&& 1 <= state.next_id
    &&& distinct(all_ids(state.data))
    &&& forall|i: int|
        0 <= i < all_ids(state.data).len() ==> 1 <= #[trigger] all_ids(state.data)[i]
            < state.next_id
    &&& state.next_id > 1 ==> holds_value(all_ids(state.data), 1)
    &&& all_ids(state.data).len() > 0 ==> state.next_id > 1
}

/// Whether a sequence holds a value.
pub open spec fn holds_value(values: Seq<int>, value: int) -> bool {
    exists|i: int| 0 <= i < values.len() && values[i] == value
}

/// Putting a value into a sequence keeps the values it holds.
pub proof fn lemma_insert_keeps(values: Seq<int>, at: int, value: int, other: int)
    requires
        0 <= at <= values.len(),
        holds_value(values, other) || other == value,
    ensures
        holds_value(values.insert(at, value), other),
{
    let grown = values.insert(at, value);
    if holds_value(values, other) {
        let i = choose|i: int| 0 <= i < values.len() && values[i] == other;
        if i < at {
            assert(grown[i] == other);
        } else {
            assert(grown[i + 1] == other);
        }
    } else {
        assert(grown[at] == other);
    }
}

/// Putting a value into a sequence that holds it already makes it occur
/// twice.
pub proof fn lemma_insert_repeats(values: Seq<int>, at: int, value: int)
    requires
        0 <= at <= values.len(),
        holds_value(values, value),
    ensures
        !distinct(values.insert(at, value)),
{
    let grown = values.insert(at, value);
    let i = choose|i: int| 0 <= i < values.len() && values[i] == value;
    if i < at {
        assert(grown[i] == grown[at]);
    } else {
        assert(grown[at] == grown[i + 1]);
    }
}

/// Putting a value that a sequence does not hold into it keeps its values
/// distinct.
pub proof fn lemma_insert_fresh(values: Seq<int>, at: int, value: int)
    requires
        distinct(values),
        0 <= at <= values.len(),
        forall|i: int| 0 <= i < values.len() ==> values[i] != value,
    ensures
        distinct(values.insert(at, value)),
{
    let grown = values.insert(at, value);
    assert forall|i: int, j: int| 0 <= i < j < grown.len() implies grown[i] != grown[j] by {
        let a = if i < at {
            i
        } else {
            i - 1
        };
        let b = if j < at {
            j
        } else {
            j - 1
        };
        if i != at && j != at {
            assert(grown[i] == values[a]);
            assert(grown[j] == values[b]);
        } else if i == at {
            assert(grown[j] == values[b]);
        } else {
            assert(grown[i] == values[a]);
        }
    }
}

/// Handing the next identifier to one more entity or row keeps the
/// identifiers fresh.
pub proof fn lemma_draw_keeps_fresh(state: ExportState, next: ExportState, at: int)
    requires
        ids_fresh(state),
        next.next_id == state.next_id + 1,
        0 <= at <= all_ids(state.data).len(),
        all_ids(next.data) == all_ids(state.data).insert(at, state.next_id),
    ensures
        ids_fresh(next),
{
    let before = all_ids(state.data);
    let after = all_ids(next.data);
    lemma_insert_fresh(before, at, state.next_id);
    lemma_insert_keeps(before, at, state.next_id, 1);
    assert forall|i: int| 0 <= i < after.len() implies 1 <= #[trigger] after[i]
        < next.next_id by {
        if i < at {
            assert(after[i] == before[i]);
        } else if i > at {
            assert(after[i] == before[i - 1]);
        }
    }
}

/// Adding a post keeps the identifiers fresh.
pub proof fn lemma_post_keeps_fresh(state: ExportState, post: PostView)
    requires
        ids_fresh(state),
        post.id == state.next_id,
    ensures
        ids_fresh(state.with_post(post)),
{
    let next = state.with_post(post);
    let at = state.data.posts.len() as int;
    assert(all_ids(next.data) =~= all_ids(state.data).insert(at, state.next_id));
    lemma_draw_keeps_fresh(state, next, at);
}

/// Registering a tag keeps the identifiers fresh.
pub proof fn lemma_tag_keeps_fresh(state: ExportState, name: Seq<char>, now: Timestamp)
    requires
        ids_fresh(state),
    ensures
        ids_fresh(state.with_tag(name, now)),
{
    if !has_tag(state.data.tags, name) {
        let next = state.with_tag(name, now);
        let at = (state.data.posts.len() + state.data.tags.len()) as int;
        assert(all_ids(next.data) =~= all_ids(state.data).insert(at, state.next_id));
        lemma_draw_keeps_fresh(state, next, at);
    }
}

/// Registering a user keeps the identifiers fresh.
pub proof fn lemma_user_keeps_fresh(state: ExportState, name: Seq<char>, now: Timestamp)
    requires
        ids_fresh(state),
    ensures
        ids_fresh(state.with_user(name, now)),
{
    if !has_user(state.data.users, name) {
        let next = state.with_user(name, now);
        let at = (state.data.posts.len() + state.data.tags.len() + state.data.users.len()) as int;
        assert(all_ids(next.data) =~= all_ids(state.data).insert(at, state.next_id));
        lemma_draw_keeps_fresh(state, next, at);
    }
}

/// Joining a post to a tag keeps the identifiers fresh.
pub proof fn lemma_tag_link_keeps_fresh(
    state: ExportState,
    post_id: int,
    name: Seq<char>,
    now: Timestamp,
)
    requires
        ids_fresh(state),
    ensures
        ids_fresh(state.with_tag_link(post_id, name, now)),
{
    lemma_tag_keeps_fresh(state, name, now);
    let registered = state.with_tag(name, now);
    let next = state.with_tag_link(post_id, name, now);
    let at = (registered.data.posts.len() + registered.data.tags.len()
        + registered.data.users.len() + registered.data.posts_tags.len()) as int;
    assert(all_ids(next.data) =~= all_ids(registered.data).insert(at, registered.next_id));
    lemma_draw_keeps_fresh(registered, next, at);
}

/// Joining a post to an author keeps the identifiers fresh.
pub proof fn lemma_author_link_keeps_fresh(
    state: ExportState,
    post_id: int,
    name: Seq<char>,
    now: Timestamp,
)
    requires
        ids_fresh(state),
    ensures
        ids_fresh(state.with_author_link(post_id, name, now)),
{
    lemma_user_keeps_fresh(state, name, now);
    let registered = state.with_user(name, now);
    let next = state.with_author_link(post_id, name, now);
    let at = (registered.data.posts.len() + registered.data.tags.len()
        + registered.data.users.len() + registered.data.posts_tags.len()
        + registered.data.posts_authors.len()) as int;
    assert(all_ids(next.data) =~= all_ids(registered.data).insert(at, registered.next_id));
    lemma_draw_keeps_fresh(registered, next, at);
}

/// Whether a post of the sequence has the identifier.
pub open spec fn holds_post(posts: Seq<PostView>, id: int) -> bool {
    exists|i: int| 0 <= i < posts.len() && posts[i].id == id
}

/// Whether a tag of the sequence has the identifier.
pub open spec fn holds_tag(tags: Seq<TagView>, id: int) -> bool {
    exists|i: int| 0 <= i < tags.len() && tags[i].id == id
}

/// Whether a user of the sequence has the identifier.
pub open spec fn holds_user(users: Seq<UserView>, id: int) -> bool {
    exists|i: int| 0 <= i < users.len() && users[i].id == id
}

/// Every row of a relation points at entities that the data section holds.
pub open spec fn links_resolve(data: DataView) -> bool {
    &&& forall|i: int|
        0 <= i < data.posts_tags.len() ==> holds_post(
            data.posts,
            (#[trigger] data.posts_tags[i]).post_id,
        ) && holds_tag(data.tags, data.posts_tags[i].tag_id)
    &&& forall|i: int|
        0 <= i < data.posts_authors.len() ==> holds_post(
            data.posts,
            (#[trigger] data.posts_authors[i]).post_id,
        ) && holds_user(data.users, data.posts_authors[i].author_id)
    &&& forall|i: int|
        0 <= i < data.roles_users.len() ==> holds_user(
            data.users,
            (#[trigger] data.roles_users[i]).user_id,
        )
}

/// What the builder keeps true from step to step: identifiers are fresh, no
/// name is registered twice, rows point at registered entities, and no role
/// is assigned.
pub open spec fn coherent(state: ExportState) -> bool {
    &&& ids_fresh(state)
    &&& distinct(tag_names(state.data.tags))
    &&& distinct(user_names(state.data.users))
    &&& links_resolve(state.data)
    &&& state.data.roles_users.len() == 0
}

/// The first sequence is the beginning of the second.
pub open spec fn begins<T>(short: Seq<T>, long: Seq<T>) -> bool {
    &&& short.len() <= long.len()
    &&& forall|i: int| 0 <= i < short.len() ==> short[i] == long[i]
}

/// The later state holds everything that the earlier one holds, in the same
/// places, and its counter is no lower.
pub open spec fn grows_from(later: ExportState, earlier: ExportState) -> bool {
    &&& earlier.next_id <= later.next_id
    &&& begins(earlier.data.posts, later.data.posts)
    &&& begins(earlier.data.tags, later.data.tags)
    &&& begins(earlier.data.users, later.data.users)
    &&& begins(earlier.data.posts_tags, later.data.posts_tags)
    &&& begins(earlier.data.posts_authors, later.data.posts_authors)
    &&& begins(earlier.data.roles_users, later.data.roles_users)
}

/// A tag that is registered stays registered, under the same identifier,
/// when more tags follow.
pub proof fn lemma_tag_lookup_stable(tags: Seq<TagView>, more: Seq<TagView>, name: Seq<char>)
    requires
        begins(tags, more),
        has_tag(tags, name),
    ensures
        has_tag(more, name),
        tag_id(more, name) == tag_id(tags, name),
{
    let at = first_index_of(tag_names(tags), name);
    lemma_first_index_of(tag_names(tags), name);
    assert forall|j: int| 0 <= j < at implies tag_names(more)[j] != name by {
        assert(tag_names(tags)[j] != name);
    }
    assert(tag_names(more)[at] == tag_names(tags)[at]);
    lemma_first_index_is(tag_names(more), name, at);
}

/// A user that is registered stays registered, under the same identifier,
/// when more users follow.
pub proof fn lemma_user_lookup_stable(users: Seq<UserView>, more: Seq<UserView>, name: Seq<char>)
    requires
        begins(users, more),
        has_user(users, name),
    ensures
        has_user(more, name),
        user_id(more, name) == user_id(users, name),
{
    let at = first_index_of(user_names(users), name);
    lemma_first_index_of(user_names(users), name);
    assert forall|j: int| 0 <= j < at implies user_names(more)[j] != name by {
        assert(user_names(users)[j] != name);
    }
    assert(user_names(more)[at] == user_names(users)[at]);
    lemma_first_index_is(user_names(more), name, at);
}

/// After a tag is registered under a name, a tag of that name is there, and
/// the state has grown coherently.
pub proof fn lemma_with_tag(state: ExportState, name: Seq<char>, now: Timestamp)
    requires
        coherent(state),
    ensures
        coherent(state.with_tag(name, now)),
        grows_from(state.with_tag(name, now), state),
        has_tag(state.with_tag(name, now).data.tags, name),
        holds_tag(
            state.with_tag(name, now).data.tags,
            tag_id(state.with_tag(name, now).data.tags, name),
        ),
        state.with_tag(name, now).data.posts == state.data.posts,
        state.with_tag(name, now).data.users == state.data.users,
        state.with_tag(name, now).data.posts_tags == state.data.posts_tags,
        state.with_tag(name, now).data.posts_authors == state.data.posts_authors,
{
    let next = state.with_tag(name, now);
    let names = tag_names(state.data.tags);
    lemma_tag_keeps_fresh(state, name, now);
    lemma_first_index_of(names, name);
    if !has_tag(state.data.tags, name) {
        let grown = tag_names(next.data.tags);
        assert(grown =~= names.push(name));
        lemma_first_index_is(grown, name, names.len() as int);
        assert forall|i: int, j: int| 0 <= i < j < grown.len() implies grown[i] != grown[j] by {
            if j < names.len() {
                assert(grown[i] == names[i] && grown[j] == names[j]);
            } else {
                assert(grown[i] == names[i]);
            }
        }
        assert forall|i: int| 0 <= i < next.data.posts_tags.len() implies holds_post(
            next.data.posts,
            (#[trigger] next.data.posts_tags[i]).post_id,
        ) && holds_tag(next.data.tags, next.data.posts_tags[i].tag_id) by {
            let row = state.data.posts_tags[i];
            assert(holds_tag(state.data.tags, row.tag_id));
            let t = choose|t: int|
                0 <= t < state.data.tags.len() && state.data.tags[t].id == row.tag_id;
            assert(next.data.tags[t].id == row.tag_id);
        }
    }
    let at = first_index_of(tag_names(next.data.tags), name);
    lemma_first_index_of(tag_names(next.data.tags), name);
    assert(next.data.tags[at].id == tag_id(next.data.tags, name));
}

/// After a user is registered under a name, a user of that name is there, and
/// the state has grown coherently.
pub proof fn lemma_with_user(state: ExportState, name: Seq<char>, now: Timestamp)
    requires
        coherent(state),
    ensures
        coherent(state.with_user(name, now)),
        grows_from(state.with_user(name, now), state),
        has_user(state.with_user(name, now).data.users, name),
        holds_user(
            state.with_user(name, now).data.users,
            user_id(state.with_user(name, now).data.users, name),
        ),
        state.with_user(name, now).data.posts == state.data.posts,
        state.with_user(name, now).data.tags == state.data.tags,
        state.with_user(name, now).data.posts_tags == state.data.posts_tags,
        state.with_user(name, now).data.posts_authors == state.data.posts_authors,
{
    let next = state.with_user(name, now);
    let names = user_names(state.data.users);
    lemma_user_keeps_fresh(state, name, now);
    lemma_first_index_of(names, name);
    if !has_user(state.data.users, name) {
        let grown = user_names(next.data.users);
        assert(grown =~= names.push(name));
        lemma_first_index_is(grown, name, names.len() as int);
        assert forall|i: int, j: int| 0 <= i < j < grown.len() implies grown[i] != grown[j] by {
            if j < names.len() {
                assert(grown[i] == names[i] && grown[j] == names[j]);
            } else {
                assert(grown[i] == names[i]);
            }
        }
        assert forall|i: int| 0 <= i < next.data.posts_authors.len() implies holds_post(
            next.data.posts,
            (#[trigger] next.data.posts_authors[i]).post_id,
        ) && holds_user(next.data.users, next.data.posts_authors[i].author_id) by {
            let row = state.data.posts_authors[i];
            assert(holds_user(state.data.users, row.author_id));
            let u = choose|u: int|
                0 <= u < state.data.users.len() && state.data.users[u].id == row.author_id;
            assert(next.data.users[u].id == row.author_id);
        }
    }
    let at = first_index_of(user_names(next.data.users), name);
    lemma_first_index_of(user_names(next.data.users), name);
    assert(next.data.users[at].id == user_id(next.data.users, name));
}

/// After a post is added the state has grown coherently and holds the post.
pub proof fn lemma_with_post(state: ExportState, post: PostView)
    requires
        coherent(state),
        post.id == state.next_id,
    ensures
        coherent(state.with_post(post)),
        grows_from(state.with_post(post), state),
        holds_post(state.with_post(post).data.posts, post.id),
{
    let next = state.with_post(post);
    lemma_post_keeps_fresh(state, post);
    assert(next.data.posts[state.data.posts.len() as int].id == post.id);
    assert forall|i: int| 0 <= i < next.data.posts_tags.len() implies holds_post(
        next.data.posts,
        (#[trigger] next.data.posts_tags[i]).post_id,
    ) && holds_tag(next.data.tags, next.data.posts_tags[i].tag_id) by {
        let row = state.data.posts_tags[i];
        assert(holds_post(state.data.posts, row.post_id));
        let p = choose|p: int|
            0 <= p < state.data.posts.len() && state.data.posts[p].id == row.post_id;
        assert(next.data.posts[p].id == row.post_id);
    }
    assert forall|i: int| 0 <= i < next.data.posts_authors.len() implies holds_post(
        next.data.posts,
        (#[trigger] next.data.posts_authors[i]).post_id,
    ) && holds_user(next.data.users, next.data.posts_authors[i].author_id) by {
        let row = state.data.posts_authors[i];
        assert(holds_post(state.data.posts, row.post_id));
        let p = choose|p: int|
            0 <= p < state.data.posts.len() && state.data.posts[p].id == row.post_id;
        assert(next.data.posts[p].id == row.post_id);
    }
}

/// After a post is joined to a tag, the new row is the last one, it joins the
/// post to the tag of that name, and the state has grown coherently.
pub proof fn lemma_with_tag_link(state: ExportState, post_id: int, name: Seq<char>, now: Timestamp)
    requires
        coherent(state),
        holds_post(state.data.posts, post_id),
    ensures
        coherent(state.with_tag_link(post_id, name, now)),
        grows_from(state.with_tag_link(post_id, name, now), state),
        ({
            let next = state.with_tag_link(post_id, name, now);
            &&& next.data.posts == state.data.posts
            &&& next.data.users == state.data.users
            &&& next.data.posts_authors == state.data.posts_authors
            &&& next.data.posts_tags.len() == state.data.posts_tags.len() + 1
            &&& next.data.posts_tags.last().post_id == post_id
            &&& has_tag(next.data.tags, name)
            &&& next.data.posts_tags.last().tag_id == tag_id(next.data.tags, name)
        }),
{
    lemma_with_tag(state, name, now);
    lemma_tag_link_keeps_fresh(state, post_id, name, now);
    let registered = state.with_tag(name, now);
    let next = state.with_tag_link(post_id, name, now);
    assert forall|i: int| 0 <= i < next.data.posts_tags.len() implies holds_post(
        next.data.posts,
        (#[trigger] next.data.posts_tags[i]).post_id,
    ) && holds_tag(next.data.tags, next.data.posts_tags[i].tag_id) by {
        if i < registered.data.posts_tags.len() {
            assert(next.data.posts_tags[i] == registered.data.posts_tags[i]);
        }
    }
}

/// After a post is joined to an author, the new row is the last one, it joins
/// the post to the user of that name, and the state has grown coherently.
pub proof fn lemma_with_author_link(
    state: ExportState,
    post_id: int,
    name: Seq<char>,
    now: Timestamp,
)
    requires
        coherent(state),
        holds_post(state.data.posts, post_id),
    ensures
        coherent(state.with_author_link(post_id, name, now)),
        grows_from(state.with_author_link(post_id, name, now), state),
        ({
            let next = state.with_author_link(post_id, name, now);
            &&& next.data.posts == state.data.posts
            &&& next.data.tags == state.data.tags
            &&& next.data.posts_tags == state.data.posts_tags
            &&& next.data.posts_authors.len() == state.data.posts_authors.len() + 1
            &&& next.data.posts_authors.last().post_id == post_id
            &&& has_user(next.data.users, name)
            &&& next.data.posts_authors.last().author_id == user_id(next.data.users, name)
        }),
{
    lemma_with_user(state, name, now);
    lemma_author_link_keeps_fresh(state, post_id, name, now);
    let registered = state.with_user(name, now);
    let next = state.with_author_link(post_id, name, now);
    assert forall|i: int| 0 <= i < next.data.posts_authors.len() implies holds_post(
        next.data.posts,
        (#[trigger] next.data.posts_authors[i]).post_id,
    ) && holds_user(next.data.users, next.data.posts_authors[i].author_id) by {
        if i < registered.data.posts_authors.len() {
            assert(next.data.posts_authors[i] == registered.data.posts_authors[i]);
        }
    }
}

/// Growth carries over: what has grown from a state that has grown from
/// another has grown from that one.
pub proof fn lemma_grows_chain(last: ExportState, middle: ExportState, first: ExportState)
    requires
        grows_from(last, middle),
        grows_from(middle, first),
    ensures
        grows_from(last, first),
{
}

/// The row at that place joins the post to the tag registered under the name.
pub open spec fn tag_row_joins(data: DataView, row: int, post_id: int, name: Seq<char>) -> bool {
    &&& 0 <= row < data.posts_tags.len()
    &&& data.posts_tags[row].post_id == post_id
    &&& has_tag(data.tags, name)
    &&& data.posts_tags[row].tag_id == tag_id(data.tags, name)
}

/// The row at that place joins the post to the user registered under the
/// name.
pub open spec fn author_row_joins(
    data: DataView,
    row: int,
    post_id: int,
    name: Seq<char>,
) -> bool {
    &&& 0 <= row < data.posts_authors.len()
    &&& data.posts_authors[row].post_id == post_id
    &&& has_user(data.users, name)
    &&& data.posts_authors[row].author_id == user_id(data.users, name)
}

/// A row that joins a post to the tag of a name still does so after the
/// state has grown.
pub proof fn lemma_tag_row_stable(
    later: ExportState,
    earlier: ExportState,
    row: int,
    post_id: int,
    name: Seq<char>,
)
    requires
        grows_from(later, earlier),
        tag_row_joins(earlier.data, row, post_id, name),
    ensures
        tag_row_joins(later.data, row, post_id, name),
{
    lemma_tag_lookup_stable(earlier.data.tags, later.data.tags, name);
}

/// A row that joins a post to the user of a name still does so after the
/// state has grown.
pub proof fn lemma_author_row_stable(
    later: ExportState,
    earlier: ExportState,
    row: int,
    post_id: int,
    name: Seq<char>,
)
    requires
        grows_from(later, earlier),
        author_row_joins(earlier.data, row, post_id, name),
    ensures
        author_row_joins(later.data, row, post_id, name),
{
    lemma_user_lookup_stable(earlier.data.users, later.data.users, name);
}

/// Registering tags keeps the state coherent, and afterwards each of the
/// names is registered.
pub proof fn lemma_with_tags(state: ExportState, names: Seq<Seq<char>>, now: Timestamp)
    requires
        coherent(state),
    ensures
        coherent(state.with_tags(names, now)),
        grows_from(state.with_tags(names, now), state),
        state.with_tags(names, now).data.posts == state.data.posts,
        state.with_tags(names, now).data.users == state.data.users,
        state.with_tags(names, now).data.posts_tags == state.data.posts_tags,
        state.with_tags(names, now).data.posts_authors == state.data.posts_authors,
        forall|k: int|
            0 <= k < names.len() ==> has_tag(
                state.with_tags(names, now).data.tags,
                #[trigger] names[k],
            ),
    decreases names.len(),
{
    if names.len() > 0 {
        let init = names.drop_last();
        let middle = state.with_tags(init, now);
        let next = state.with_tags(names, now);
        lemma_with_tags(state, init, now);
        lemma_with_tag(middle, names.last(), now);
        assert forall|k: int| 0 <= k < names.len() implies has_tag(
            next.data.tags,
            #[trigger] names[k],
        ) by {
            if k < init.len() {
                assert(init[k] == names[k]);
                lemma_tag_lookup_stable(middle.data.tags, next.data.tags, names[k]);
            }
        }
    }
}

/// Joining a post to a list of tags adds one row for each name, in order,
/// after the rows that were there, and keeps the state coherent.
pub proof fn lemma_with_tag_links(
    state: ExportState,
    post_id: int,
    names: Seq<Seq<char>>,
    now: Timestamp,
)
    requires
        coherent(state),
        holds_post(state.data.posts, post_id),
    ensures
        coherent(state.with_tag_links(post_id, names, now)),
        grows_from(state.with_tag_links(post_id, names, now), state),
        ({
            let next = state.with_tag_links(post_id, names, now);
            &&& next.data.posts == state.data.posts
            &&& next.data.users == state.data.users
            &&& next.data.posts_authors == state.data.posts_authors
            &&& next.data.posts_tags.len() == state.data.posts_tags.len() + names.len()
            &&& forall|k: int|
                0 <= k < names.len() ==> tag_row_joins(
                    next.data,
                    state.data.posts_tags.len() + k,
                    post_id,
                    #[trigger] names[k],
                )
        }),
    decreases names.len(),
{
    if names.len() > 0 {
        let init = names.drop_last();
        let middle = state.with_tag_links(post_id, init, now);
        let next = state.with_tag_links(post_id, names, now);
        lemma_with_tag_links(state, post_id, init, now);
        lemma_with_tag_link(middle, post_id, names.last(), now);
        assert forall|k: int| 0 <= k < names.len() implies tag_row_joins(
            next.data,
            state.data.posts_tags.len() + k,
            post_id,
            #[trigger] names[k],
        ) by {
            if k < init.len() {
                assert(init[k] == names[k]);
                lemma_tag_row_stable(
                    next,
                    middle,
                    state.data.posts_tags.len() + k,
                    post_id,
                    names[k],
                );
            }
        }
    }
}

/// Joining a post to a list of authors adds one row for each name, in order,
/// after the rows that were there, and keeps the state coherent.
pub proof fn lemma_with_author_links(
    state: ExportState,
    post_id: int,
    names: Seq<Seq<char>>,
    now: Timestamp,
)
    requires
        coherent(state),
        holds_post(state.data.posts, post_id),
    ensures
        coherent(state.with_author_links(post_id, names, now)),
        grows_from(state.with_author_links(post_id, names, now), state),
        ({
            let next = state.with_author_links(post_id, names, now);
            &&& next.data.posts == state.data.posts
            &&& next.data.tags == state.data.tags
            &&& next.data.posts_tags == state.data.posts_tags
            &&& next.data.posts_authors.len() == state.data.posts_authors.len() + names.len()
            &&& forall|k: int|
                0 <= k < names.len() ==> author_row_joins(
                    next.data,
                    state.data.posts_authors.len() + k,
                    post_id,
                    #[trigger] names[k],
                )
        }),
    decreases names.len(),
{
    if names.len() > 0 {
        let init = names.drop_last();
        let middle = state.with_author_links(post_id, init, now);
        let next = state.with_author_links(post_id, names, now);
        lemma_with_author_links(state, post_id, init, now);
        lemma_with_author_link(middle, post_id, names.last(), now);
        assert forall|k: int| 0 <= k < names.len() implies author_row_joins(
            next.data,
            state.data.posts_authors.len() + k,
            post_id,
            #[trigger] names[k],
        ) by {
            if k < init.len() {
                assert(init[k] == names[k]);
                lemma_author_row_stable(
                    next,
                    middle,
                    state.data.posts_authors.len() + k,
                    post_id,
                    names[k],
                );
            }
        }
    }
}

/// The number of rows that join the first `count` documents to their tags.
pub open spec fn tag_rows_before(documents: Seq<ProcessedMarkdownView>, count: int) -> int
    decreases count,
{
    if count <= 0 {
        0
    } else {
        tag_rows_before(documents, count - 1) + tag_list(documents[count - 1].frontmatter).len()
    }
}

/// The number of rows that join the first `count` documents to their authors.
pub open spec fn author_rows_before(
    documents: Seq<ProcessedMarkdownView>,
    default_author: Option<Seq<char>>,
    count: int,
) -> int
    decreases count,
{
    if count <= 0 {
        0
    } else {
        author_rows_before(documents, default_author, count - 1) + author_list(
            documents[count - 1].frontmatter,
            default_author,
        ).len()
    }
}

/// The row for the tag at place `k` of document `d` joins the post of that
/// document to the tag registered under that name.
pub open spec fn document_tag_joined(
    documents: Seq<ProcessedMarkdownView>,
    data: DataView,
    d: int,
    k: int,
) -> bool {
    tag_row_joins(
        data,
        tag_rows_before(documents, d) + k,
        data.posts[d].id,
        tag_list(documents[d].frontmatter)[k],
    )
}

/// The row for the author at place `k` of document `d` joins the post of that
/// document to the user registered under that name.
pub open spec fn document_author_joined(
    documents: Seq<ProcessedMarkdownView>,
    default_author: Option<Seq<char>>,
    data: DataView,
    d: int,
    k: int,
) -> bool {
    author_row_joins(
        data,
        author_rows_before(documents, default_author, d) + k,
        data.posts[d].id,
        author_list(documents[d].frontmatter, default_author)[k],
    )
}

/// The data holds one post for each document, in order, and one row for each
/// tag and each author that a document names, in the order of the documents
/// and of their lists.
pub open spec fn rows_follow(
    documents: Seq<ProcessedMarkdownView>,
    default_author: Option<Seq<char>>,
    data: DataView,
) -> bool {
    &&& data.posts.len() == documents.len()
    &&& data.posts_tags.len() == tag_rows_before(documents, documents.len() as int)
    &&& data.posts_authors.len() == author_rows_before(
        documents,
        default_author,
        documents.len() as int,
    )
    &&& forall|d: int, k: int|
        0 <= d < documents.len() && 0 <= k < tag_list(documents[d].frontmatter).len()
            ==> #[trigger] document_tag_joined(documents, data, d, k)
    &&& forall|d: int, k: int|
        0 <= d < documents.len() && 0 <= k < author_list(
            documents[d].frontmatter,
            default_author,
        ).len() ==> #[trigger] document_author_joined(documents, default_author, data, d, k)
}

/// The count of rows before a document does not depend on the documents that
/// follow it.
pub proof fn lemma_rows_before_prefix(
    documents: Seq<ProcessedMarkdownView>,
    default_author: Option<Seq<char>>,
    count: int,
)
    requires
        documents.len() > 0,
        0 <= count < documents.len(),
    ensures
        tag_rows_before(documents.drop_last(), count) == tag_rows_before(documents, count),
        author_rows_before(documents.drop_last(), default_author, count) == author_rows_before(
            documents,
            default_author,
            count,
        ),
    decreases count,
{
    if count > 0 {
        lemma_rows_before_prefix(documents, default_author, count - 1);
        assert(documents.drop_last()[count - 1] == documents[count - 1]);
    }
}

/// Folding documents into a coherent state that holds no post and no row
/// keeps it coherent, and the rows follow the documents.
pub proof fn lemma_with_documents(
    state: ExportState,
    documents: Seq<ProcessedMarkdownView>,
    default_author: Option<Seq<char>>,
    now: Timestamp,
)
    requires
        coherent(state),
        state.data.posts.len() == 0,
        state.data.posts_tags.len() == 0,
        state.data.posts_authors.len() == 0,
    ensures
        coherent(state.with_documents(documents, default_author, now)),
        grows_from(state.with_documents(documents, default_author, now), state),
        rows_follow(
            documents,
            default_author,
            state.with_documents(documents, default_author, now).data,
        ),
    decreases documents.len(),
{
    if documents.len() > 0 {
        let init = documents.drop_last();
        let document = documents.last();
        let count = init.len() as int;
        let middle = state.with_documents(init, default_author, now);
        lemma_with_documents(state, init, default_author, now);
        let post_id = middle.next_id;
        let post = post_of(document, post_id, documents.len(), now);
        let posted = middle.with_post(post);
        lemma_with_post(middle, post);
        let tags = tag_list(document.frontmatter);
        let tagged = posted.with_tag_links(post_id, tags, now);
        lemma_with_tag_links(posted, post_id, tags, now);
        let authors = author_list(document.frontmatter, default_author);
        let next = tagged.with_author_links(post_id, authors, now);
        lemma_with_author_links(tagged, post_id, authors, now);
        assert(next == state.with_documents(documents, default_author, now));
        lemma_grows_chain(tagged, posted, middle);
        lemma_grows_chain(next, tagged, middle);
        lemma_grows_chain(next, middle, state);
        assert(next.data.posts == posted.data.posts);
        assert(next.data.posts[count].id == post_id);
        assert(tag_rows_before(documents, count + 1) == tag_rows_before(documents, count)
            + tags.len());
        assert(author_rows_before(documents, default_author, count + 1) == author_rows_before(
            documents,
            default_author,
            count,
        ) + authors.len());
        if count > 0 {
            lemma_rows_before_prefix(documents, default_author, count - 1);
            assert(init[count - 1] == documents[count - 1]);
        }
        assert(tag_rows_before(init, count) == tag_rows_before(documents, count));
        assert(author_rows_before(init, default_author, count) == author_rows_before(
            documents,
            default_author,
            count,
        ));
        assert forall|d: int, k: int|
            0 <= d < documents.len() && 0 <= k < tag_list(
                documents[d].frontmatter,
            ).len() implies #[trigger] document_tag_joined(documents, next.data, d, k) by {
            if d < count {
                assert(init[d] == documents[d]);
                assert(document_tag_joined(init, middle.data, d, k));
                lemma_rows_before_prefix(documents, default_author, d);
                assert(middle.data.posts[d] == next.data.posts[d]);
                lemma_tag_row_stable(
                    next,
                    middle,
                    tag_rows_before(documents, d) + k,
                    middle.data.posts[d].id,
                    tag_list(documents[d].frontmatter)[k],
                );
            } else {
                assert(tag_row_joins(
                    tagged.data,
                    posted.data.posts_tags.len() + k,
                    post_id,
                    tags[k],
                ));
                lemma_tag_row_stable(
                    next,
                    tagged,
                    tag_rows_before(documents, count) + k,
                    post_id,
                    tags[k],
                );
            }
        }
        assert forall|d: int, k: int|
            0 <= d < documents.len() && 0 <= k < author_list(
                documents[d].frontmatter,
                default_author,
            ).len() implies #[trigger] document_author_joined(
            documents,
            default_author,
            next.data,
            d,
            k,
        ) by {
            if d < count {
                assert(init[d] == documents[d]);
                assert(document_author_joined(init, default_author, middle.data, d, k));
                lemma_rows_before_prefix(documents, default_author, d);
                assert(middle.data.posts[d] == next.data.posts[d]);
                lemma_author_row_stable(
                    next,
                    middle,
                    author_rows_before(documents, default_author, d) + k,
                    middle.data.posts[d].id,
                    author_list(documents[d].frontmatter, default_author)[k],
                );
            } else {
                assert(author_row_joins(
                    next.data,
                    tagged.data.posts_authors.len() + k,
                    post_id,
                    authors[k],
                ));
            }
        }
    }
}

/// The state that the export reaches before the stand-ins are put in is
/// coherent, its rows follow the documents, and it holds a user where the run
/// has a default author or a document, and a tag where the run has a default
/// tag or a document that names one.
pub proof fn lemma_export_state(
    documents: Seq<ProcessedMarkdownView>,
    default_author: Option<Seq<char>>,
    default_tags: Seq<Seq<char>>,
    now: Timestamp,
)
    ensures
        coherent(export_state(documents, default_author, default_tags, now)),
        rows_follow(
            documents,
            default_author,
            export_state(documents, default_author, default_tags, now).data,
        ),
        default_author is Some || documents.len() > 0 ==> export_state(
            documents,
            default_author,
            default_tags,
            now,
        ).data.users.len() > 0,
        default_tags.len() > 0 || (exists|d: int|
            0 <= d < documents.len() && tag_list(#[trigger] documents[d].frontmatter).len() > 0)
            ==> export_state(documents, default_author, default_tags, now).data.tags.len() > 0,
{
    let start = ExportState::start();
    assert(all_ids(start.data) =~= Seq::<int>::empty());
    assert(coherent(start));
    let authored = match default_author {
        Some(name) => start.with_user(name, now),
        None => start,
    };
    if default_author is Some {
        lemma_with_user(start, default_author->0, now);
    }
    let defaults = authored.with_tags(default_tags, now);
    lemma_with_tags(authored, default_tags, now);
    assert(defaults == start.with_defaults(default_author, default_tags, now));
    let state = defaults.with_documents(documents, default_author, now);
    lemma_with_documents(defaults, documents, default_author, now);
    assert(state == export_state(documents, default_author, default_tags, now));
    if default_tags.len() > 0 {
        assert(has_tag(defaults.data.tags, default_tags[0]));
    }
    if documents.len() > 0 {
        let authors = author_list(documents[0].frontmatter, default_author);
        assert(document_author_joined(documents, default_author, state.data, 0, 0));
    }
    if exists|d: int|
        0 <= d < documents.len() && tag_list(#[trigger] documents[d].frontmatter).len() > 0 {
        let d = choose|d: int|
            0 <= d < documents.len() && tag_list(#[trigger] documents[d].frontmatter).len() > 0;
        assert(document_tag_joined(documents, state.data, d, 0));
    }
}

/// Within each kind of entity and of row, no identifier occurs twice.
pub open spec fn ids_distinct_by_kind(data: DataView) -> bool {
    &&& forall|i: int, j: int|
        0 <= i < j < data.posts.len() ==> data.posts[i].id != data.posts[j].id
    &&& forall|i: int, j: int| 0 <= i < j < data.tags.len() ==> data.tags[i].id != data.tags[j].id
    &&& forall|i: int, j: int|
        0 <= i < j < data.users.len() ==> data.users[i].id != data.users[j].id
    &&& forall|i: int, j: int|
        0 <= i < j < data.posts_tags.len() ==> data.posts_tags[i].id != data.posts_tags[j].id
    &&& forall|i: int, j: int|
        0 <= i < j < data.posts_authors.len() ==> data.posts_authors[i].id
            != data.posts_authors[j].id
    &&& forall|i: int, j: int|
        0 <= i < j < data.roles_users.len() ==> data.roles_users[i].id != data.roles_users[j].id
}

/// Identifiers that are distinct over the whole data section are distinct
/// within each kind.
pub proof fn lemma_distinct_by_kind(data: DataView)
    requires
        distinct(all_ids(data)),
    ensures
        ids_distinct_by_kind(data),
{
    let ids = all_ids(data);
    let tags_at = data.posts.len() as int;
    let users_at = tags_at + data.tags.len();
    let posts_tags_at = users_at + data.users.len();
    let posts_authors_at = posts_tags_at + data.posts_tags.len();
    let roles_users_at = posts_authors_at + data.posts_authors.len();
    assert forall|i: int, j: int| 0 <= i < j < data.posts.len() implies data.posts[i].id
        != data.posts[j].id by {
        assert(ids[i] == data.posts[i].id && ids[j] == data.posts[j].id);
    }
    assert forall|i: int, j: int| 0 <= i < j < data.tags.len() implies data.tags[i].id
        != data.tags[j].id by {
        assert(ids[tags_at + i] == data.tags[i].id && ids[tags_at + j] == data.tags[j].id);
    }
    assert forall|i: int, j: int| 0 <= i < j < data.users.len() implies data.users[i].id
        != data.users[j].id by {
        assert(ids[users_at + i] == data.users[i].id && ids[users_at + j] == data.users[j].id);
    }
    assert forall|i: int, j: int| 0 <= i < j < data.posts_tags.len() implies data.posts_tags[i].id
        != data.posts_tags[j].id by {
        assert(ids[posts_tags_at + i] == data.posts_tags[i].id && ids[posts_tags_at + j]
            == data.posts_tags[j].id);
    }
    assert forall|i: int, j: int|
        0 <= i < j < data.posts_authors.len() implies data.posts_authors[i].id
        != data.posts_authors[j].id by {
        assert(ids[posts_authors_at + i] == data.posts_authors[i].id && ids[posts_authors_at + j]
            == data.posts_authors[j].id);
    }
    assert forall|i: int, j: int| 0 <= i < j < data.roles_users.len() implies data.roles_users[i].id
        != data.roles_users[j].id by {
        assert(ids[roles_users_at + i] == data.roles_users[i].id && ids[roles_users_at + j]
            == data.roles_users[j].id);
    }
}

/// Across a whole export, every identifier of an entity or of a row is a
/// positive number that occurs once. This holds where no stand-in is needed:
/// where the run has a default author or a document, and a default tag or a
/// document that names a tag.
pub proof fn law_identifiers_distinct(
    documents: Seq<ProcessedMarkdownView>,
    default_author: Option<Seq<char>>,
    default_tags: Seq<Seq<char>>,
    now: Timestamp,
)
    requires
        default_author is Some || documents.len() > 0,
        default_tags.len() > 0 || exists|d: int|
            0 <= d < documents.len() && tag_list(#[trigger] documents[d].frontmatter).len() > 0,
    ensures
        distinct(all_ids(export_of(documents, default_author, default_tags, now).data)),
        forall|i: int|
            0 <= i < all_ids(export_of(documents, default_author, default_tags, now).data).len()
                ==> 1 <= #[trigger] all_ids(
                export_of(documents, default_author, default_tags, now).data,
            )[i],
{
    lemma_export_state(documents, default_author, default_tags, now);
    let state = export_state(documents, default_author, default_tags, now);
    assert(state.finished(now) == state.data);
}

/// Within each kind of entity and of row of an export, every identifier is a
/// number that occurs once.
pub proof fn law_identifiers_distinct_by_kind(
    documents: Seq<ProcessedMarkdownView>,
    default_author: Option<Seq<char>>,
    default_tags: Seq<Seq<char>>,
    now: Timestamp,
)
    ensures
        ids_distinct_by_kind(export_of(documents, default_author, default_tags, now).data),
{
    lemma_export_state(documents, default_author, default_tags, now);
    let state = export_state(documents, default_author, default_tags, now);
    lemma_distinct_by_kind(state.data);
}

/// No two tags of an export have the same name, and no two users.
pub proof fn law_names_registered_once(
    documents: Seq<ProcessedMarkdownView>,
    default_author: Option<Seq<char>>,
    default_tags: Seq<Seq<char>>,
    now: Timestamp,
)
    ensures
        distinct(tag_names(export_of(documents, default_author, default_tags, now).data.tags)),
        distinct(user_names(export_of(documents, default_author, default_tags, now).data.users)),
{
    lemma_export_state(documents, default_author, default_tags, now);
}

/// Every row of a relation of an export points at a post, a tag or a user
/// that the export holds.
pub proof fn law_links_resolve(
    documents: Seq<ProcessedMarkdownView>,
    default_author: Option<Seq<char>>,
    default_tags: Seq<Seq<char>>,
    now: Timestamp,
)
    ensures
        links_resolve(export_of(documents, default_author, default_tags, now).data),
{
    lemma_export_state(documents, default_author, default_tags, now);
    let state = export_state(documents, default_author, default_tags, now);
    let data = state.finished(now);
    assert forall|i: int| 0 <= i < data.posts_tags.len() implies holds_post(
        data.posts,
        (#[trigger] data.posts_tags[i]).post_id,
    ) && holds_tag(data.tags, data.posts_tags[i].tag_id) by {
        assert(holds_tag(state.data.tags, state.data.posts_tags[i].tag_id));
    }
    assert forall|i: int| 0 <= i < data.posts_authors.len() implies holds_post(
        data.posts,
        (#[trigger] data.posts_authors[i]).post_id,
    ) && holds_user(data.users, data.posts_authors[i].author_id) by {
        assert(holds_user(state.data.users, state.data.posts_authors[i].author_id));
    }
}

/// An export holds one post for each document, in order, and one row for each
/// tag and each author that a document names, in the order of the documents
/// and of their lists; each row joins the document's post to the tag or user
/// registered under that name.
pub proof fn law_rows_follow_documents(
    documents: Seq<ProcessedMarkdownView>,
    default_author: Option<Seq<char>>,
    default_tags: Seq<Seq<char>>,
    now: Timestamp,
)
    ensures
        rows_follow(
            documents,
            default_author,
            export_of(documents, default_author, default_tags, now).data,
        ),
{
    lemma_export_state(documents, default_author, default_tags, now);
    let state = export_state(documents, default_author, default_tags, now);
    let data = state.finished(now);
    assert forall|d: int, k: int|
        0 <= d < documents.len() && 0 <= k < tag_list(
            documents[d].frontmatter,
        ).len() implies #[trigger] document_tag_joined(documents, data, d, k) by {
        assert(document_tag_joined(documents, state.data, d, k));
    }
    assert forall|d: int, k: int|
        0 <= d < documents.len() && 0 <= k < author_list(
            documents[d].frontmatter,
            default_author,
        ).len() implies #[trigger] document_author_joined(
        documents,
        default_author,
        data,
        d,
        k,
    ) by {
        assert(document_author_joined(documents, default_author, state.data, d, k));
    }
}

/// Where two documents name the same tag, the export holds exactly one tag of
/// that name, and the rows of both documents point at it.
pub proof fn law_shared_tag(
    documents: Seq<ProcessedMarkdownView>,
    default_author: Option<Seq<char>>,
    default_tags: Seq<Seq<char>>,
    now: Timestamp,
    first: int,
    i: int,
    second: int,
    j: int,
)
    requires
        0 <= first < documents.len(),
        0 <= i < tag_list(documents[first].frontmatter).len(),
        0 <= second < documents.len(),
        0 <= j < tag_list(documents[second].frontmatter).len(),
        tag_list(documents[first].frontmatter)[i] == tag_list(documents[second].frontmatter)[j],
    ensures
        ({
            let data = export_of(documents, default_author, default_tags, now).data;
            let name = tag_list(documents[first].frontmatter)[i];
            let row = data.posts_tags[tag_rows_before(documents, first) + i];
            let other = data.posts_tags[tag_rows_before(documents, second) + j];
            &&& row.post_id == data.posts[first].id
            &&& other.post_id == data.posts[second].id
            &&& row.tag_id == other.tag_id
            &&& exists|t: int|
                0 <= t < data.tags.len() && data.tags[t].name == name && data.tags[t].id
                    == row.tag_id
            &&& forall|t: int, u: int|
                0 <= t < data.tags.len() && 0 <= u < data.tags.len() && data.tags[t].name == name
                    && data.tags[u].name == name ==> t == u
        }),
{
    law_rows_follow_documents(documents, default_author, default_tags, now);
    law_names_registered_once(documents, default_author, default_tags, now);
    let data = export_of(documents, default_author, default_tags, now).data;
    let name = tag_list(documents[first].frontmatter)[i];
    assert(document_tag_joined(documents, data, first, i));
    assert(document_tag_joined(documents, data, second, j));
    let at = first_index_of(tag_names(data.tags), name);
    lemma_first_index_of(tag_names(data.tags), name);
    assert(data.tags[at].name == name);
    assert forall|t: int, u: int|
        0 <= t < data.tags.len() && 0 <= u < data.tags.len() && data.tags[t].name == name
            && data.tags[u].name == name implies t == u by {
        assert(tag_names(data.tags)[t] == name && tag_names(data.tags)[u] == name);
    }
}

/// Where two documents name the same author, the export holds exactly one
/// user of that name, and the rows of both documents point at it.
pub proof fn law_shared_author(
    documents: Seq<ProcessedMarkdownView>,
    default_author: Option<Seq<char>>,
    default_tags: Seq<Seq<char>>,
    now: Timestamp,
    first: int,
    i: int,
    second: int,
    j: int,
)
    requires
        0 <= first < documents.len(),
        0 <= i < author_list(documents[first].frontmatter, default_author).len(),
        0 <= second < documents.len(),
        0 <= j < author_list(documents[second].frontmatter, default_author).len(),
        author_list(documents[first].frontmatter, default_author)[i] == author_list(
            documents[second].frontmatter,
            default_author,
        )[j],
    ensures
        ({
            let data = export_of(documents, default_author, default_tags, now).data;
            let name = author_list(documents[first].frontmatter, default_author)[i];
            let row = data.posts_authors[author_rows_before(documents, default_author, first) + i];
            let other = data.posts_authors[author_rows_before(documents, default_author, second)
                + j];
            &&& row.post_id == data.posts[first].id
            &&& other.post_id == data.posts[second].id
            &&& row.author_id == other.author_id
            &&& exists|u: int|
                0 <= u < data.users.len() && data.users[u].name == name && data.users[u].id
                    == row.author_id
            &&& forall|t: int, u: int|
                0 <= t < data.users.len() && 0 <= u < data.users.len() && data.users[t].name
                    == name && data.users[u].name == name ==> t == u
        }),
{
    law_rows_follow_documents(documents, default_author, default_tags, now);
    law_names_registered_once(documents, default_author, default_tags, now);
    let data = export_of(documents, default_author, default_tags, now).data;
    let name = author_list(documents[first].frontmatter, default_author)[i];
    assert(document_author_joined(documents, default_author, data, first, i));
    assert(document_author_joined(documents, default_author, data, second, j));
    let at = first_index_of(user_names(data.users), name);
    lemma_first_index_of(user_names(data.users), name);
    assert(data.users[at].name == name);
    assert forall|t: int, u: int|
        0 <= t < data.users.len() && 0 <= u < data.users.len() && data.users[t].name == name
            && data.users[u].name == name implies t == u by {
        assert(user_names(data.users)[t] == name && user_names(data.users)[u] == name);
    }
}

/// Folding documents into a coherent state that holds no post gives one post
/// for each document, in order: the post that the document gives rise to at
/// its position.
pub proof fn lemma_posts_follow_documents(
    state: ExportState,
    documents: Seq<ProcessedMarkdownView>,
    default_author: Option<Seq<char>>,
    now: Timestamp,
)
    requires
        coherent(state),
        state.data.posts.len() == 0,
        state.data.posts_tags.len() == 0,
        state.data.posts_authors.len() == 0,
    ensures
        ({
            let posts = state.with_documents(documents, default_author, now).data.posts;
            &&& posts.len() == documents.len()
            &&& forall|d: int|
                0 <= d < documents.len() ==> #[trigger] posts[d] == post_of(
                    documents[d],
                    posts[d].id,
                    (d + 1) as nat,
                    now,
                )
        }),
    decreases documents.len(),
{
    if documents.len() > 0 {
        let init = documents.drop_last();
        let document = documents.last();
        let count = init.len() as int;
        lemma_posts_follow_documents(state, init, default_author, now);
        lemma_with_documents(state, init, default_author, now);
        let middle = state.with_documents(init, default_author, now);
        let post_id = middle.next_id;
        let post = post_of(document, post_id, documents.len(), now);
        let posted = middle.with_post(post);
        lemma_with_post(middle, post);
        let tagged = posted.with_tag_links(post_id, tag_list(document.frontmatter), now);
        lemma_with_tag_links(posted, post_id, tag_list(document.frontmatter), now);
        let next = tagged.with_author_links(
            post_id,
            author_list(document.frontmatter, default_author),
            now,
        );
        lemma_with_author_links(
            tagged,
            post_id,
            author_list(document.frontmatter, default_author),
            now,
        );
        assert(next == state.with_documents(documents, default_author, now));
        assert(next.data.posts == posted.data.posts);
        assert forall|d: int| 0 <= d < documents.len() implies #[trigger] next.data.posts[d]
            == post_of(documents[d], next.data.posts[d].id, (d + 1) as nat, now) by {
            if d < count {
                assert(init[d] == documents[d]);
                assert(next.data.posts[d] == middle.data.posts[d]);
            }
        }
    }
}

/// An export holds one post for each document, in order: the post that the
/// document gives rise to at its position, under the identifier it drew.
pub proof fn law_posts_follow_documents(
    documents: Seq<ProcessedMarkdownView>,
    default_author: Option<Seq<char>>,
    default_tags: Seq<Seq<char>>,
    now: Timestamp,
)
    ensures
        ({
            let posts = export_of(documents, default_author, default_tags, now).data.posts;
            &&& posts.len() == documents.len()
            &&& forall|d: int|
                0 <= d < documents.len() ==> #[trigger] posts[d] == post_of(
                    documents[d],
                    posts[d].id,
                    (d + 1) as nat,
                    now,
                )
        }),
{
    let start = ExportState::start();
    assert(all_ids(start.data) =~= Seq::<int>::empty());
    let authored = match default_author {
        Some(name) => start.with_user(name, now),
        None => start,
    };
    if default_author is Some {
        lemma_with_user(start, default_author->0, now);
    }
    lemma_with_tags(authored, default_tags, now);
    lemma_posts_follow_documents(
        authored.with_tags(default_tags, now),
        documents,
        default_author,
        now,
    );
}

/// Every tag and every user is the one that its name gives rise to, made at
/// `now`.
pub open spec fn made_from_names(
    tags: Seq<TagView>,
    users: Seq<UserView>,
    now: Timestamp,
) -> bool {
    &&& forall|t: int|
        0 <= t < tags.len() ==> #[trigger] tags[t] == new_tag(tags[t].id, tags[t].name, now)
    &&& forall|u: int|
        0 <= u < users.len() ==> #[trigger] users[u] == new_user(users[u].id, users[u].name, now)
}

/// Registering tags keeps every tag and user made from its name.
pub proof fn lemma_tags_made_from_names(state: ExportState, names: Seq<Seq<char>>, now: Timestamp)
    requires
        made_from_names(state.data.tags, state.data.users, now),
    ensures
        made_from_names(
            state.with_tags(names, now).data.tags,
            state.with_tags(names, now).data.users,
            now,
        ),
    decreases names.len(),
{
    if names.len() > 0 {
        lemma_tags_made_from_names(state, names.drop_last(), now);
    }
}

/// Joining a post to tags keeps every tag and user made from its name.
pub proof fn lemma_tag_links_made_from_names(
    state: ExportState,
    post_id: int,
    names: Seq<Seq<char>>,
    now: Timestamp,
)
    requires
        made_from_names(state.data.tags, state.data.users, now),
    ensures
        made_from_names(
            state.with_tag_links(post_id, names, now).data.tags,
            state.with_tag_links(post_id, names, now).data.users,
            now,
        ),
    decreases names.len(),
{
    if names.len() > 0 {
        lemma_tag_links_made_from_names(state, post_id, names.drop_last(), now);
    }
}

/// Joining a post to authors keeps every tag and user made from its name.
pub proof fn lemma_author_links_made_from_names(
    state: ExportState,
    post_id: int,
    names: Seq<Seq<char>>,
    now: Timestamp,
)
    requires
        made_from_names(state.data.tags, state.data.users, now),
    ensures
        made_from_names(
            state.with_author_links(post_id, names, now).data.tags,
            state.with_author_links(post_id, names, now).data.users,
            now,
        ),
    decreases names.len(),
{
    if names.len() > 0 {
        lemma_author_links_made_from_names(state, post_id, names.drop_last(), now);
    }
}

/// Folding documents keeps every tag and user made from its name.
pub proof fn lemma_documents_made_from_names(
    state: ExportState,
    documents: Seq<ProcessedMarkdownView>,
    default_author: Option<Seq<char>>,
    now: Timestamp,
)
    requires
        made_from_names(state.data.tags, state.data.users, now),
    ensures
        made_from_names(
            state.with_documents(documents, default_author, now).data.tags,
            state.with_documents(documents, default_author, now).data.users,
            now,
        ),
    decreases documents.len(),
{
    if documents.len() > 0 {
        let document = documents.last();
        lemma_documents_made_from_names(state, documents.drop_last(), default_author, now);
        let middle = state.with_documents(documents.drop_last(), default_author, now);
        let post_id = middle.next_id;
        let posted = middle.with_post(post_of(document, post_id, documents.len(), now));
        lemma_tag_links_made_from_names(posted, post_id, tag_list(document.frontmatter), now);
        lemma_author_links_made_from_names(
            posted.with_tag_links(post_id, tag_list(document.frontmatter), now),
            post_id,
            author_list(document.frontmatter, default_author),
            now,
        );
    }
}

/// Every tag and every user of an export is the one that its name gives rise
/// to, with the slug of the name, or, for a user, the slug at `example.com` as
/// its address; or it is the tag or the user that stands in where the export
/// has none.
pub proof fn law_entities_made_from_names(
    documents: Seq<ProcessedMarkdownView>,
    default_author: Option<Seq<char>>,
    default_tags: Seq<Seq<char>>,
    now: Timestamp,
)
    ensures
        ({
            let data = export_of(documents, default_author, default_tags, now).data;
            &&& data.tags.len() > 0
            &&& data.users.len() > 0
            &&& data.tags == seq![fallback_tag(now)] || forall|t: int|
                0 <= t < data.tags.len() ==> #[trigger] data.tags[t] == new_tag(
                    data.tags[t].id,
                    data.tags[t].name,
                    now,
                )
            &&& data.users == seq![fallback_user(now)] || forall|u: int|
                0 <= u < data.users.len() ==> #[trigger] data.users[u] == new_user(
                    data.users[u].id,
                    data.users[u].name,
                    now,
                )
        }),
{
    let start = ExportState::start();
    let authored = match default_author {
        Some(name) => start.with_user(name, now),
        None => start,
    };
    lemma_tags_made_from_names(authored, default_tags, now);
    lemma_documents_made_from_names(
        authored.with_tags(default_tags, now),
        documents,
        default_author,
        now,
    );
}

/// Documents that name no tag leave the tags as they are.
pub proof fn lemma_documents_without_tags(
    state: ExportState,
    documents: Seq<ProcessedMarkdownView>,
    default_author: Option<Seq<char>>,
    now: Timestamp,
)
    requires
        coherent(state),
        state.data.posts.len() == 0,
        state.data.posts_tags.len() == 0,
        state.data.posts_authors.len() == 0,
        forall|d: int|
            0 <= d < documents.len() ==> tag_list(#[trigger] documents[d].frontmatter).len() == 0,
    ensures
        state.with_documents(documents, default_author, now).data.tags == state.data.tags,
    decreases documents.len(),
{
    if documents.len() > 0 {
        let init = documents.drop_last();
        let document = documents.last();
        assert forall|d: int| 0 <= d < init.len() implies tag_list(
            #[trigger] init[d].frontmatter,
        ).len() == 0 by {
            assert(init[d] == documents[d]);
        }
        lemma_documents_without_tags(state, init, default_author, now);
        lemma_with_documents(state, init, default_author, now);
        let middle = state.with_documents(init, default_author, now);
        let post_id = middle.next_id;
        let post = post_of(document, post_id, documents.len(), now);
        let posted = middle.with_post(post);
        lemma_with_post(middle, post);
        assert(documents[documents.len() - 1] == document);
        assert(tag_list(document.frontmatter) =~= Seq::<Seq<char>>::empty());
        let tagged = posted.with_tag_links(post_id, tag_list(document.frontmatter), now);
        assert(tagged == posted);
        lemma_with_author_links(
            tagged,
            post_id,
            author_list(document.frontmatter, default_author),
            now,
        );
    }
}

/// Where an export needs a stand-in, the stand-in shares the identifier 1:
/// without a default author and without a document the user that stands in
/// does, and without a default tag and without a document that names a tag
/// the tag that stands in does. The identifiers of such an export are not
/// distinct.
pub proof fn law_stand_in_shares_identifier(
    documents: Seq<ProcessedMarkdownView>,
    default_author: Option<Seq<char>>,
    default_tags: Seq<Seq<char>>,
    now: Timestamp,
)
    requires
        (default_author is None && documents.len() == 0) || (default_tags.len() == 0 && forall|
            d: int,
        |
            0 <= d < documents.len() ==> tag_list(#[trigger] documents[d].frontmatter).len() == 0),
    ensures
        !distinct(all_ids(export_of(documents, default_author, default_tags, now).data)),
{
    lemma_export_state(documents, default_author, default_tags, now);
    let start = ExportState::start();
    assert(all_ids(start.data) =~= Seq::<int>::empty());
    let authored = match default_author {
        Some(name) => start.with_user(name, now),
        None => start,
    };
    if default_author is Some {
        lemma_with_user(start, default_author->0, now);
    }
    let defaults = authored.with_tags(default_tags, now);
    lemma_with_tags(authored, default_tags, now);
    let state = export_state(documents, default_author, default_tags, now);
    assert(state == defaults.with_documents(documents, default_author, now));
    let data = state.finished(now);
    let ids = all_ids(state.data);
    let tags_at = state.data.posts.len() as int;
    let users_at = tags_at + state.data.tags.len();
    if default_author is None && documents.len() == 0 {
        assert(state.data.users.len() == 0);
    } else {
        assert(default_tags =~= Seq::<Seq<char>>::empty());
        assert(defaults == authored);
        lemma_documents_without_tags(defaults, documents, default_author, now);
        assert(state.data.tags.len() == 0);
    }
    if state.data.tags.len() == 0 && state.data.users.len() == 0 {
        let with_tag = ids.insert(tags_at, 1);
        assert(all_ids(data) =~= with_tag.insert(tags_at + 1, 1));
        lemma_insert_keeps(ids, tags_at, 1, 1);
        lemma_insert_repeats(with_tag, tags_at + 1, 1);
    } else if state.data.tags.len() == 0 {
        assert(ids[tags_at] == state.data.users[0].id);
        assert(all_ids(data) =~= ids.insert(tags_at, 1));
        lemma_insert_repeats(ids, tags_at, 1);
    } else {
        assert(ids[tags_at] == state.data.tags[0].id);
        assert(all_ids(data) =~= ids.insert(users_at, 1));
        lemma_insert_repeats(ids, users_at, 1);
    }
}

} // verus!
