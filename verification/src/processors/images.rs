//! Image references in rendered HTML: the `src` values of `<img` tags.

use crate::scan::{
    first_where, last_where, lemma_first_where, lemma_first_where_is, lemma_last_where,
    lemma_last_where_is, text_between,
};
use crate::text::chars_of;
use vstd::prelude::*;

verus! {

/// Whether the text `<img` stands at a place.
pub open spec fn tag_at(text: Seq<char>, at: int) -> bool {
    0 <= at && at + 4 <= text.len() && text[at] == '<' && text[at + 1] == 'i' && text[at + 2]
        == 'm' && text[at + 3] == 'g'
}

/// Whether the text `src="` stands at a place.
pub open spec fn src_at(text: Seq<char>, at: int) -> bool {
    0 <= at && at + 5 <= text.len() && text[at] == 's' && text[at + 1] == 'r' && text[at + 2]
        == 'c' && text[at + 3] == '=' && text[at + 4] == '"'
}

/// The test for a place that holds the character.
pub open spec fn is_char(text: Seq<char>, c: char) -> spec_fn(int) -> bool {
    |at: int| text[at] == c
}

/// Where the value that begins after `src="` at a place ends: at the next
/// double quote, or at the end of the text where there is none.
pub open spec fn value_end(text: Seq<char>, at: int) -> int {
    first_where(text, at + 5, is_char(text, '"'))
}

/// Whether an attribute with a value stands at a place: `src="`, at least one
/// character that is no double quote, and a double quote.
pub open spec fn valid_src(text: Seq<char>, at: int) -> bool {
    src_at(text, at) && at + 5 < value_end(text, at) < text.len()
}

/// The test for a place where an attribute with a value stands.
pub open spec fn is_valid_src(text: Seq<char>) -> spec_fn(int) -> bool {
    |at: int| valid_src(text, at)
}

/// Where the tag that opens at a place ends: at the next `>` after `<img`, or
/// at the end of the text where there is none.
pub open spec fn tag_end(text: Seq<char>, at: int) -> int {
    first_where(text, at + 4, is_char(text, '>'))
}

/// The place of the attribute that counts for the tag that opens at a place:
/// the last `src` attribute with a value that begins inside the tag, at least
/// one character after `<img`. Below `at + 5` where the tag has none.
pub open spec fn last_src(text: Seq<char>, at: int) -> int {
    last_where(at + 5, tag_end(text, at), is_valid_src(text))
}

/// Whether an image reference begins at a place: `<img` with a `src`
/// attribute inside the tag.
pub open spec fn image_at(text: Seq<char>, at: int) -> bool {
    tag_at(text, at) && last_src(text, at) >= at + 5
}

/// The test for a place where an image reference begins.
pub open spec fn is_image(text: Seq<char>) -> spec_fn(int) -> bool {
    |at: int| image_at(text, at)
}

/// The image sources of a text from a place on, in order: the value of the
/// first image reference, then those of the text after that value's closing
/// quote.
pub open spec fn image_sources_from(text: Seq<char>, from: int) -> Seq<Seq<char>>
    decreases text.len() - from,
    when from >= 0
    via image_sources_decrease
{
    let at = first_where(text, from, is_image(text));
    if at >= text.len() {
        Seq::empty()
    } else {
        let src = last_src(text, at);
        let end = value_end(text, src);
        seq![text.subrange(src + 5, end)] + image_sources_from(text, end + 1)
    }
}

/// The search goes on after the value it found, which lies further on.
#[via_fn]
proof fn image_sources_decrease(text: Seq<char>, from: int) {
    let at = first_where(text, from, is_image(text));
    if from <= text.len() {
        lemma_first_where(text, from, is_image(text));
        if at < text.len() {
            lemma_image_at(text, at);
        }
    }
}

/// What an image reference is made of: the attribute lies inside the tag, and
/// its value is not empty and ends at a double quote.
pub proof fn lemma_image_at(text: Seq<char>, at: int)
    requires
        0 <= at < text.len(),
        image_at(text, at),
    ensures
        at + 5 <= last_src(text, at) < tag_end(text, at) <= text.len(),
        valid_src(text, last_src(text, at)),
        last_src(text, at) + 5 < value_end(text, last_src(text, at)) < text.len(),
{
    lemma_first_where(text, at + 4, is_char(text, '>'));
    lemma_last_where(at + 5, tag_end(text, at), is_valid_src(text));
    assert(is_valid_src(text)(last_src(text, at)));
}

/// The image sources of a text, in order, duplicates kept.
pub open spec fn image_sources(text: Seq<char>) -> Seq<Seq<char>> {
    image_sources_from(text, 0)
}

/// Whether the text `<img` stands at a place.
fn has_tag_at(chars: &Vec<char>, at: usize) -> (r: bool)
    ensures
        r == tag_at(chars@, at as int),
{
    at <= chars.len() && chars.len() - at >= 4 && chars[at] == '<' && chars[at + 1] == 'i'
        && chars[at + 2] == 'm' && chars[at + 3] == 'g'
}

/// Whether the text `src="` stands at a place.
fn has_src_at(chars: &Vec<char>, at: usize) -> (r: bool)
    ensures
        r == src_at(chars@, at as int),
{
    at <= chars.len() && chars.len() - at >= 5 && chars[at] == 's' && chars[at + 1] == 'r'
        && chars[at + 2] == 'c' && chars[at + 3] == '=' && chars[at + 4] == '"'
}

/// The next place from `from` on that holds the character, or the length of
/// the text.
fn find_char(chars: &Vec<char>, from: usize, c: char) -> (r: usize)
    requires
        from <= chars.len(),
    ensures
        r == first_where(chars@, from as int, is_char(chars@, c)),
        from <= r <= chars.len(),
{
    let mut at: usize = from;
    while at < chars.len() && chars[at] != c
        invariant
            from <= at <= chars.len(),
            forall|q: int| from <= q < at ==> !#[trigger] is_char(chars@, c)(q),
        decreases chars.len() - at,
    {
        at += 1;
    }
    proof {
        if at < chars.len() {
            assert(is_char(chars@, c)(at as int));
        }
        lemma_first_where_is(chars@, from as int, is_char(chars@, c), at as int);
    }
    at
}

/// Where the value of the attribute at a place ends, if an attribute with a
/// value stands there.
fn find_value_end(chars: &Vec<char>, at: usize) -> (r: Option<usize>)
    ensures
        r is Some <==> valid_src(chars@, at as int),
        r matches Some(end) ==> end == value_end(chars@, at as int),
{
    if !has_src_at(chars, at) {
        return None;
    }
    assert(at + 5 <= chars.len());
    let end = find_char(chars, at + 5, '"');
    if at + 5 < end && end < chars.len() {
        Some(end)
    } else {
        None
    }
}

/// The attribute that counts for the tag that opens at a place, and where its
/// value ends, if an image reference begins there.
fn find_image(chars: &Vec<char>, at: usize) -> (r: Option<(usize, usize)>)
    requires
        at < chars.len(),
    ensures
        r is Some <==> image_at(chars@, at as int),
        r matches Some((src, end)) ==> src == last_src(chars@, at as int) && end == value_end(
            chars@,
            src as int,
        ),
{
    if !has_tag_at(chars, at) {
        return None;
    }
    let ghost text = chars@;
    let limit = find_char(chars, at + 4, '>');
    let mut below: usize = limit;
    while below - at > 5
        invariant
            at + 4 <= limit <= chars.len(),
            at + 4 <= below <= limit,
            tag_at(text, at as int),
            text == chars@,
            limit == tag_end(text, at as int),
            forall|q: int| below <= q < limit ==> !#[trigger] is_valid_src(text)(q),
        decreases below,
    {
        below -= 1;
        match find_value_end(chars, below) {
            Some(end) => {
                proof {
                    assert(is_valid_src(text)(below as int));
                    lemma_last_where_is(at + 5, limit as int, is_valid_src(text), below as int);
                }
                return Some((below, end));
            },
            None => {
                assert(!is_valid_src(text)(below as int));
            },
        }
    }
    proof {
        if limit >= at + 5 {
            assert forall|q: int| at + 4 < q < limit implies !#[trigger] is_valid_src(text)(q) by {
                assert(below <= q);
            }
            lemma_last_where_is(at + 5, limit as int, is_valid_src(text), at + 4);
        }
    }
    None
}

/// The image sources of rendered HTML: for each `<img` tag the value of its
/// last `src` attribute, in document order, duplicates kept.
pub fn find_image_sources(html: &str) -> (r: Vec<String>)
    ensures
        r.deep_view() == image_sources(html@),
{
    let chars = chars_of(html);
    let ghost text = chars@;
    let mut found: Vec<String> = Vec::new();
    let mut at: usize = 0;
    assert(found.deep_view() =~= Seq::<Seq<char>>::empty());
    while at < chars.len()
        invariant
            at <= chars.len(),
            text == chars@,
            image_sources(text) == found.deep_view() + image_sources_from(text, at as int),
        decreases chars.len() - at,
    {
        match find_image(&chars, at) {
            Some((src, end)) => {
                proof {
                    lemma_image_at(text, at as int);
                    assert(is_image(text)(at as int));
                    lemma_first_where_is(text, at as int, is_image(text), at as int);
                }
                let value = text_between(&chars, src + 5, end);
                let ghost before = found.deep_view();
                found.push(value);
                proof {
                    assert(found.deep_view() =~= before.push(value@));
                    assert(before + (seq![value@] + image_sources_from(text, end + 1))
                        =~= before.push(value@) + image_sources_from(text, end + 1));
                }
                at = end + 1;
            },
            None => {
                proof {
                    assert(!is_image(text)(at as int));
                    lemma_first_where(text, at + 1, is_image(text));
                    lemma_first_where_is(
                        text,
                        at as int,
                        is_image(text),
                        first_where(text, at + 1, is_image(text)),
                    );
                    lemma_sources_from_first(text, at as int);
                    lemma_sources_from_first(text, at + 1);
                }
                at += 1;
            },
        }
    }
    proof {
        lemma_first_where(text, at as int, is_image(text));
        assert(image_sources_from(text, at as int) =~= Seq::<Seq<char>>::empty());
        assert(found.deep_view() + Seq::<Seq<char>>::empty() =~= found.deep_view());
    }
    found
}

/// The image sources from a place on are those from the first image
/// reference on.
pub proof fn lemma_sources_from_first(text: Seq<char>, from: int)
    requires
        0 <= from <= text.len(),
    ensures
        image_sources_from(text, from) == image_sources_from(
            text,
            first_where(text, from, is_image(text)),
        ),
{
    let at = first_where(text, from, is_image(text));
    lemma_first_where(text, from, is_image(text));
    if at < text.len() {
        lemma_first_where_is(text, at, is_image(text), at);
    } else {
        lemma_first_where_is(text, at, is_image(text), at);
    }
}

} // verus!
