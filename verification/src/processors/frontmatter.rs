//! The front-matter block of a document: a leading block between two lines of
//! three hyphens, and the body that follows it.

use crate::scan::{first_where, lemma_first_where, lemma_first_where_is, text_between};
use crate::text::{char_is_whitespace, chars_of, is_whitespace};
use vstd::prelude::*;

verus! {

/// The length of the line end that stands at a place: 1 for a line feed, 2 for
/// a carriage return and a line feed, 0 where there is neither.
pub open spec fn line_end_len(text: Seq<char>, at: int) -> int {
    if 0 <= at < text.len() && text[at] == '\n' {
        1
    } else if 0 <= at && at + 1 < text.len() && text[at] == '\r' && text[at + 1] == '\n' {
        2
    } else {
        0
    }
}

/// Whether three hyphens stand at a place.
pub open spec fn dashes_at(text: Seq<char>, at: int) -> bool {
    0 <= at && at + 3 <= text.len() && text[at] == '-' && text[at + 1] == '-' && text[at + 2]
        == '-'
}

/// Whether a delimiter line stands at a place: three hyphens and a line end.
pub open spec fn opens_at(text: Seq<char>, at: int) -> bool {
    dashes_at(text, at) && line_end_len(text, at + 3) > 0
}

/// Whether the block closes at a place with a body after it: a line end, three
/// hyphens and a line end.
pub open spec fn closes_with_body(text: Seq<char>, at: int) -> bool {
    line_end_len(text, at) > 0 && opens_at(text, at + line_end_len(text, at))
}

/// Whether the block closes at a place with nothing after it: a line end and
/// three hyphens that end the document.
pub open spec fn closes_at_end(text: Seq<char>, at: int) -> bool {
    line_end_len(text, at) > 0 && dashes_at(text, at + line_end_len(text, at)) && at
        + line_end_len(text, at) + 3 == text.len()
}

/// Whether the block closes at a place, in either way.
pub open spec fn closes_at(text: Seq<char>, at: int) -> bool {
    closes_with_body(text, at) || closes_at_end(text, at)
}

/// The test for a character that is no whitespace.
pub open spec fn is_visible(text: Seq<char>) -> spec_fn(int) -> bool {
    |at: int| !is_whitespace(text[at])
}

/// The test for a place where the block closes with a body after it.
pub open spec fn is_close(text: Seq<char>) -> spec_fn(int) -> bool {
    |at: int| closes_with_body(text, at)
}

/// The test for a place where the block closes at the end of the document.
pub open spec fn is_final_close(text: Seq<char>) -> spec_fn(int) -> bool {
    |at: int| closes_at_end(text, at)
}

/// Where the opening delimiter would stand: after the leading whitespace.
pub open spec fn opening(text: Seq<char>) -> int {
    first_where(text, 0, is_visible(text))
}

/// Where the front matter begins: after the opening delimiter line.
pub open spec fn block_start(text: Seq<char>) -> int {
    opening(text) + 3 + line_end_len(text, opening(text) + 3)
}

/// Whether a document has a front-matter block: after leading whitespace a
/// delimiter line opens it, and further on it closes, before a body or at the
/// end of the document.
pub open spec fn has_frontmatter_block(text: Seq<char>) -> bool {
    opens_at(text, opening(text)) && exists|at: int|
        block_start(text) <= at < text.len() && #[trigger] closes_at(text, at)
}

/// A document split into the text of its front matter and its body. The block
/// ends at the first place where it closes with a body after it, else at the
/// first place where it closes at the end of the document. A document without
/// a block is all body.
pub open spec fn split_document(text: Seq<char>) -> (Seq<char>, Seq<char>) {
    let start = block_start(text);
    let close = first_where(text, start, is_close(text));
    let final_close = first_where(text, start, is_final_close(text));
    if !opens_at(text, opening(text)) {
        (Seq::empty(), text)
    } else if close < text.len() {
        let dashes = close + line_end_len(text, close);
        let body = dashes + 3 + line_end_len(text, dashes + 3);
        (text.subrange(start, close), text.subrange(body, text.len() as int))
    } else if final_close < text.len() {
        (text.subrange(start, final_close), Seq::empty())
    } else {
        (Seq::empty(), text)
    }
}

/// A document without a front-matter block splits into an empty front matter
/// and a body that is the whole document.
pub proof fn law_split_without_block(text: Seq<char>)
    requires
        !has_frontmatter_block(text),
    ensures
        split_document(text) == (Seq::<char>::empty(), text),
{
    if opens_at(text, opening(text)) {
        lemma_first_where(text, 0, is_visible(text));
        let start = block_start(text);
        lemma_first_where(text, start, is_close(text));
        lemma_first_where(text, start, is_final_close(text));
        let close = first_where(text, start, is_close(text));
        let final_close = first_where(text, start, is_final_close(text));
        if close < text.len() {
            assert(is_close(text)(close));
            assert(closes_at(text, close));
        } else if final_close < text.len() {
            assert(is_final_close(text)(final_close));
            assert(closes_at_end(text, final_close));
            assert(closes_at(text, final_close));
        }
    }
}

/// A document with a front-matter block splits at its delimiters: the front
/// matter is the text between the opening line and the closing line, and the
/// body is the text after the closing line.
pub proof fn law_split_with_block(text: Seq<char>)
    requires
        has_frontmatter_block(text),
    ensures
        ({
            let (frontmatter, body) = split_document(text);
            let start = block_start(text);
            let close = start + frontmatter.len();
            &&& start <= close < text.len()
            &&& frontmatter == text.subrange(start, close)
            &&& closes_at(text, close)
            &&& forall|at: int| start <= at < close ==> !#[trigger] closes_with_body(text, at)
            &&& body.len() <= text.len() - close - 4
            &&& body == text.subrange(text.len() - body.len(), text.len() as int)
            &&& closes_with_body(text, close) ==> text.len() - body.len() == close + line_end_len(
                text,
                close,
            ) + 3 + line_end_len(text, close + line_end_len(text, close) + 3)
            &&& !closes_with_body(text, close) ==> body.len() == 0
        }),
{
    lemma_first_where(text, 0, is_visible(text));
    let start = block_start(text);
    lemma_first_where(text, start, is_close(text));
    lemma_first_where(text, start, is_final_close(text));
    let close = first_where(text, start, is_close(text));
    let final_close = first_where(text, start, is_final_close(text));
    let witness = choose|at: int|
        block_start(text) <= at < text.len() && #[trigger] closes_at(text, at);
    if close >= text.len() {
        assert(!is_close(text)(witness));
        assert(closes_at_end(text, witness));
        assert(is_final_close(text)(witness));
        assert(final_close < text.len());
        assert forall|at: int| start <= at < final_close implies !#[trigger] closes_with_body(
            text,
            at,
        ) by {
            assert(!is_close(text)(at));
        }
        assert(text.subrange(text.len() as int, text.len() as int) == Seq::<char>::empty());
    } else {
        assert forall|at: int| start <= at < close implies !#[trigger] closes_with_body(
            text,
            at,
        ) by {
            assert(!is_close(text)(at));
        }
    }
}

/// The length of the line end that stands at a place.
fn line_end_at(chars: &Vec<char>, at: usize) -> (r: usize)
    ensures
        r == line_end_len(chars@, at as int),
{
    if at < chars.len() && chars[at] == '\n' {
        1
    } else if at < chars.len() && chars.len() - at > 1 && chars[at] == '\r' && chars[at + 1]
        == '\n' {
        2
    } else {
        0
    }
}

/// Whether three hyphens stand at a place.
fn has_dashes_at(chars: &Vec<char>, at: usize) -> (r: bool)
    ensures
        r == dashes_at(chars@, at as int),
{
    at <= chars.len() && chars.len() - at >= 3 && chars[at] == '-' && chars[at + 1] == '-'
        && chars[at + 2] == '-'
}

/// Splits a document into the text of its front matter and its body.
#[verifier::loop_isolation(false)]
pub fn split_frontmatter(content: &str) -> (r: (String, String))
    ensures
        (r.0@, r.1@) == split_document(content@),
        !has_frontmatter_block(content@) ==> r.0@.len() == 0 && r.1@ == content@,
{
    let chars = chars_of(content);
    let n = chars.len();
    let ghost text = chars@;
    proof {
        if !has_frontmatter_block(text) {
            law_split_without_block(text);
        }
    }
    let mut open: usize = 0;
    while open < n && char_is_whitespace(chars[open])
        invariant
            open <= n,
            n == chars.len(),
            text == chars@,
            forall|q: int| 0 <= q < open ==> !#[trigger] is_visible(text)(q),
        decreases n - open,
    {
        open += 1;
    }
    proof {
        if open < n {
            assert(is_visible(text)(open as int));
        }
        lemma_first_where_is(text, 0, is_visible(text), open as int);
    }
    if !has_dashes_at(&chars, open) {
        return (String::new(), text_between(&chars, 0, n));
    }
    let first_end = line_end_at(&chars, open + 3);
    if first_end == 0 {
        return (String::new(), text_between(&chars, 0, n));
    }
    let start = open + 3 + first_end;
    assert(start == block_start(text));
    let mut close: usize = start;
    let mut final_close: usize = n;
    while close < n
        invariant
            start <= close <= n,
            start <= final_close <= n,
            n == chars.len(),
            text == chars@,
            forall|q: int| start <= q < close ==> !#[trigger] is_close(text)(q),
            final_close < n ==> final_close < close && is_final_close(text)(final_close as int),
            forall|q: int|
                start <= q < close && q < final_close ==> !#[trigger] is_final_close(text)(q),
        decreases n - close,
    {
        let end = line_end_at(&chars, close);
        if end > 0 && has_dashes_at(&chars, close + end) {
            let after = close + end + 3;
            let next_end = line_end_at(&chars, after);
            if next_end > 0 {
                proof {
                    assert(is_close(text)(close as int));
                    lemma_first_where_is(text, start as int, is_close(text), close as int);
                }
                let frontmatter = text_between(&chars, start, close);
                let body = text_between(&chars, after + next_end, n);
                return (frontmatter, body);
            }
            if after == n && final_close == n {
                final_close = close;
                assert(is_final_close(text)(close as int));
            }
        }
        proof {
            assert(!is_close(text)(close as int));
            if final_close != close {
                assert(final_close < close || !closes_at_end(text, close as int));
                assert(final_close < close || !is_final_close(text)(close as int));
            }
        }
        close += 1;
    }
    proof {
        lemma_first_where_is(text, start as int, is_close(text), n as int);
        lemma_first_where_is(text, start as int, is_final_close(text), final_close as int);
    }
    if final_close < n {
        (text_between(&chars, start, final_close), String::new())
    } else {
        (String::new(), text_between(&chars, 0, n))
    }
}

} // verus!
