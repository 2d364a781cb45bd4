//! Searching a text for the first or the last place where something holds.

use crate::text::string_of;
use vstd::prelude::*;

verus! {

/// The first place from `from` on where `holds` is true; the length of the
/// text where there is none.
pub open spec fn first_where(text: Seq<char>, from: int, holds: spec_fn(int) -> bool) -> int
    decreases text.len() - from,
{
    if from >= text.len() {
        text.len() as int
    } else if holds(from) {
        from
    } else {
        first_where(text, from + 1, holds)
    }
}

/// The last place below `below`, and not below `from`, where `holds` is true;
/// `from - 1` where there is none.
pub open spec fn last_where(from: int, below: int, holds: spec_fn(int) -> bool) -> int
    decreases below - from,
{
    if below <= from {
        from - 1
    } else if holds(below - 1) {
        below - 1
    } else {
        last_where(from, below - 1, holds)
    }
}

/// What the first place is: `holds` is true there and false before it.
pub proof fn lemma_first_where(text: Seq<char>, from: int, holds: spec_fn(int) -> bool)
    requires
        0 <= from <= text.len(),
    ensures
        from <= first_where(text, from, holds) <= text.len(),
        first_where(text, from, holds) < text.len() ==> holds(first_where(text, from, holds)),
        forall|q: int| from <= q < first_where(text, from, holds) ==> !#[trigger] holds(q),
    decreases text.len() - from,
{
    if from < text.len() && !holds(from) {
        lemma_first_where(text, from + 1, holds);
    }
}

/// A place where `holds` is true, after places where it is false, is the
/// first; and where it is false everywhere, the first place is the length.
pub proof fn lemma_first_where_is(
    text: Seq<char>,
    from: int,
    holds: spec_fn(int) -> bool,
    at: int,
)
    requires
        0 <= from <= at <= text.len(),
        at < text.len() ==> holds(at),
        forall|q: int| from <= q < at ==> !#[trigger] holds(q),
    ensures
        first_where(text, from, holds) == at,
    decreases at - from,
{
    if from < at {
        lemma_first_where_is(text, from + 1, holds, at);
    }
}

/// What the last place is: `holds` is true there and false after it.
pub proof fn lemma_last_where(from: int, below: int, holds: spec_fn(int) -> bool)
    requires
        from <= below,
    ensures
        from - 1 <= last_where(from, below, holds) < below,
        last_where(from, below, holds) >= from ==> holds(last_where(from, below, holds)),
        forall|q: int| last_where(from, below, holds) < q < below ==> !#[trigger] holds(q),
    decreases below - from,
{
    if from < below && !holds(below - 1) {
        lemma_last_where(from, below - 1, holds);
    }
}

/// A place where `holds` is true, before places where it is false, is the
/// last; and where it is false everywhere, the last place is `from - 1`.
pub proof fn lemma_last_where_is(from: int, below: int, holds: spec_fn(int) -> bool, at: int)
    requires
        from - 1 <= at < below,
        at >= from ==> holds(at),
        forall|q: int| at < q < below ==> !#[trigger] holds(q),
    ensures
        last_where(from, below, holds) == at,
    decreases below - at,
{
    if at < below - 1 {
        lemma_last_where_is(from, below - 1, holds, at);
    }
}

/// The part of a text between two places, as a string.
pub(crate) fn text_between(chars: &Vec<char>, from: usize, to: usize) -> (r: String)
    requires
        from <= to <= chars.len(),
    ensures
        r@ == chars@.subrange(from as int, to as int),
{
    let mut part: Vec<char> = Vec::new();
    let mut i: usize = from;
    while i < to
        invariant
            from <= i <= to <= chars.len(),
            part@ == chars@.subrange(from as int, i as int),
        decreases to - i,
    {
        part.push(chars[i]);
        assert(chars@.subrange(from as int, i + 1) == chars@.subrange(from as int, i as int).push(
            chars@[i as int],
        ));
        i += 1;
    }
    string_of(&part)
}

} // verus!
