//! Slugs: the URL-safe form of a title or a name.

use crate::text::{
    char_is_alphanumeric, char_is_whitespace, chars_of, is_alphanumeric, is_whitespace,
    keeps_case, lowercase_of, string_of, to_lowercase,
};
use vstd::prelude::*;

verus! {

/// A character that a slug keeps: alphanumeric and no whitespace. Every other
/// character separates words.
pub open spec fn is_word_char(c: char) -> bool {
    is_alphanumeric(c) && !is_whitespace(c)
}

/// The words of a text: its maximal runs of word characters, in order.
pub open spec fn words(text: Seq<char>) -> Seq<Seq<char>>
    decreases text.len(),
{
    if text.len() == 0 {
        Seq::empty()
    } else {
        let before = words(text.drop_last());
        let c = text.last();
        if !is_word_char(c) {
            before
        } else if text.len() >= 2 && is_word_char(text[text.len() - 2]) {
            before.drop_last().push(before.last().push(c))
        } else {
            before.push(seq![c])
        }
    }
}

/// The words joined by single hyphens.
pub open spec fn hyphenated(words: Seq<Seq<char>>) -> Seq<char>
    decreases words.len(),
{
    if words.len() == 0 {
        Seq::empty()
    } else if words.len() == 1 {
        words[0]
    } else {
        hyphenated(words.drop_last()) + seq!['-'] + words.last()
    }
}

/// The slug of a text that is already in lower case: its words joined by
/// hyphens.
pub open spec fn slug_text(lowered: Seq<char>) -> Seq<char> {
    hyphenated(words(lowered))
}

/// The slug of a text: the words of its lower-case form joined by hyphens.
pub open spec fn slug(text: Seq<char>) -> Seq<char> {
    slug_text(lowercase_of(text))
}

/// Every word is non-empty and made of word characters.
pub open spec fn proper_words(ws: Seq<Seq<char>>) -> bool {
    forall|i: int|
        0 <= i < ws.len() ==> (#[trigger] ws[i]).len() > 0 && forall|j: int|
            0 <= j < ws[i].len() ==> is_word_char(#[trigger] ws[i][j])
}

/// The words of a text are proper, and the text ends inside the last word
/// exactly when its last character is a word character.
pub proof fn lemma_words_proper(text: Seq<char>)
    ensures
        proper_words(words(text)),
        text.len() > 0 && is_word_char(text.last()) ==> words(text).len() > 0,
    decreases text.len(),
{
    if text.len() > 0 {
        let init = text.drop_last();
        lemma_words_proper(init);
        let before = words(init);
        let c = text.last();
        if is_word_char(c) {
            if text.len() >= 2 && is_word_char(text[text.len() - 2]) {
                assert(init.last() == text[text.len() - 2]);
                let grown = before.drop_last().push(before.last().push(c));
                assert forall|i: int| 0 <= i < grown.len() implies (#[trigger] grown[i]).len() > 0
                    && forall|j: int|
                    0 <= j < grown[i].len() ==> is_word_char(#[trigger] grown[i][j]) by {
                    if i < grown.len() - 1 {
                        assert(grown[i] == before[i]);
                    } else {
                        assert(grown[i] == before.last().push(c));
                        assert forall|j: int| 0 <= j < grown[i].len() implies is_word_char(
                            #[trigger] grown[i][j],
                        ) by {
                            if j < before.last().len() {
                                assert(grown[i][j] == before.last()[j]);
                            }
                        }
                    }
                }
            } else {
                let grown = before.push(seq![c]);
                assert forall|i: int| 0 <= i < grown.len() implies (#[trigger] grown[i]).len() > 0
                    && forall|j: int|
                    0 <= j < grown[i].len() ==> is_word_char(#[trigger] grown[i][j]) by {
                    if i < before.len() {
                        assert(grown[i] == before[i]);
                    }
                }
            }
        }
    }
}

/// Joining proper words gives the empty text only for no words.
pub proof fn lemma_hyphenated_len(ws: Seq<Seq<char>>)
    requires
        proper_words(ws),
    ensures
        hyphenated(ws).len() == 0 <==> ws.len() == 0,
    decreases ws.len(),
{
    if ws.len() == 1 {
        assert(ws[0].len() > 0);
    } else if ws.len() > 1 {
        assert(ws.last().len() > 0);
    }
}

/// Growing the last word by a character grows the joined text by it.
pub proof fn lemma_hyphenated_grow(ws: Seq<Seq<char>>, c: char)
    requires
        ws.len() > 0,
    ensures
        hyphenated(ws.drop_last().push(ws.last().push(c))) == hyphenated(ws).push(c),
{
    let grown = ws.drop_last().push(ws.last().push(c));
    if ws.len() == 1 {
        assert(grown[0] == ws[0].push(c));
    } else {
        assert(grown.drop_last() == ws.drop_last());
        assert(grown.last() == ws.last().push(c));
        assert(hyphenated(ws.drop_last()) + seq!['-'] + ws.last().push(c) == (hyphenated(
            ws.drop_last(),
        ) + seq!['-'] + ws.last()).push(c));
    }
}

/// Every character of a word of a text is a character of the text.
pub proof fn lemma_words_come_from_text(text: Seq<char>)
    ensures
        forall|i: int, j: int|
            0 <= i < words(text).len() && 0 <= j < words(text)[i].len() ==> text.contains(
                #[trigger] words(text)[i][j],
            ),
    decreases text.len(),
{
    if text.len() > 0 {
        let init = text.drop_last();
        lemma_words_come_from_text(init);
        lemma_words_proper(init);
        let before = words(init);
        let c = text.last();
        assert(text[text.len() - 1] == c);
        assert forall|i: int, j: int|
            0 <= i < words(text).len() && 0 <= j < words(text)[i].len() implies text.contains(
            #[trigger] words(text)[i][j],
        ) by {
            let w = words(text)[i];
            if i < before.len() && j < before[i].len() {
                assert(w[j] == before[i][j]);
                assert(init.contains(before[i][j]));
                let k = choose|k: int| 0 <= k < init.len() && init[k] == before[i][j];
                assert(text[k] == w[j]);
            } else {
                assert(w[j] == c);
            }
        }
    }
}

/// The joined text of proper words holds hyphens and word characters only, each
/// word character taken from a word, and begins and ends as its first and last
/// word do.
pub proof fn lemma_hyphenated_shape(ws: Seq<Seq<char>>)
    requires
        proper_words(ws),
    ensures
        forall|k: int|
            0 <= k < hyphenated(ws).len() ==> #[trigger] hyphenated(ws)[k] == '-' || exists|
                i: int,
                j: int,
            |
                0 <= i < ws.len() && 0 <= j < ws[i].len() && ws[i][j] == hyphenated(ws)[k],
        ws.len() > 0 ==> hyphenated(ws).len() > 0 && hyphenated(ws)[0] == ws[0][0]
            && hyphenated(ws).last() == ws.last().last(),
    decreases ws.len(),
{
    let joined = hyphenated(ws);
    if ws.len() == 1 {
        assert(ws[0].len() > 0);
        assert forall|k: int| 0 <= k < joined.len() implies #[trigger] joined[k] == '-' || exists|
            i: int,
            j: int,
        |
            0 <= i < ws.len() && 0 <= j < ws[i].len() && ws[i][j] == joined[k] by {
            assert(ws[0][k] == joined[k]);
        }
    } else if ws.len() > 1 {
        let init = ws.drop_last();
        lemma_hyphenated_shape(init);
        let head = hyphenated(init);
        assert(ws.last().len() > 0);
        assert(init[0] == ws[0]);
        assert forall|k: int| 0 <= k < joined.len() implies #[trigger] joined[k] == '-' || exists|
            i: int,
            j: int,
        |
            0 <= i < ws.len() && 0 <= j < ws[i].len() && ws[i][j] == joined[k] by {
            if k < head.len() {
                assert(joined[k] == head[k]);
                if head[k] != '-' {
                    let (i, j) = choose|i: int, j: int|
                        0 <= i < init.len() && 0 <= j < init[i].len() && init[i][j] == head[k];
                    assert(ws[i][j] == joined[k]);
                }
            } else if k > head.len() {
                let j = k - head.len() - 1;
                assert(ws[ws.len() - 1][j] == joined[k]);
            }
        }
    }
}

/// In the joined text of proper words every hyphen stands between two
/// characters that are no hyphens.
pub proof fn lemma_hyphens_stand_alone(ws: Seq<Seq<char>>)
    requires
        proper_words(ws),
    ensures
        forall|k: int|
            0 <= k < hyphenated(ws).len() && #[trigger] hyphenated(ws)[k] == '-' ==> 0 < k
                < hyphenated(ws).len() - 1 && hyphenated(ws)[k - 1] != '-' && hyphenated(ws)[k + 1]
                != '-',
    decreases ws.len(),
{
    let joined = hyphenated(ws);
    if ws.len() == 1 {
        assert forall|k: int| 0 <= k < joined.len() implies #[trigger] joined[k] != '-' by {
            assert(is_word_char(ws[0][k]));
        }
    } else if ws.len() > 1 {
        let init = ws.drop_last();
        let head = hyphenated(init);
        let last = ws.last();
        lemma_hyphens_stand_alone(init);
        lemma_hyphenated_shape(init);
        assert(last.len() > 0);
        assert(is_word_char(init.last()[init.last().len() - 1]));
        assert forall|k: int| 0 <= k < joined.len() && #[trigger] joined[k] == '-' implies 0 < k
            < joined.len() - 1 && joined[k - 1] != '-' && joined[k + 1] != '-' by {
            if k < head.len() {
                assert(joined[k] == head[k]);
                assert(joined[k - 1] == head[k - 1]);
                assert(joined[k + 1] == head[k + 1]);
            } else if k == head.len() {
                assert(joined[k - 1] == head.last());
                assert(joined[k + 1] == last[0]);
                assert(is_word_char(last[0]));
            } else {
                assert(joined[k] == last[k - head.len() - 1]);
                assert(is_word_char(last[k - head.len() - 1]));
            }
        }
    }
}

/// A text that ends outside a word, followed by a word, has the words of the
/// text and then that word.
pub proof fn lemma_words_append_word(text: Seq<char>, word: Seq<char>)
    requires
        text.len() == 0 || !is_word_char(text.last()),
        word.len() > 0,
        forall|j: int| 0 <= j < word.len() ==> is_word_char(#[trigger] word[j]),
    ensures
        words(text + word) == words(text).push(word),
    decreases word.len(),
{
    let whole = text + word;
    let init = word.drop_last();
    let c = word.last();
    assert(whole.drop_last() == text + init);
    assert(whole.last() == c);
    if init.len() == 0 {
        assert(text + init == text);
        assert(seq![c] == word);
        if whole.len() >= 2 {
            assert(whole[whole.len() - 2] == text.last());
        }
    } else {
        assert forall|j: int| 0 <= j < init.len() implies is_word_char(#[trigger] init[j]) by {
            assert(init[j] == word[j]);
        }
        lemma_words_append_word(text, init);
        assert(whole[whole.len() - 2] == init.last());
        assert(init.last() == word[word.len() - 2]);
        let before = words(text).push(init);
        assert(before.drop_last() == words(text));
        assert(before.last().push(c) == word);
    }
}

/// Joining proper words and splitting the result again gives the same words.
pub proof fn lemma_words_of_hyphenated(ws: Seq<Seq<char>>)
    requires
        proper_words(ws),
    ensures
        words(hyphenated(ws)) == ws,
    decreases ws.len(),
{
    if ws.len() == 0 {
    } else if ws.len() == 1 {
        let none = Seq::<char>::empty();
        lemma_words_append_word(none, ws[0]);
        assert(none + ws[0] == ws[0]);
        assert(words(none).push(ws[0]) == ws);
    } else {
        let init = ws.drop_last();
        lemma_words_of_hyphenated(init);
        let head = hyphenated(init).push('-');
        assert(head.drop_last() == hyphenated(init));
        assert(words(head) == init);
        lemma_words_append_word(head, ws.last());
        assert(head + ws.last() == hyphenated(init) + seq!['-'] + ws.last());
        assert(init.push(ws.last()) == ws);
    }
}

/// A slug holds only hyphens and alphanumeric characters of the lower-case
/// text, it neither begins nor ends with a hyphen, and no two hyphens follow
/// each other.
pub proof fn law_slug_shape(text: Seq<char>)
    ensures
        forall|k: int|
            0 <= k < slug(text).len() ==> #[trigger] slug(text)[k] == '-' || (is_alphanumeric(
                slug(text)[k],
            ) && lowercase_of(text).contains(slug(text)[k])),
        slug(text).len() > 0 ==> slug(text)[0] != '-' && slug(text).last() != '-',
        forall|k: int|
            0 <= k < slug(text).len() - 1 ==> !(#[trigger] slug(text)[k] == '-' && slug(text)[k
                + 1] == '-'),
{
    let lowered = lowercase_of(text);
    let ws = words(lowered);
    lemma_words_proper(lowered);
    lemma_hyphens_stand_alone(ws);
    lemma_words_come_from_text(lowered);
    lemma_hyphenated_shape(ws);
    lemma_hyphenated_len(ws);
    if ws.len() > 0 {
        assert(is_word_char(ws[0][0]));
        assert(is_word_char(ws.last()[ws.last().len() - 1]));
    }
    assert forall|k: int| 0 <= k < slug(text).len() implies #[trigger] slug(text)[k] == '-' || (
    is_alphanumeric(slug(text)[k]) && lowercase_of(text).contains(slug(text)[k])) by {
        if slug(text)[k] != '-' {
            let (i, j) = choose|i: int, j: int|
                0 <= i < ws.len() && 0 <= j < ws[i].len() && ws[i][j] == slug(text)[k];
            assert(is_word_char(ws[i][j]));
        }
    }
}

/// Taking the slug of a slug changes nothing, for a text already in lower
/// case.
pub proof fn law_slug_text_idempotent(lowered: Seq<char>)
    ensures
        slug_text(slug_text(lowered)) == slug_text(lowered),
{
    lemma_words_proper(lowered);
    lemma_words_of_hyphenated(words(lowered));
}

/// Taking the slug of a slug changes nothing, wherever lower-casing the slug
/// leaves it as it is.
pub proof fn law_slug_idempotent(text: Seq<char>)
    requires
        lowercase_of(slug(text)) == slug(text),
    ensures
        slug(slug(text)) == slug(text),
{
    law_slug_text_idempotent(lowercase_of(text));
}

/// The slug of a text that is already in lower case.
pub fn slug_of_lowercase(lowered: &str) -> (r: String)
    ensures
        r@ == slug_text(lowered@),
{
    let chars = chars_of(lowered);
    let mut out: Vec<char> = Vec::new();
    let mut in_word = false;
    let mut i: usize = 0;
    while i < chars.len()
        invariant
            i <= chars.len(),
            out@ == slug_text(chars@.take(i as int)),
            in_word <==> i > 0 && is_word_char(chars@[i - 1]),
        decreases chars.len() - i,
    {
        let c = chars[i];
        let keep = char_is_alphanumeric(c) && !char_is_whitespace(c);
        proof {
            let prefix = chars@.take(i as int);
            let next = chars@.take(i + 1);
            assert(next.drop_last() == prefix);
            assert(next.last() == c);
            lemma_words_proper(prefix);
            lemma_hyphenated_len(words(prefix));
            if keep {
                if in_word {
                    assert(next[next.len() - 2] == chars@[i - 1]);
                    assert(prefix.last() == chars@[i - 1]);
                    lemma_hyphenated_grow(words(prefix), c);
                } else {
                    let grown = words(prefix).push(seq![c]);
                    assert(grown.drop_last() == words(prefix));
                    if words(prefix).len() > 0 {
                        assert(hyphenated(grown) == out@ + seq!['-'] + seq![c]);
                        assert(out@ + seq!['-'] + seq![c] == out@.push('-').push(c));
                    } else {
                        assert(hyphenated(grown) == seq![c]);
                        assert(out@.push(c) == seq![c]);
                    }
                }
            }
        }
        if keep {
            if !in_word && out.len() > 0 {
                out.push('-');
            }
            out.push(c);
        }
        in_word = keep;
        i += 1;
    }
    assert(chars@.take(chars.len() as int) == chars@);
    string_of(&out)
}

/// The slug of a text: its lower-case form, cut into words at every character
/// that is not alphanumeric, the words joined by hyphens.
pub fn slug_of(text: &str) -> (r: String)
    ensures
        r@ == slug(text@),
        forall|k: int| 0 <= k < r@.len() ==> #[trigger] r@[k] == '-' || is_alphanumeric(r@[k]),
        r@.len() > 0 ==> r@[0] != '-' && r@.last() != '-',
{
    proof {
        law_slug_shape(text@);
    }
    let lowered = to_lowercase(text);
    slug_of_lowercase(lowered.as_str())
}

/// The slug of a text, and whether lower-casing leaves the slug as it is.
/// Where it does, the slug is its own slug.
pub fn stable_slug(text: &str) -> (r: (String, bool))
    ensures
        r.0@ == slug(text@),
        r.1 == (lowercase_of(slug(text@)) == slug(text@)),
        r.1 ==> slug(r.0@) == r.0@,
{
    let made = slug_of(text);
    let stable = keeps_case(made.as_str());
    proof {
        if stable {
            law_slug_idempotent(text@);
        }
    }
    (made, stable)
}

} // verus!
