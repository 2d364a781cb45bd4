//! Character-level primitives: the Unicode classes and case mapping that the
//! standard library decides, and conversions between strings and character
//! vectors.

use vstd::prelude::*;

verus! {

/// Whether a character beyond ASCII is alphabetic or numeric, as the standard
/// library's Unicode tables decide it.
pub uninterp spec fn unicode_alphanumeric(c: char) -> bool;

/// Whether a character beyond ASCII has the `White_Space` property, as the
/// standard library's Unicode tables decide it.
pub uninterp spec fn unicode_whitespace(c: char) -> bool;

/// The lower-case equivalent of a text, as the standard library maps it.
pub uninterp spec fn lowercase_of(text: Seq<char>) -> Seq<char>;

/// A character is alphanumeric when it is an ASCII letter or digit, or a
/// character beyond ASCII that Unicode classes as alphabetic or numeric.
pub open spec fn is_alphanumeric(c: char) -> bool {
    if (c as u32) < 128 {
        ('0' <= c <= '9') || ('a' <= c <= 'z') || ('A' <= c <= 'Z')
    } else {
        unicode_alphanumeric(c)
    }
}

/// A character is whitespace when it is a space, one of the ASCII controls
/// from tab to carriage return, or a character beyond ASCII with the
/// `White_Space` property.
pub open spec fn is_whitespace(c: char) -> bool {
    if (c as u32) < 128 {
        c == ' ' || ('\t' <= c <= '\r')
    } else {
        unicode_whitespace(c)
    }
}

/// Calls `char::is_alphanumeric`. Trusted: within ASCII the answer is true
/// exactly of letters and digits; beyond ASCII it is the one named by
/// [`unicode_alphanumeric`].
#[verifier::external_body]
pub(crate) fn char_is_alphanumeric(c: char) -> (r: bool)
    ensures
        r == if (c as u32) < 128 {
            ('0' <= c <= '9') || ('a' <= c <= 'z') || ('A' <= c <= 'Z')
        } else {
            unicode_alphanumeric(c)
        },
{
    c.is_alphanumeric()
}

/// Calls `char::is_whitespace`. Trusted: within ASCII the answer is true
/// exactly of the space and of the controls U+0009 to U+000D; beyond ASCII it
/// is the one named by [`unicode_whitespace`].
#[verifier::external_body]
pub(crate) fn char_is_whitespace(c: char) -> (r: bool)
    ensures
        r == if (c as u32) < 128 {
            c == ' ' || ('\t' <= c <= '\r')
        } else {
            unicode_whitespace(c)
        },
{
    c.is_whitespace()
}

/// Calls `str::to_lowercase`. Trusted: the result is a function of the text
/// alone, named by [`lowercase_of`].
#[verifier::external_body]
pub(crate) fn to_lowercase(text: &str) -> (r: String)
    ensures
        r@ == lowercase_of(text@),
{
    text.to_lowercase()
}

/// Calls `String::from_iter` on the characters of a vector. Trusted: the string
/// holds exactly those characters, in order.
#[verifier::external_body]
pub(crate) fn string_of(chars: &Vec<char>) -> (r: String)
    ensures
        r@ == chars@,
{
    String::from_iter(chars)
}

/// The characters of a string, in order.
pub fn chars_of(text: &str) -> (r: Vec<char>)
    ensures
        r@ == text@,
{
    let mut out: Vec<char> = Vec::new();
    for c in it: text.chars()
        invariant
            out@ == it.seq().take(it.index() as int),
    {
        out.push(c);
    }
    out
}

/// Whether two strings hold the same characters.
pub fn same_text(left: &str, right: &str) -> (r: bool)
    ensures
        r == (left@ == right@),
{
    let a = chars_of(left);
    let b = chars_of(right);
    if a.len() != b.len() {
        return false;
    }
    let mut i: usize = 0;
    while i < a.len()
        invariant
            i <= a.len(),
            a.len() == b.len(),
            a@ == left@,
            b@ == right@,
            forall|j: int| 0 <= j < i ==> a@[j] == b@[j],
        decreases a.len() - i,
    {
        if a[i] != b[i] {
            return false;
        }
        i += 1;
    }
    assert(a@ =~= b@);
    true
}

/// Whether lower-casing a text leaves it as it is.
pub fn keeps_case(text: &str) -> (r: bool)
    ensures
        r == (lowercase_of(text@) == text@),
{
    let lowered = to_lowercase(text);
    same_text(lowered.as_str(), text)
}

} // verus!
