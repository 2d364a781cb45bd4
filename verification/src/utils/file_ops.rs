//! Paths as text: extensions, file names and relative paths.

use crate::error::PathError;
use crate::text::{chars_of, lowercase_of, same_text, to_lowercase};
use vstd::prelude::*;

verus! {

/// Operations on paths that are held as text.
pub struct FileOps;

/// The extension of a path, as the standard library reads paths on the
/// platform the library is built for; `None` where the path has none.
pub uninterp spec fn extension_of(path: Seq<char>) -> Option<Seq<char>>;

/// A path with its extension set to another, or added where it has none, as
/// the standard library does it on the platform the library is built for.
pub uninterp spec fn extension_set(path: Seq<char>, extension: Seq<char>) -> Seq<char>;

/// The name of the file a path leads to, without its extension, as the
/// standard library reads paths on the platform the library is built for;
/// `None` where the path names no file.
pub uninterp spec fn stem_of(path: Seq<char>) -> Option<Seq<char>>;

/// The rest of a path after a base path, as the standard library reads paths
/// on the platform the library is built for; `None` where the path does not
/// begin with the base.
pub uninterp spec fn relative_to(path: Seq<char>, base: Seq<char>) -> Option<Seq<char>>;

/// Whether a character separates the parts of a path on some platform.
pub open spec fn is_path_separator(c: char) -> bool {
    c == '/' || c == '\\'
}

/// Whether a text holds no path separator.
pub open spec fn is_plain_extension(extension: Seq<char>) -> bool {
    forall|i: int| 0 <= i < extension.len() ==> !is_path_separator(#[trigger] extension[i])
}

/// Whether a lower-case extension is one of an image file.
pub open spec fn is_image_extension(extension: Seq<char>) -> bool {
    extension == "jpg"@ || extension == "jpeg"@ || extension == "png"@ || extension == "gif"@
        || extension == "webp"@ || extension == "svg"@
}

/// Calls `Path::extension`. Trusted: the extension is a function of the path
/// alone, named by [`extension_of`].
#[verifier::external_body]
fn path_extension(path: &str) -> (r: Option<String>)
    ensures
        r.deep_view() == extension_of(path@),
{
    std::path::Path::new(path).extension().map(|found| found.to_string_lossy().into_owned())
}

/// Calls `PathBuf::set_extension`, which gives up on an extension that holds
/// a path separator. Trusted: the new path is a function of the path and the
/// extension alone, named by [`extension_set`].
#[verifier::external_body]
fn path_with_extension(path: &str, extension: &str) -> (r: String)
    requires
        is_plain_extension(extension@),
    ensures
        r@ == extension_set(path@, extension@),
{
    let mut changed = std::path::PathBuf::from(path);
    changed.set_extension(extension);
    changed.to_string_lossy().into_owned()
}

/// Calls `Path::file_stem`. Trusted: the stem is a function of the path alone,
/// named by [`stem_of`].
#[verifier::external_body]
fn path_stem(path: &str) -> (r: Option<String>)
    ensures
        r.deep_view() == stem_of(path@),
{
    std::path::Path::new(path).file_stem().map(|found| found.to_string_lossy().into_owned())
}

/// Calls `Path::strip_prefix`. Trusted: the rest of the path is a function of
/// the path and the base alone, named by [`relative_to`].
#[verifier::external_body]
fn path_strip_prefix(path: &str, base: &str) -> (r: Option<String>)
    ensures
        r.deep_view() == relative_to(path@, base@),
{
    match std::path::Path::new(path).strip_prefix(base) {
        Ok(rest) => Some(rest.to_string_lossy().into_owned()),
        Err(_) => None,
    }
}

/// Whether every character of the extension is no path separator.
fn holds_no_separator(extension: &str) -> (r: bool)
    ensures
        r == is_plain_extension(extension@),
{
    let chars = chars_of(extension);
    let mut i: usize = 0;
    while i < chars.len()
        invariant
            i <= chars.len(),
            chars@ == extension@,
            forall|j: int| 0 <= j < i ==> !is_path_separator(#[trigger] chars@[j]),
        decreases chars.len() - i,
    {
        if chars[i] == '/' || chars[i] == '\\' {
            assert(is_path_separator(extension@[i as int]));
            return false;
        }
        i += 1;
    }
    true
}

impl FileOps {
    /// Whether an extension can be set on a path: it holds no path separator.
    pub fn is_plain_extension(extension: &str) -> (r: bool)
        ensures
            r == is_plain_extension(extension@),
    {
        holds_no_separator(extension)
    }

    /// The path with the given extension: the path itself where it has that
    /// extension already, else the path with the extension set.
    pub fn ensure_extension(path: &str, extension: &str) -> (r: String)
        requires
            is_plain_extension(extension@),
        ensures
            r@ == if extension_of(path@) == Some(extension@) {
                path@
            } else {
                extension_set(path@, extension@)
            },
    {
        let current = path_extension(path);
        if FileOps::lacks_extension(&current, extension) {
            path_with_extension(path, extension)
        } else {
            path.to_owned()
        }
    }

    /// Whether a path whose extension is `current` is without the wanted
    /// extension: it has none, or another.
    pub fn lacks_extension(current: &Option<String>, wanted: &str) -> (r: bool)
        ensures
            r == (current.deep_view() != Some(wanted@)),
    {
        match current {
            Some(found) => !same_text(found.as_str(), wanted),
            None => true,
        }
    }

    /// The path relative to a base path, where it lies under the base.
    pub fn get_relative_path(full_path: &str, base_path: &str) -> (r: Result<String, PathError>)
        ensures
            match r {
                Ok(rest) => relative_to(full_path@, base_path@) == Some(rest@),
                Err(error) => relative_to(full_path@, base_path@) is None && error
                    == PathError::OutsideBase,
            },
    {
        match path_strip_prefix(full_path, base_path) {
            Some(rest) => Ok(rest),
            None => Err(PathError::OutsideBase),
        }
    }

    /// The name of the file that a path leads to, without its extension; the
    /// empty string where the path names no file.
    pub fn get_file_name_without_extension(path: &str) -> (r: String)
        ensures
            r@ == match stem_of(path@) {
                Some(stem) => stem,
                None => Seq::empty(),
            },
    {
        match path_stem(path) {
            Some(stem) => stem,
            None => String::new(),
        }
    }

    /// Whether a path leads to an image file, going by its extension in any
    /// case: jpg, jpeg, png, gif, webp or svg.
    pub fn is_image_file(path: &str) -> (r: bool)
        ensures
            r == match extension_of(path@) {
                Some(extension) => is_image_extension(lowercase_of(extension)),
                None => false,
            },
    {
        match path_extension(path) {
            Some(extension) => {
                let lowered = to_lowercase(extension.as_str());
                FileOps::is_image_extension(lowered.as_str())
            },
            None => false,
        }
    }

    /// Whether a lower-case extension is one of an image file.
    pub fn is_image_extension(extension: &str) -> (r: bool)
        ensures
            r == is_image_extension(extension@),
    {
        same_text(extension, "jpg") || same_text(extension, "jpeg") || same_text(extension, "png")
            || same_text(extension, "gif") || same_text(extension, "webp") || same_text(
            extension,
            "svg",
        )
    }
}

} // verus!
