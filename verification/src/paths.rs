//! What the standard library reads out of a path written as text.
use vstd::prelude::*;

verus! {

/// The stem of the last component of `path`: its file name without the final
/// extension, where it has a file name. The path is read by the syntax of the
/// platform that the crate is built for.
pub uninterp spec fn file_stem_of(path: Seq<char>) -> Option<Seq<char>>;

/// The extension of the last component of `path`: what follows the final dot
/// of its file name, where it has one that is not the name's first character.
pub uninterp spec fn extension_of(path: Seq<char>) -> Option<Seq<char>>;

/// What is left of `path` once the components of `base` are taken off its
/// front, where `path` begins with them.
pub uninterp spec fn relative_to(path: Seq<char>, base: Seq<char>) -> Option<Seq<char>>;

/// The characters of an optional string slice.
pub open spec fn text_of(s: Option<&str>) -> Option<Seq<char>> {
    match s {
        Some(t) => Some(t@),
        None => None,
    }
}

/// Calls `std::path::Path::file_stem`. Trusted: the result depends on the
/// text of `path` alone; it is only named.
#[verifier::external_body]
pub(crate) fn file_stem<'a>(path: &'a str) -> (r: Option<&'a str>)
    ensures
        text_of(r) == file_stem_of(path@),
{
    std::path::Path::new(path).file_stem()?.to_str()
}

/// Calls `std::path::Path::extension`. Trusted: the result depends on the
/// text of `path` alone; it is only named.
#[verifier::external_body]
pub(crate) fn extension<'a>(path: &'a str) -> (r: Option<&'a str>)
    ensures
        text_of(r) == extension_of(path@),
{
    std::path::Path::new(path).extension()?.to_str()
}

/// Calls `std::path::Path::strip_prefix`. Trusted: the result depends on the
/// two texts alone; it is only named, and an error stands for `None`.
#[verifier::external_body]
pub(crate) fn strip_prefix<'a>(path: &'a str, base: &str) -> (r: Option<&'a str>)
    ensures
        text_of(r) == relative_to(path@, base@),
{
    std::path::Path::new(path).strip_prefix(base).ok()?.to_str()
}

} // verus!
