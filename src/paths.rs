//! What the standard library's path handling says of a path's text.
use vstd::prelude::*;

verus! {

/// The extension of the path's final component, as `Path::extension` gives it.
pub uninterp spec fn path_extension(path: Seq<char>) -> Option<Seq<char>>;

/// `path` relative to `base`, as `Path::strip_prefix` gives it, if `base` is a prefix.
pub uninterp spec fn path_relative(path: Seq<char>, base: Seq<char>) -> Option<Seq<char>>;

/// The final component of `path`, as `Path::file_name` gives it.
pub uninterp spec fn path_file_name(path: Seq<char>) -> Option<Seq<char>>;

/// Relies on `std::path::Path::extension`: the text after the last dot of the
/// final component, if there is one that does not start the name.
#[verifier::external_body]
pub(crate) fn extension_of(path: &str) -> (r: Option<String>)
    ensures
        r is Some <==> path_extension(path@) is Some,
        r matches Some(e) ==> path_extension(path@) == Some(e@),
{
    std::path::Path::new(path).extension().map(|e| e.to_string_lossy().into_owned())
}

/// Relies on `std::path::Path::strip_prefix`: `path` with the components of
/// `base` removed from its front, if they stand there.
#[verifier::external_body]
pub(crate) fn relative_to(path: &str, base: &str) -> (r: Option<String>)
    ensures
        r is Some <==> path_relative(path@, base@) is Some,
        r matches Some(p) ==> path_relative(path@, base@) == Some(p@),
{
    std::path::Path::new(path).strip_prefix(base).ok().map(|p| p.display().to_string())
}

/// Relies on `std::path::Path::file_name`: the final component of the path,
/// unless the path ends in `..` or is a root.
#[verifier::external_body]
pub(crate) fn file_name_of(path: &str) -> (r: Option<String>)
    ensures
        r is Some <==> path_file_name(path@) is Some,
        r matches Some(n) ==> path_file_name(path@) == Some(n@),
{
    std::path::Path::new(path).file_name().map(|n| n.to_string_lossy().into_owned())
}

/// The text by which a file is shown: its path relative to `base`, else the path itself.
pub open spec fn shown_path(path: Seq<char>, base: Seq<char>) -> Seq<char> {
    match path_relative(path, base) {
        Some(rel) => rel,
        None => path,
    }
}

/// The text by which `path` is shown under the directory `base`.
pub fn display_path(path: &str, base: &str) -> (r: String)
    ensures
        r@ == shown_path(path@, base@),
{
    match relative_to(path, base) {
        Some(rel) => rel,
        None => path.to_string(),
    }
}

} // verus!
