//! Path texts, taken apart and put together by std's `Path`.

use vstd::prelude::*;

verus! {

/// The extension of a path as std's `Path::extension` finds it (the text
/// after the last `.` of the file name, unless that `.` starts the name), or
/// the empty text if it has none.
pub uninterp spec fn path_extension(path: Seq<char>) -> Seq<char>;

/// Calls std's `Path::extension` on `path`; a `&str` path is valid UTF-8, so
/// the extension is too. The result is a function of the text, named
/// `path_extension` (empty when there is no extension).
#[verifier::external_body]
pub(crate) fn extension_of(path: &str) -> (r: String)
    ensures
        r@ == path_extension(path@),
{
    std::path::Path::new(path).extension().and_then(|e| e.to_str()).unwrap_or("").to_string()
}

/// The file stem of a path as std's `Path::file_stem` finds it (the file
/// name without its extension), if the path has a file name.
pub uninterp spec fn path_file_stem(path: Seq<char>) -> Option<Seq<char>>;

/// Calls std's `Path::file_stem` on `path`; the result is a function of the
/// text, named `path_file_stem`.
#[verifier::external_body]
pub(crate) fn file_stem_of(path: &str) -> (r: Option<String>)
    ensures
        r is None <==> path_file_stem(path@) is None,
        r matches Some(s) ==> path_file_stem(path@) == Some(s@),
{
    std::path::Path::new(path).file_stem().and_then(|s| s.to_str()).map(|s| s.to_string())
}

/// `path` relative to `base`, as std's `Path::strip_prefix` finds it, if
/// `base` is a prefix of `path` component by component.
pub uninterp spec fn path_strip_prefix(path: Seq<char>, base: Seq<char>) -> Option<Seq<char>>;

/// Calls std's `Path::strip_prefix`; the result is a function of the two
/// texts, named `path_strip_prefix`.
#[verifier::external_body]
pub(crate) fn strip_prefix_of(path: &str, base: &str) -> (r: Option<String>)
    ensures
        r is None <==> path_strip_prefix(path@, base@) is None,
        r matches Some(s) ==> path_strip_prefix(path@, base@) == Some(s@),
{
    std::path::Path::new(path).strip_prefix(base).ok().and_then(|p| p.to_str()).map(|s| s.to_string())
}

/// The path that std's `Path::join` makes of `base` and `rel`.
pub uninterp spec fn path_join(base: Seq<char>, rel: Seq<char>) -> Seq<char>;

/// Calls std's `Path::join`; joining two valid texts gives a valid text. The
/// result is a function of the two texts, named `path_join`.
#[verifier::external_body]
pub(crate) fn join_paths(base: &str, rel: &str) -> (r: String)
    ensures
        r@ == path_join(base@, rel@),
{
    std::path::Path::new(base).join(rel).to_str().unwrap_or("").to_string()
}

/// Whether two path texts name the same path as std's `Path` compares them
/// (component by component).
pub uninterp spec fn same_path(a: Seq<char>, b: Seq<char>) -> bool;

/// Compares two paths with std's `PartialEq` for `Path`, which compares their
/// components; the answer is a function of the two texts, named `same_path`.
/// `Path` is `Eq`, so a text is the same path as itself.
#[verifier::external_body]
pub(crate) fn paths_equal(a: &str, b: &str) -> (r: bool)
    ensures
        r == same_path(a@, b@),
        a@ == b@ ==> r,
{
    std::path::Path::new(a) == std::path::Path::new(b)
}

} // verus!
