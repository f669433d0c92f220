//! File-system path operations, on paths held as text.
//!
//! The library keeps paths as `String`s. What `std::path` does with them
//! (joining, prefix stripping, file names) is taken from std through trusted
//! wrappers whose results are named, so contracts can say which path comes out.
use vstd::prelude::*;

verus! {

/// `Path::join`: `rest` appended to `base` (replacing it when `rest` is absolute).
pub uninterp spec fn spec_path_join(base: Seq<char>, rest: Seq<char>) -> Seq<char>;

/// `Path::is_absolute`.
pub uninterp spec fn spec_path_is_absolute(p: Seq<char>) -> bool;

/// `Path::strip_prefix`: the rest of `path` after the components of `base`, if it starts with them.
pub uninterp spec fn spec_path_strip_prefix(path: Seq<char>, base: Seq<char>) -> Option<Seq<char>>;

/// `Path::file_name` as UTF-8 text: the last component, if it is a normal one.
pub uninterp spec fn spec_path_file_name(p: Seq<char>) -> Option<Seq<char>>;

/// `Path::components`, each component's text (lossily decoded), in order.
pub uninterp spec fn spec_path_components(p: Seq<char>) -> Seq<Seq<char>>;

/// Wraps `Path::components`, taking each component's text with `to_string_lossy`.
/// Claims: the result is the named component list.
#[verifier::external_body]
pub(crate) fn path_components(p: &str) -> (r: Vec<String>)
    ensures
        crate::text::views(r@) == spec_path_components(p@),
{
    std::path::Path::new(p).components().map(|c| c.as_os_str().to_string_lossy().into_owned()).collect()
}

/// Wraps `Path::new(base).join(rest)`. Claims: the result is the named join.
#[verifier::external_body]
pub(crate) fn path_join(base: &str, rest: &str) -> (r: String)
    ensures
        r@ == spec_path_join(base@, rest@),
{
    std::path::Path::new(base).join(rest).to_string_lossy().into_owned()
}

/// Wraps `Path::is_absolute`. Claims: the result is the named test.
#[verifier::external_body]
pub(crate) fn path_is_absolute(p: &str) -> (b: bool)
    ensures
        b == spec_path_is_absolute(p@),
{
    std::path::Path::new(p).is_absolute()
}

/// Wraps `Path::strip_prefix`. Claims: the result is the named remainder.
#[verifier::external_body]
pub(crate) fn path_strip_prefix(path: &str, base: &str) -> (r: Option<String>)
    ensures
        match r {
            Some(s) => spec_path_strip_prefix(path@, base@) == Some(s@),
            None => spec_path_strip_prefix(path@, base@) is None,
        },
{
    std::path::Path::new(path).strip_prefix(base).ok().map(|p| p.to_string_lossy().into_owned())
}

/// Wraps `Path::file_name` and `OsStr::to_str`. Claims: the result is the named file name.
#[verifier::external_body]
pub(crate) fn path_file_name(p: &str) -> (r: Option<String>)
    ensures
        match r {
            Some(s) => spec_path_file_name(p@) == Some(s@),
            None => spec_path_file_name(p@) is None,
        },
{
    std::path::Path::new(p).file_name().and_then(|s| s.to_str()).map(|s| s.to_string())
}

} // verus!
