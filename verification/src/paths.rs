//! File-system paths are held as text; the operations of `std::path` that the
//! library needs are called through the items below. Their results are only
//! known through the names declared here (platform rules are not restated).

use vstd::prelude::*;
use crate::models::opt_text;

verus! {

/// Result of `Path::join` on two paths.
pub uninterp spec fn path_join(base: Seq<char>, part: Seq<char>) -> Seq<char>;

/// Result of `Path::file_name`.
pub uninterp spec fn path_file_name(p: Seq<char>) -> Option<Seq<char>>;

/// Result of `Path::file_stem`.
pub uninterp spec fn path_file_stem(p: Seq<char>) -> Option<Seq<char>>;

/// Result of `Path::extension`.
pub uninterp spec fn path_extension(p: Seq<char>) -> Option<Seq<char>>;

/// Result of `Path::parent`.
pub uninterp spec fn path_parent(p: Seq<char>) -> Option<Seq<char>>;

/// Result of `Path::strip_prefix`: the rest of `p` after `base`, if `base` is
/// a prefix of `p` component by component.
pub uninterp spec fn path_strip_prefix(p: Seq<char>, base: Seq<char>) -> Option<Seq<char>>;

/// Calls `Path::join`; the result is only known through `path_join`.
#[verifier::external_body]
pub(crate) fn join_path(base: &str, part: &str) -> (res: String)
    ensures
        res@ == path_join(base@, part@),
{
    std::path::Path::new(base).join(part).to_string_lossy().into_owned()
}

/// Calls `Path::file_name`; the result is only known through `path_file_name`.
#[verifier::external_body]
pub(crate) fn file_name(p: &str) -> (res: Option<String>)
    ensures
        opt_text(res) == path_file_name(p@),
{
    std::path::Path::new(p).file_name().map(|n| n.to_string_lossy().into_owned())
}

/// Calls `Path::file_stem`; the result is only known through `path_file_stem`.
#[verifier::external_body]
pub(crate) fn file_stem(p: &str) -> (res: Option<String>)
    ensures
        opt_text(res) == path_file_stem(p@),
{
    std::path::Path::new(p).file_stem().map(|n| n.to_string_lossy().into_owned())
}

/// Calls `Path::extension`; the result is only known through `path_extension`.
#[verifier::external_body]
pub(crate) fn extension(p: &str) -> (res: Option<String>)
    ensures
        opt_text(res) == path_extension(p@),
{
    std::path::Path::new(p).extension().map(|n| n.to_string_lossy().into_owned())
}

/// Calls `Path::parent`; the result is only known through `path_parent`.
#[verifier::external_body]
pub(crate) fn parent(p: &str) -> (res: Option<String>)
    ensures
        opt_text(res) == path_parent(p@),
{
    std::path::Path::new(p).parent().map(|n| n.to_string_lossy().into_owned())
}

/// Calls `Path::strip_prefix`; the result is only known through
/// `path_strip_prefix`.
#[verifier::external_body]
pub(crate) fn strip_prefix(p: &str, base: &str) -> (res: Option<String>)
    ensures
        opt_text(res) == path_strip_prefix(p@, base@),
{
    std::path::Path::new(p).strip_prefix(base).ok().map(|r| r.to_string_lossy().into_owned())
}

} // verus!
