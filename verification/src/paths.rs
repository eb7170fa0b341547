//! Path arithmetic on text, as the standard library does it.
//!
//! The library keeps paths as strings. What a path operation yields is not
//! restated here: each operation is a call into `std::path`, and its result
//! is known to the proofs only by name. Each result is a function of the
//! texts alone: these operations read no environment and touch no disk,
//! and the path syntax is fixed when the library is compiled.

use crate::text::texts;
use vstd::prelude::*;

verus! {

/// The path that `std::path::Path::join` makes of `base` and `rel`.
pub uninterp spec fn joined_path(base: Seq<char>, rel: Seq<char>) -> Seq<char>;

/// The final component that `std::path::Path::file_name` finds in `path`,
/// if it finds one.
pub uninterp spec fn path_file_name(path: Seq<char>) -> Option<Seq<char>>;

/// The path that `std::path::Path::with_extension` makes of `path` and
/// `extension`.
pub uninterp spec fn path_with_extension(path: Seq<char>, extension: Seq<char>) -> Seq<char>;

/// Whether `std::path::Path::starts_with` finds `base` to be a prefix of
/// `path`, component by component.
pub uninterp spec fn path_starts_with(path: Seq<char>, base: Seq<char>) -> bool;

/// Whether `std::path::Path::ends_with` finds `child` to be a suffix of
/// `path`, component by component.
pub uninterp spec fn path_ends_with(path: Seq<char>, child: Seq<char>) -> bool;

/// Whether `std::path::Path::is_absolute` holds of `path`.
pub uninterp spec fn path_is_absolute(path: Seq<char>) -> bool;

/// Calls `std::path::Path::join`. The contract only names the result.
#[verifier::external_body]
pub(crate) fn join(base: &str, rel: &str) -> (r: String)
    ensures
        r@ == joined_path(base@, rel@),
{
    std::path::Path::new(base).join(rel).to_string_lossy().into_owned()
}

/// Calls `std::path::Path::file_name`. The contract only names the result.
#[verifier::external_body]
pub(crate) fn file_name(path: &str) -> (r: Option<String>)
    ensures
        r is Some <==> path_file_name(path@) is Some,
        r matches Some(name) ==> path_file_name(path@) == Some(name@),
{
    std::path::Path::new(path).file_name().map(|name| name.to_string_lossy().into_owned())
}

/// Calls `std::path::Path::with_extension`, which panics on an extension
/// that holds a path separator: only the empty extension is admitted. The
/// contract only names the result.
#[verifier::external_body]
pub(crate) fn with_extension(path: &str, extension: &str) -> (r: String)
    requires
        extension@.len() == 0,
    ensures
        r@ == path_with_extension(path@, extension@),
{
    std::path::Path::new(path).with_extension(extension).to_string_lossy().into_owned()
}

/// Calls `std::path::Path::starts_with`. The contract only names the
/// result.
#[verifier::external_body]
pub(crate) fn starts_with(path: &str, base: &str) -> (r: bool)
    ensures
        r == path_starts_with(path@, base@),
{
    std::path::Path::new(path).starts_with(base)
}

/// Calls `std::path::Path::ends_with`. The contract only names the result.
#[verifier::external_body]
pub(crate) fn ends_with(path: &str, child: &str) -> (r: bool)
    ensures
        r == path_ends_with(path@, child@),
{
    std::path::Path::new(path).ends_with(child)
}

/// Calls `std::path::Path::is_absolute`. The contract only names the
/// result.
#[verifier::external_body]
pub(crate) fn is_absolute(path: &str) -> (r: bool)
    ensures
        r == path_is_absolute(path@),
{
    std::path::Path::new(path).is_absolute()
}

/// Whether every path has a final component.
pub open spec fn all_have_file_names(paths: Seq<Seq<char>>) -> bool {
    forall|i: int| 0 <= i < paths.len() ==> (#[trigger] path_file_name(paths[i])) is Some
}

/// The final component of each of `paths`, or `None` if one of them has
/// none.
pub fn base_names(paths: &Vec<String>) -> (r: Option<Vec<String>>)
    ensures
        r is Some <==> all_have_file_names(texts(paths@)),
        r matches Some(names) ==> names.len() == paths.len() && forall|i: int|
            0 <= i < paths.len() ==> path_file_name(#[trigger] paths@[i]@) == Some(names@[i]@),
{
    let mut names: Vec<String> = Vec::new();
    let mut i: usize = 0;
    while i < paths.len()
        invariant
            i <= paths.len(),
            names.len() == i,
            forall|k: int|
                0 <= k < i ==> path_file_name(#[trigger] paths@[k]@) == Some(names@[k]@),
        decreases paths.len() - i,
    {
        match file_name(paths[i].as_str()) {
            Some(name) => {
                names.push(name);
            },
            None => {
                assert(texts(paths@)[i as int] == paths@[i as int]@);
                return None;
            },
        }
        i += 1;
    }
    assert forall|k: int| 0 <= k < texts(paths@).len() implies (#[trigger] path_file_name(
        texts(paths@)[k],
    )) is Some by {
        assert(path_file_name(paths@[k]@) == Some(names@[k]@));
    }
    Some(names)
}

} // verus!
