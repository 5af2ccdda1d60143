//! File-system path computations through `std::path`, on paths held as text.
use vstd::prelude::*;

verus! {

/// The path `Path::join` builds from `base` and `part`.
pub uninterp spec fn joined_path(base: Seq<char>, part: Seq<char>) -> Seq<char>;

/// Joins two path pieces with `std::path::Path::join`.
#[verifier::external_body]
pub(crate) fn path_join(base: &str, part: &str) -> (p: String)
    ensures
        p@ == joined_path(base@, part@),
{
    std::path::Path::new(base).join(part).to_string_lossy().into_owned()
}

/// The extension that `Path::extension` finds in a path (after the last `.`
/// of its last component; none for names like `.bashrc`), as text.
pub uninterp spec fn path_extension(path: Seq<char>) -> Option<Seq<char>>;

/// `Path::new(name).extension()`, read as text.
#[verifier::external_body]
pub(crate) fn file_extension(name: &str) -> (r: Option<String>)
    ensures
        match r {
            Some(e) => path_extension(name@) == Some(e@),
            None => path_extension(name@) is None,
        },
{
    std::path::Path::new(name).extension().and_then(|e| e.to_str()).map(|e| e.to_string())
}

/// The path that `Path::with_extension` makes: `path` with its extension
/// replaced by (or, without one, extended with) `ext`.
pub uninterp spec fn path_with_extension(path: Seq<char>, ext: Seq<char>) -> Seq<char>;

/// `Path::new(path).with_extension(ext)`, as text. `with_extension` panics
/// when the extension holds a path separator (`/`, and `\` where that is one
/// too), so such an extension is not admitted.
#[verifier::external_body]
pub(crate) fn with_extension(path: &str, ext: &str) -> (p: String)
    requires
        !ext@.contains('/'),
        !ext@.contains('\\'),
    ensures
        p@ == path_with_extension(path@, ext@),
{
    std::path::Path::new(path).with_extension(ext).to_string_lossy().into_owned()
}

} // verus!
