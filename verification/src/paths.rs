//! Path operations from `std::path`, as the rest of the library sees them.
//!
//! Paths travel through this library as UTF-8 strings. Joining, taking a
//! parent and comparing are done by `std::path::Path` itself; the names below
//! stand for what it returns. The app only targets Unix, where a path is
//! absolute exactly when it starts with `/`.
use std::path::Path;
use vstd::prelude::*;

verus! {

/// On Unix a path is absolute when it starts with the root.
pub open spec fn is_absolute_path(p: Seq<char>) -> bool {
    p.len() > 0 && p[0] == '/'
}

/// What `Path::join` gives back, read as a string.
pub uninterp spec fn path_join(base: Seq<char>, rest: Seq<char>) -> Seq<char>;

/// What `Path::parent` gives back, read as a string.
pub uninterp spec fn path_parent(path: Seq<char>) -> Option<Seq<char>>;

/// Whether `Path`'s `==` holds between two paths (it compares components).
pub uninterp spec fn path_eq(a: Seq<char>, b: Seq<char>) -> bool;

/// Two paths are the same path: equal strings, or equal as `Path`s.
pub open spec fn same_path(a: Seq<char>, b: Seq<char>) -> bool {
    a == b || path_eq(a, b)
}

pub open spec fn opt_string_view(o: Option<String>) -> Option<Seq<char>> {
    match o {
        Some(s) => Some(s@),
        None => None,
    }
}

/// `Path::is_absolute`. Its documentation says that on Unix a path is
/// absolute when it starts with the root, and that is all this claims.
#[verifier::external_body]
pub(crate) fn is_absolute(path: &str) -> (b: bool)
    ensures
        b == is_absolute_path(path@),
{
    Path::new(path).is_absolute()
}

/// `Path::join`, read back as a string. Claims the result is the named
/// `path_join` of the two arguments, and, since joining extends the base or
/// replaces it with an absolute path, that an absolute base stays absolute.
/// The exact text of the result is left unsaid.
#[verifier::external_body]
pub(crate) fn join(base: &str, rest: &str) -> (r: String)
    ensures
        r@ == path_join(base@, rest@),
        is_absolute_path(base@) ==> is_absolute_path(r@),
{
    Path::new(base).join(rest).to_string_lossy().into_owned()
}

/// `Path::parent`, read back as a string. Claims only that the result is the
/// named `path_parent` of the argument.
#[verifier::external_body]
pub(crate) fn parent(path: &str) -> (r: Option<String>)
    ensures
        opt_string_view(r) == path_parent(path@),
{
    match Path::new(path).parent() {
        Some(p) => Some(p.to_string_lossy().into_owned()),
        None => None,
    }
}

/// `==` on `Path`. Claims the result is the named `path_eq`, and, since `Path`
/// is `Eq` and so reflexive, that equal strings are equal paths.
#[verifier::external_body]
pub(crate) fn paths_equal(a: &str, b: &str) -> (r: bool)
    ensures
        r == path_eq(a@, b@),
        a@ == b@ ==> r,
{
    Path::new(a) == Path::new(b)
}

} // verus!
