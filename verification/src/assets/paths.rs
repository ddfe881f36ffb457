//! Comparing file paths as the file system reads them.
use vstd::prelude::*;

verus! {

/// Whether `std::path::Path`'s equality takes the paths `a` and `b` as equal.
/// It compares the paths component by component, so repeated separators and
/// inner `.` components make no difference.
pub uninterp spec fn path_eq(a: Seq<char>, b: Seq<char>) -> bool;

/// The two paths name the same file location: they are the same text, or
/// `Path` compares them equal.
pub open spec fn paths_match(a: Seq<char>, b: Seq<char>) -> bool {
    a == b || path_eq(a, b)
}

/// Compares `a` and `b` with `==` on `std::path::Path`. Trusted: the result is
/// `path_eq` of the two texts, and the same text compares equal to itself
/// (`Path`'s equality is reflexive).
#[verifier::external_body]
pub(crate) fn same_path(a: &str, b: &str) -> (r: bool)
    ensures
        r == path_eq(a@, b@),
        a@ == b@ ==> r,
{
    std::path::Path::new(a) == std::path::Path::new(b)
}

} // verus!
