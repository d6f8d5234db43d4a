//! Paths as text. Joining and comparing is left to `std::path`, which
//! knows the rules of the platform.

use vstd::prelude::*;

verus! {

/// The path that `Path::join` makes of a directory and a name, on the
/// platform that the library is built for.
pub uninterp spec fn path_join(dir: Seq<char>, name: Seq<char>) -> Seq<char>;

/// Whether `Path`'s own `==` takes two texts for the same path, on the
/// platform that the library is built for.
pub uninterp spec fn same_path(a: Seq<char>, b: Seq<char>) -> bool;

/// `Path::join` on two texts. Both are valid UTF-8, so the joined path is
/// too, and it comes back as text.
#[verifier::external_body]
pub(crate) fn join_path(dir: &str, name: &str) -> (joined: String)
    ensures
        joined@ == path_join(dir@, name@),
{
    std::path::Path::new(dir).join(name).to_string_lossy().into_owned()
}

/// `==` of two `Path`s, which compares them component by component.
#[verifier::external_body]
pub(crate) fn paths_equal(a: &str, b: &str) -> (same: bool)
    ensures
        same == same_path(a@, b@),
{
    std::path::Path::new(a) == std::path::Path::new(b)
}

} // verus!
