//! Where crash-safe writes stage their temporary files: the directory that
//! holds the target.

use vstd::prelude::*;
use crate::text::opt_view;

verus! {

/// What `Path::parent` gives for a path: the path without its final
/// component, if it has one.
pub uninterp spec fn path_parent(path: Seq<char>) -> Option<Seq<char>>;

/// Calls `std::path::Path::parent` on `path` and returns the parent's text.
/// The result is named `path_parent` of the path; std documents that the
/// empty path has no parent, which is all this contract claims beyond the
/// name.
#[verifier::external_body]
fn parent_of(path: &str) -> (r: Option<String>)
    ensures
        opt_view(r) == path_parent(path@),
        path@.len() == 0 ==> r is None,
{
    std::path::Path::new(path).parent().map(|p| p.to_string_lossy().into_owned())
}

/// The directory a file at `path` lives in: its parent, or `.` when it has
/// none or the parent is empty (a bare file name).
pub open spec fn parent_directory(path: Seq<char>) -> Seq<char> {
    match path_parent(path) {
        Some(p) => if p.len() > 0 {
            p
        } else {
            "."@
        },
        None => "."@,
    }
}

/// The directory in which a file at `path` is staged and published.
pub fn parent_dir(path: &str) -> (r: String)
    ensures
        r@ == parent_directory(path@),
{
    match parent_of(path) {
        Some(p) => {
            if !p.as_str().is_empty() {
                p
            } else {
                String::from_str(".")
            }
        },
        None => String::from_str("."),
    }
}

} // verus!
