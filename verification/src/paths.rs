//! Paths, held as text.
//!
//! The library never touches the file system. It only says where things
//! are, and for that it adjoins path components the way the platform does.

use std::path::Path;
use vstd::prelude::*;

verus! {

/// The path that adjoining `part` to `base` gives under the path rules of
/// the platform the crate is built for.
pub uninterp spec fn joined(base: Seq<char>, part: Seq<char>) -> Seq<char>;

/// Adjoins `part` to `base`.
///
/// Trusted: the body calls `std::path::Path::join`. The contract claims
/// only that the text of the resulting path is a function of the two texts
/// handed in; it gives that function the name [`joined`] and says nothing of
/// its value. Both arguments are valid Unicode, so the result is too, and
/// turning it back into a `String` changes nothing.
#[verifier::external_body]
pub(crate) fn join_path(base: &str, part: &str) -> (r: String)
    ensures
        r@ == joined(base@, part@),
{
    Path::new(base).join(part).to_string_lossy().into_owned()
}

} // verus!
