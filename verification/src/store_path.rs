//! Object store locations.
//!
//! A location is the textual form of an `object_store::path::Path`: segments
//! separated by `/`. The library keeps locations as strings and leaves their
//! interpretation to the `object_store` crate.

use object_store::path::Path;
use vstd::prelude::*;

verus! {

/// The last segment of the path that `Path::from` builds from `location`,
/// as `Path::filename` returns it; `None` for the root path.
pub uninterp spec fn path_filename(location: Seq<char>) -> Option<Seq<char>>;

/// The textual form of the path that `Path::join` builds from the path of
/// `location` and the single segment `child`.
pub uninterp spec fn path_child(location: Seq<char>, child: Seq<char>) -> Seq<char>;

/// Calls `object_store::path::Path::filename` on the path made from
/// `location` by `Path::from`. The result is a function of `location` alone,
/// which this contract names `path_filename`; nothing else is claimed of it.
#[verifier::external_body]
pub(crate) fn filename_of(location: &str) -> (name: Option<String>)
    ensures
        name is Some <==> path_filename(location@) is Some,
        name is Some ==> name->0@ == path_filename(location@)->0,
{
    match Path::from(location).filename() {
        Some(name) => Some(name.to_string()),
        None => None,
    }
}

/// Calls `object_store::path::Path::join` to append the segment `child` to
/// the path made from `location` by `Path::from`, and returns the textual
/// form of the result. The result is a function of the two arguments alone,
/// which this contract names `path_child`; nothing else is claimed of it.
#[verifier::external_body]
pub(crate) fn child_of(location: &str, child: &str) -> (joined: String)
    ensures
        joined@ == path_child(location@, child@),
{
    String::from(Path::from(location).join(child))
}

} // verus!
