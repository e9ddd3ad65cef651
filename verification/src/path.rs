//! Paths below the directory of the running program.

use vstd::prelude::*;

verus! {

/// The path that results when `relative` is adjoined to `base`. Joining works
/// on the two texts alone and looks at no file, so equal texts give equal
/// paths.
pub uninterp spec fn joined_path(base: Seq<char>, relative: Seq<char>) -> Seq<char>;

/// `Path::join` of the standard library, on paths given and returned as text.
/// Trusted, not proved: the result is the path that `joined_path` names for
/// the two arguments. Both arguments are Unicode text, and so is the path
/// made of them, which is why it can be handed back as a `String`.
#[verifier::external_body]
pub(crate) fn join_path(base: &str, relative: &str) -> (joined: String)
    ensures
        joined@ == joined_path(base@, relative@),
{
    std::path::Path::new(base).join(relative).to_string_lossy().into_owned()
}

} // verus!
