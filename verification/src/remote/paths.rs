//! Paths as sequences of components.

use std::path::{Path, PathBuf};
use vstd::prelude::*;

verus! {

/// A borrowed path.
#[verifier::external_type_specification]
#[verifier::external_body]
pub struct ExPath(std::path::Path);

/// An owned path.
#[verifier::external_type_specification]
#[verifier::external_body]
pub struct ExPathBuf(std::path::PathBuf);

/// The components of a borrowed path, from the first to the last, each as text: the
/// path's text cut at its separators and behind the colon of a drive, a root being the
/// first component, with empty parts left out, and `.` parts where `Path::components`
/// leaves them out on Unix. On Windows each part of a prefix counts as one of its own,
/// so a server's name without a share is one component.
pub uninterp spec fn components(path: &Path) -> Seq<Seq<char>>;

/// The components of an owned path, from the first to the last, each as text: its text
/// cut as `components` cuts that of a borrowed path.
pub uninterp spec fn owned_components(path: &PathBuf) -> Seq<Seq<char>>;

/// A name that is one component of a path: not empty, not `.` or `..`, and without
/// the characters that separate components or end a prefix.
pub open spec fn is_component(name: Seq<char>) -> bool {
    &&& name.len() > 0
    &&& name != seq!['.']
    &&& name != seq!['.', '.']
    &&& !name.contains('/')
    &&& !name.contains('\\')
    &&& !name.contains(':')
}

/// `PathBuf::as_path`: the same path, borrowed.
pub assume_specification[ std::path::PathBuf::as_path ](path: &std::path::PathBuf) -> (borrowed:
    &std::path::Path)
    ensures
        components(borrowed) == owned_components(path),
;

/// `Path::join` with a single component: the components of `directory`, as `components`
/// has them, and `name` behind them.
#[verifier::external_body]
pub(crate) fn join(directory: &Path, name: &str) -> (joined: PathBuf)
    requires
        is_component(name@),
    ensures
        owned_components(&joined) == components(directory).push(name@),
{
    directory.join(name)
}

} // verus!
