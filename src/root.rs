//! The single directory under which repositories are laid out.

use std::path::PathBuf;
use vstd::prelude::*;

verus! {

#[verifier::external_type_specification]
#[verifier::external_body]
pub struct ExPathBuf(PathBuf);

/// The root directory of the managed repositories.
#[derive(Debug, PartialEq, Eq, Hash)]
pub struct Root {
    path: PathBuf,
}

impl Root {
    pub closed spec fn path_spec(&self) -> PathBuf {
        self.path
    }

    /// A root at `path`.
    pub fn new(path: PathBuf) -> (r: Root)
        ensures
            r.path_spec() == path,
    {
        Root { path }
    }

    /// The root directory.
    pub fn path(&self) -> (r: &PathBuf)
        ensures
            *r == self.path_spec(),
    {
        &self.path
    }
}

} // verus!
