//! A temporary folder for tests, known by its path.
use std::path::PathBuf;
use vstd::prelude::*;

verus! {

#[verifier::external_type_specification]
#[verifier::external_body]
pub struct ExPathBuf(std::path::PathBuf);

/// A folder created for one test. Creating it on disk and removing it again
/// is left to the caller; this value carries its path.
pub struct TmpTestFolder {
    path: PathBuf,
}

impl TmpTestFolder {
    /// The path that the folder was made with.
    pub closed spec fn path_spec(&self) -> PathBuf {
        self.path
    }

    /// The folder at `path`.
    pub fn from_path(path: PathBuf) -> (r: Self)
        ensures
            r.path_spec() == path,
    {
        TmpTestFolder { path }
    }

    /// The path of the folder.
    pub fn get_path(&self) -> (r: &PathBuf)
        ensures
            *r == self.path_spec(),
    {
        &self.path
    }
}

} // verus!
