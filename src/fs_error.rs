//! Errors of the file-tree helpers.
use vstd::prelude::*;

verus! {

#[verifier::external_type_specification]
#[verifier::external_body]
pub struct ExIoError(std::io::Error);

/// Why a file-tree operation failed.
#[derive(Debug)]
pub enum FsTestError {
    /// The path must be a directory.
    NeedDir,
    /// The path must be a regular file.
    NeedFile,
    /// The underlying I/O operation failed.
    IoError(std::io::Error),
}

/// Relies on the `Display` impl of `std::io::Error`: the error's description.
/// Nothing is stated of the text.
#[verifier::external_body]
fn io_error_text(e: &std::io::Error) -> String {
    e.to_string()
}

impl FsTestError {
    /// The human-readable description of the error.
    pub fn message(&self) -> (r: String)
        ensures
            self is NeedDir ==> r@ == "need directory"@,
            self is NeedFile ==> r@ == "need file"@,
            self is IoError ==> exists|t: Seq<char>| r@ == "IO error occurred : "@ + t,
    {
        match self {
            FsTestError::NeedDir => String::from_str("need directory"),
            FsTestError::NeedFile => String::from_str("need file"),
            FsTestError::IoError(e) => {
                let t = io_error_text(e);
                let mut r = String::from_str("IO error occurred : ");
                r.append(t.as_str());
                r
            },
        }
    }
}

impl From<std::io::Error> for FsTestError {
    fn from(e: std::io::Error) -> (r: Self)
        ensures
            r == FsTestError::IoError(e),
    {
        FsTestError::IoError(e)
    }
}

impl vstd::std_specs::convert::FromSpecImpl<std::io::Error> for FsTestError {
    open spec fn obeys_from_spec() -> bool {
        true
    }

    open spec fn from_spec(e: std::io::Error) -> Self {
        FsTestError::IoError(e)
    }
}

} // verus!
