//! Fluent assertions for tests that collect every failure of a session and
//! report them together when the session ends.
pub mod text;
pub mod trace;
pub mod assertion;
pub mod instance;
pub mod messages;
pub mod matcher;
pub mod sequence;
pub mod vec_assertion;
pub mod slice_assertion;
pub mod laws;
pub mod fs_error;
pub mod tmp_files;
pub mod file_tree;

pub use assertion::{new, Assertion, FailResult, IgnorePanic, InstanceConfig, ScopeExit};
pub use file_tree::{FileNode, OpenMode};
pub use fs_error::FsTestError;
pub use instance::{Expected, Instance};
pub use matcher::{Matcher, SimpleMatcher};
pub use tmp_files::TmpTestFolder;
