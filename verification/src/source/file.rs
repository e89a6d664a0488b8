//! The usage file that a status-line hook keeps up to date.
use vstd::prelude::*;

verus! {

#[verifier::external_type_specification]
#[verifier::external_body]
pub struct ExPathBuf(std::path::PathBuf);

/// Reads usage from a JSON file at a fixed path.
pub struct FileUsageSource {
    path: std::path::PathBuf,
}

impl FileUsageSource {
    /// The file this source reads.
    pub closed spec fn location(&self) -> std::path::PathBuf {
        self.path
    }

    /// A source reading the file at `path`.
    pub fn new(path: std::path::PathBuf) -> (r: Self)
        ensures
            r.location() == path,
    {
        FileUsageSource { path }
    }

    /// The file this source reads.
    pub fn path(&self) -> (r: &std::path::PathBuf)
        ensures
            *r == self.location(),
    {
        &self.path
    }
}

} // verus!
