//! If a path can be canonicalized it exists on disk and any symlinks in its
//! path can be resolved to entities on disk.
//!
//! It can still have other problems, such as being a file when it's
//! expected to be a directory or not having correct permissions, but all
//! files involved existed when the path was canonicalized.
use vstd::prelude::*;
use crate::probe::ProbeError;
use crate::text::{quote, quoted, result_deep_view};

verus! {

/// A path with every symlink resolved, as canonicalizing gave it.
#[derive(Debug)]
pub struct CanonicalPath {
    path: String,
}

impl View for CanonicalPath {
    type V = Seq<char>;

    closed spec fn view(&self) -> Seq<char> {
        self.path@
    }
}

impl DeepView for CanonicalPath {
    type V = Seq<char>;

    open spec fn deep_view(&self) -> Seq<char> {
        self@
    }
}

impl Clone for CanonicalPath {
    fn clone(&self) -> (out: Self)
        ensures
            out == *self,
    {
        CanonicalPath { path: self.path.clone() }
    }
}

impl CanonicalPath {
    /// Takes the outcome of canonicalizing a path: the canonical form
    /// where that succeeded, the failure where it did not.
    pub fn new(probed: Result<String, ProbeError>) -> (out: Result<CanonicalPath, ProbeError>)
        ensures
            result_deep_view(out) == result_deep_view(probed),
    {
        match probed {
            Ok(path) => Ok(CanonicalPath { path }),
            Err(error) => Err(error),
        }
    }

    /// The path as it is spelled.
    pub fn as_str(&self) -> (out: &str)
        ensures
            out@ == self@,
    {
        self.path.as_str()
    }

    /// The path between backticks, as reports show it.
    pub fn display(&self) -> (out: String)
        ensures
            out@ == quoted(self@),
    {
        quote(self.path.as_str())
    }
}

} // verus!
