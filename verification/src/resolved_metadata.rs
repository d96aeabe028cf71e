//! Metadata wrapper for clarity and consistency.
//!
//! Metadata can be read following symlinks or not, and depending on where it
//! comes from its predicates have different meanings. What is held here was
//! read following symlinks.
use vstd::prelude::*;
use crate::probe::ProbeError;

verus! {

/// Indicates the path is a file or directory, or a valid symlink to a file
/// or directory.
#[derive(Debug, Clone, Copy, PartialEq, Eq, Structural)]
pub enum ResolvedType {
    File,
    Dir,
}

impl ResolvedType {
    /// The word that reports use for this type.
    pub open spec fn text(self) -> Seq<char> {
        match self {
            ResolvedType::File => "file"@,
            ResolvedType::Dir => "directory"@,
        }
    }

    /// The word that reports use for this type.
    pub fn as_str(&self) -> (out: &'static str)
        ensures
            out@ == self.text(),
    {
        match self {
            ResolvedType::File => "file",
            ResolvedType::Dir => "directory",
        }
    }
}

/// What reading a path's metadata, following symlinks, told of it.
#[derive(Debug, Clone, Copy)]
pub struct ResolvedMetadata {
    is_dir: bool,
}

impl ResolvedMetadata {
    /// Whether the path is a directory.
    pub closed spec fn is_dir(self) -> bool {
        self.is_dir
    }

    /// Takes the outcome of reading the metadata: whether the path is a
    /// directory, or why the metadata could not be read.
    pub fn new(probed: Result<bool, ProbeError>) -> (out: Result<ResolvedMetadata, ProbeError>)
        ensures
            match probed {
                Ok(is_dir) => out matches Ok(metadata) && metadata.is_dir() == is_dir,
                Err(error) => out matches Err(e) && e@ == error@,
            },
    {
        match probed {
            Ok(is_dir) => Ok(ResolvedMetadata { is_dir }),
            Err(error) => Err(error),
        }
    }

    /// A directory is a directory; anything else, special files included,
    /// counts as a file.
    pub fn resolved_type(&self) -> (out: ResolvedType)
        ensures
            out == (if self.is_dir() {
                ResolvedType::Dir
            } else {
                ResolvedType::File
            }),
    {
        if self.is_dir {
            ResolvedType::Dir
        } else {
            ResolvedType::File
        }
    }
}

} // verus!
