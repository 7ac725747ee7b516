//! Optional per-file metadata.

use vstd::prelude::*;

verus! {

/// Timestamps attached to a [`crate::File`] when the tree was built, each as
/// whole seconds since the Unix epoch.  Attached once at construction and
/// never changed.
#[derive(Clone, Copy, PartialEq, Eq, Structural, Debug)]
pub struct Metadata {
    pub accessed: u64,
    pub created: u64,
    pub modified: u64,
}

impl Metadata {
    /// Create a new [`Metadata`] record.
    pub fn new(accessed: u64, created: u64, modified: u64) -> (r: Metadata)
        ensures
            r == (Metadata { accessed, created, modified }),
    {
        Metadata { accessed, created, modified }
    }

    /// When the source file was last accessed, in seconds since the epoch.
    pub fn accessed(&self) -> (r: u64)
        ensures
            r == self.accessed,
    {
        self.accessed
    }

    /// When the source file was created, in seconds since the epoch.
    pub fn created(&self) -> (r: u64)
        ensures
            r == self.created,
    {
        self.created
    }

    /// When the source file was last modified, in seconds since the epoch.
    pub fn modified(&self) -> (r: u64)
        ensures
            r == self.modified,
    {
        self.modified
    }
}

} // verus!
