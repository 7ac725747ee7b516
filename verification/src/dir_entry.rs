//! The uniform tree-traversal unit: a directory or a file.

use vstd::prelude::*;

verus! {

use crate::compress::Compression;
use crate::dir::Dir;
use crate::file::File;

/// A directory entry: the tagged union over [`Dir`] and [`File`] that tree
/// traversal works on uniformly.
pub enum DirEntry<C: Compression> {
    /// A directory.
    Dir(Dir<C>),
    /// A file.
    File(File<C>),
}

impl<C: Compression> DirEntry<C> {
    /// The entry's full logical path: that of the wrapped variant.
    pub open spec fn spec_path(self) -> Seq<char> {
        match self {
            DirEntry::Dir(d) => d.spec_path(),
            DirEntry::File(f) => f.spec_path(),
        }
    }

    /// The [`DirEntry`]'s full path, relative to the tree root.
    pub fn path(&self) -> (r: &str)
        ensures
            r@ == self.spec_path(),
    {
        match self {
            DirEntry::Dir(d) => d.path(),
            DirEntry::File(f) => f.path(),
        }
    }

    /// This entry as a [`Dir`], where it is one.
    pub fn as_dir(&self) -> (r: Option<&Dir<C>>)
        ensures
            match self {
                DirEntry::Dir(d) => r == Some(d),
                DirEntry::File(_) => r is None,
            },
    {
        match self {
            DirEntry::Dir(d) => Some(d),
            DirEntry::File(_) => None,
        }
    }

    /// This entry as a [`File`], where it is one.
    pub fn as_file(&self) -> (r: Option<&File<C>>)
        ensures
            match self {
                DirEntry::File(f) => r == Some(f),
                DirEntry::Dir(_) => r is None,
            },
    {
        match self {
            DirEntry::File(f) => Some(f),
            DirEntry::Dir(_) => None,
        }
    }

    /// The entry's direct sub-entries: a directory's entries, and none for
    /// a file.  This lets tree-walking code treat every entry uniformly,
    /// without a prior kind check.
    pub fn children(&self) -> (r: &[DirEntry<C>])
        ensures
            match self {
                DirEntry::Dir(d) => r@ == d.spec_entries(),
                DirEntry::File(_) => r@ == Seq::<DirEntry<C>>::empty(),
            },
    {
        match self {
            DirEntry::Dir(d) => d.entries(),
            DirEntry::File(_) => &[],
        }
    }
}

} // verus!
