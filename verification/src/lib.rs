//! A read-only, in-memory virtual file tree.
//!
//! A tree of [`Dir`] and [`File`] values is built once, up front, and is
//! immutable from then on.  A file's stored bytes may be compressed; they are
//! decoded lazily, at most once per file, on first access to its contents.
//! Lookup walks the tree by full logical path, and [`Dir::extract_plan`]
//! turns a subtree into the sequence of filesystem actions that would
//! materialise it on disk.

pub mod compress;
pub mod dir;
pub mod dir_entry;
pub mod file;
pub mod metadata;

pub use compress::{Compression, Identity, Lz4, Zstd};
pub use dir::{Dir, FsAction, FsOp};
pub use dir_entry::DirEntry;
pub use file::File;
pub use metadata::Metadata;
