//! A file embedded in the tree: a leaf node with lazily decoded contents.

use vstd::prelude::*;

verus! {

use core::marker::PhantomData;
use once_cell::sync::OnceCell;
use vstd::string::StringSliceAdditionalSpecFns;
use vstd::utf8::{decode_utf8, valid_utf8};
use crate::compress::Compression;
use crate::metadata::Metadata;

/// once_cell's compute-once cell: the lazy slot that holds a file's decoded
/// contents once they have been computed.
#[verifier::external_type_specification]
#[verifier::external_body]
#[verifier::reject_recursive_types(T)]
pub struct ExOnceCell<T>(OnceCell<T>);

/// A file with its stored bytes embedded in the tree.
///
/// The stored bytes may be compressed with the strategy `C`; they are
/// decoded lazily, at most once for this value, on first access to
/// [`File::contents`].  Everything but the contents cache is fixed at
/// construction.
pub struct File<C: Compression> {
    path: String,
    stored: Vec<u8>,
    cache: OnceCell<Vec<u8>>,
    metadata: Option<Metadata>,
    strategy: PhantomData<C>,
}

impl<C: Compression> File<C> {
    /// The file's logical path, relative to the tree root.
    pub closed spec fn spec_path(self) -> Seq<char> {
        self.path@
    }

    /// The stored bytes, exactly as embedded (possibly compressed).
    pub closed spec fn spec_stored(self) -> Seq<u8> {
        self.stored@
    }

    /// The metadata attached at construction, if any.
    pub closed spec fn spec_metadata(self) -> Option<Metadata> {
        self.metadata
    }

    /// The file's logical contents: the stored bytes decoded by the
    /// strategy, or `None` where they are malformed for it.
    pub open spec fn spec_contents(self) -> Option<Seq<u8>> {
        C::decompressed(self.spec_stored())
    }

    /// Create a new [`File`] from its logical path and its stored bytes,
    /// with an empty contents cache and no metadata.
    pub fn new(path: String, stored: Vec<u8>) -> (r: File<C>)
        ensures
            r.spec_path() == path@,
            r.spec_stored() == stored@,
            r.spec_metadata() is None,
    {
        File { path, stored, cache: new_cache(), metadata: None, strategy: PhantomData }
    }

    /// The full path for this [`File`], relative to the tree root.
    pub fn path(&self) -> (r: &str)
        ensures
            r@ == self.spec_path(),
    {
        self.path.as_str()
    }

    /// The file's decompressed contents, or `None` where the stored bytes
    /// are malformed for the strategy.
    ///
    /// The first call decodes the stored bytes and caches the result inside
    /// this value; every later call, concurrent ones included, sees that
    /// same cached buffer, and nothing is ever decoded twice into it.
    pub fn contents(&self) -> (r: Option<&[u8]>)
        ensures
            observed_contents(*self, contents_view(r)),
    {
        cached_contents(self)
    }

    /// The file's contents interpreted as text: present exactly when
    /// [`File::contents`] is present and is valid UTF-8, and then spelling
    /// the very same bytes.
    pub fn contents_utf8(&self) -> (r: Option<&str>)
        ensures
            match r {
                Some(s) => {
                    &&& self.spec_contents() matches Some(b)
                    &&& valid_utf8(b)
                    &&& s@ == decode_utf8(b)
                    &&& s.spec_bytes() == b
                },
                None => !(self.spec_contents() matches Some(b) && valid_utf8(b)),
            },
    {
        match self.contents() {
            Some(b) => match bytes_as_str(b) {
                Some(s) => {
                    proof {
                        vstd::utf8::decode_utf8_encode_utf8(b@);
                    }
                    Some(s)
                },
                None => None,
            },
            None => None,
        }
    }

    /// Attach [`Metadata`] to this [`File`]; everything else is kept.
    pub fn with_metadata(self, metadata: Metadata) -> (r: File<C>)
        ensures
            r.spec_path() == self.spec_path(),
            r.spec_stored() == self.spec_stored(),
            r.spec_metadata() == Some(metadata),
    {
        File { metadata: Some(metadata), ..self }
    }

    /// The metadata attached at construction, if any.
    pub fn metadata(&self) -> (r: Option<&Metadata>)
        ensures
            match r {
                Some(m) => self.spec_metadata() == Some(*m),
                None => self.spec_metadata() is None,
            },
    {
        self.metadata.as_ref()
    }
}

/// The sequences of bytes that a borrowed `Option<&[u8]>` observes.
pub open spec fn contents_view(r: Option<&[u8]>) -> Option<Seq<u8>> {
    match r {
        Some(b) => Some(b@),
        None => None,
    }
}

/// What one call to [`File::contents`] may observe of `f`: the decoded
/// contents where the stored bytes decode, and absence where they do not.
pub open spec fn observed_contents<C: Compression>(f: File<C>, r: Option<Seq<u8>>) -> bool {
    match r {
        Some(b) => f.spec_contents() == Some(b),
        None => f.spec_contents() is None,
    }
}

/// Reading a file's contents is idempotent: any two observations of one
/// file — sequential or concurrent — agree byte for byte, because each is
/// the file's one decoded form.
pub proof fn lemma_contents_idempotent<C: Compression>(
    f: File<C>,
    r1: Option<Seq<u8>>,
    r2: Option<Seq<u8>>,
)
    requires
        observed_contents(f, r1),
        observed_contents(f, r2),
    ensures
        r1 == r2,
{
}

/// Relies on `once_cell::sync::OnceCell::new`: it creates an empty cell.
#[verifier::external_body]
fn new_cache() -> (r: OnceCell<Vec<u8>>) {
    OnceCell::new()
}

/// Relies on `once_cell::sync::OnceCell::get_or_try_init`: the cell is
/// written at most once, all callers — concurrent ones included — see that
/// one value, and a failed initializer writes nothing.  Files create their
/// cache empty in [`File::new`] and fill it only here, with the decoded
/// form of their stored bytes, so what is handed out is always that decoded
/// form.
#[verifier::external_body]
fn cached_contents<'a, C: Compression>(f: &'a File<C>) -> (r: Option<&'a [u8]>)
    ensures
        observed_contents(*f, contents_view(r)),
{
    f.cache.get_or_try_init(|| C::decompress(&f.stored).ok_or(())).ok().map(|v| v.as_slice())
}

/// Relies on `std::str::from_utf8`: it succeeds exactly on valid UTF-8, and
/// then returns the string those very bytes spell.
#[verifier::external_body]
fn bytes_as_str(v: &[u8]) -> (r: Option<&str>)
    ensures
        match r {
            Some(s) => valid_utf8(v@) && s@ == decode_utf8(v@),
            None => !valid_utf8(v@),
        },
{
    std::str::from_utf8(v).ok()
}

} // verus!
