//! Compression strategies for the stored bytes of embedded files.

use vstd::prelude::*;

verus! {

/// What zstd decoding returns on a given byte sequence: the decoded bytes,
/// or `None` where the sequence is not a well-formed zstd stream.
pub uninterp spec fn zstd_decoded(stored: Seq<u8>) -> Option<Seq<u8>>;

/// What lz4 block decoding returns on a given byte sequence: the decoded
/// bytes, or `None` where the sequence is not a well-formed lz4 block.
pub uninterp spec fn lz4_decoded(stored: Seq<u8>) -> Option<Seq<u8>>;

/// A way of decoding the stored bytes of an embedded file into its logical
/// contents.
///
/// A strategy is a pure function of the stored bytes: `decompressed` names
/// the decoded form, and `decompress` computes it, reporting `None` exactly
/// where the stored bytes are not well formed for the strategy.  Strategies
/// keep no state between calls.
pub trait Compression {
    /// The decoded form of `stored`, or `None` where `stored` is malformed
    /// for this strategy.
    spec fn decompressed(stored: Seq<u8>) -> Option<Seq<u8>>;

    /// Decode `stored` in one call.
    fn decompress(stored: &[u8]) -> (r: Option<Vec<u8>>)
        ensures
            match r {
                Some(v) => Self::decompressed(stored@) == Some(v@),
                None => Self::decompressed(stored@) is None,
            },
    ;
}

/// Do not compress embedded files: the stored bytes are the contents.
pub enum Identity {
    /// The one variant; strategies are type-level markers and are never
    /// constructed.
    Marker,
}

impl Compression for Identity {
    open spec fn decompressed(stored: Seq<u8>) -> Option<Seq<u8>> {
        Some(stored)
    }

    fn decompress(stored: &[u8]) -> (r: Option<Vec<u8>>) {
        Some(vstd::slice::slice_to_vec(stored))
    }
}

/// Zstd-compress embedded files.
pub enum Zstd {
    /// The one variant; strategies are type-level markers and are never
    /// constructed.
    Marker,
}

impl Compression for Zstd {
    open spec fn decompressed(stored: Seq<u8>) -> Option<Seq<u8>> {
        zstd_decoded(stored)
    }

    fn decompress(stored: &[u8]) -> (r: Option<Vec<u8>>) {
        zstd_decode(stored)
    }
}

impl Zstd {
    /// Encode `data` so that [`Zstd::decompress`] decodes it back, at the
    /// given compression level (`0` meaning the codec's default).
    ///
    /// This is the build-time half of the strategy; the tree itself only
    /// ever decodes.  Encoding reports `None` only where the codec itself
    /// fails.
    pub fn compress(data: &[u8], level: i32) -> (r: Option<Vec<u8>>)
        ensures
            r matches Some(v) ==> Self::decompressed(v@) == Some(data@),
    {
        zstd_encode(data, level)
    }
}

/// Lz4-compress embedded files.
pub enum Lz4 {
    /// The one variant; strategies are type-level markers and are never
    /// constructed.
    Marker,
}

impl Compression for Lz4 {
    open spec fn decompressed(stored: Seq<u8>) -> Option<Seq<u8>> {
        lz4_decoded(stored)
    }

    fn decompress(stored: &[u8]) -> (r: Option<Vec<u8>>) {
        lz4_decode(stored)
    }
}

impl Lz4 {
    /// Encode `data` so that [`Lz4::decompress`] decodes it back.
    ///
    /// This is the build-time half of the strategy; the tree itself only
    /// ever decodes.
    pub fn compress(data: &[u8]) -> (r: Vec<u8>)
        ensures
            Self::decompressed(r@) == Some(data@),
    {
        lz4_encode(data)
    }
}

/// Relies on `zstd::decode_all`: decoding a byte slice is a function of the
/// bytes alone, and it fails exactly where they are not a well-formed zstd
/// stream.
#[verifier::external_body]
fn zstd_decode(stored: &[u8]) -> (r: Option<Vec<u8>>)
    ensures
        match r {
            Some(v) => zstd_decoded(stored@) == Some(v@),
            None => zstd_decoded(stored@) is None,
        },
{
    zstd::decode_all(stored).ok()
}

/// Relies on `zstd::encode_all`: whatever it encodes, `zstd::decode_all`
/// decodes back to the input.
#[verifier::external_body]
fn zstd_encode(data: &[u8], level: i32) -> (r: Option<Vec<u8>>)
    ensures
        r matches Some(v) ==> zstd_decoded(v@) == Some(data@),
{
    zstd::encode_all(data, level).ok()
}

/// Relies on `lz4_compression::decompress::decompress`: decoding a byte
/// slice is a function of the bytes alone, and it fails exactly where they
/// are not a well-formed lz4 block.
#[verifier::external_body]
fn lz4_decode(stored: &[u8]) -> (r: Option<Vec<u8>>)
    ensures
        match r {
            Some(v) => lz4_decoded(stored@) == Some(v@),
            None => lz4_decoded(stored@) is None,
        },
{
    lz4_compression::decompress::decompress(stored).ok()
}

/// Relies on `lz4_compression::compress::compress`: it never fails, and
/// `lz4_compression::decompress::decompress` decodes its output back to the
/// input.
#[verifier::external_body]
fn lz4_encode(data: &[u8]) -> (r: Vec<u8>)
    ensures
        lz4_decoded(r@) == Some(data@),
{
    lz4_compression::compress::compress(data)
}

} // verus!
