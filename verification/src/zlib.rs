//! The zlib codec, which the `flate2` crate provides.

use std::io::Read;
use std::io::Write;
use vstd::prelude::*;

verus! {

/// What inflating the zlib stream at the front of `data` yields: the
/// uncompressed bytes, or `None` when `data` does not begin with a complete,
/// valid stream. Bytes behind the stream play no part.
pub uninterp spec fn zlib_inflated(data: Seq<u8>) -> Option<Seq<u8>>;

/// What deflating `data` into one zlib stream at the default level yields:
/// the stream, or `None` when the encoder reports an error.
pub uninterp spec fn zlib_deflated(data: Seq<u8>) -> Option<Seq<u8>>;

/// Inflates the zlib stream at the front of `data`.
///
/// Trusted: reads a `flate2::read::ZlibDecoder` over `data` to its end. The
/// contract names the outcome `zlib_inflated(data)` and says nothing more
/// of it: success and output are a function of the input bytes.
#[verifier::external_body]
pub(crate) fn decompress_zlib(data: &[u8]) -> (r: Option<Vec<u8>>)
    ensures
        match r {
            Some(v) => zlib_inflated(data@) == Some(v@),
            None => zlib_inflated(data@) is None,
        },
{
    let mut decoder = flate2::read::ZlibDecoder::new(data);
    let mut result = Vec::new();
    match decoder.read_to_end(&mut result) {
        Ok(_) => Some(result),
        Err(_) => None,
    }
}

/// Deflates `data` into one zlib stream at the default level.
///
/// Trusted: writes `data` through a `flate2::write::ZlibEncoder` and
/// finishes it. The contract names the outcome `zlib_deflated(data)`:
/// success and output are a function of the input bytes. It claims one
/// thing more, that a stream that comes out inflates to `data` again. It
/// does not say which stream, nor that the encoder succeeds.
#[verifier::external_body]
pub(crate) fn compress_zlib(data: &[u8]) -> (r: Option<Vec<u8>>)
    ensures
        match r {
            Some(z) => zlib_deflated(data@) == Some(z@),
            None => zlib_deflated(data@) is None,
        },
        r matches Some(z) ==> zlib_inflated(z@) == Some(data@),
{
    let mut encoder = flate2::write::ZlibEncoder::new(Vec::new(), flate2::Compression::default());
    match encoder.write_all(data) {
        Ok(_) => encoder.finish().ok(),
        Err(_) => None,
    }
}

} // verus!
