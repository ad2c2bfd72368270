//! Trusted boundary to the gzip decompressor.

use vstd::prelude::*;

use std::io::Read;

verus! {

#[verifier::external_type_specification]
#[verifier::external_body]
pub struct ExIoError(std::io::Error);

/// What decompressing a byte sequence yields. Decompression of a complete
/// in-memory stream is a function of the compressed bytes alone; `None`
/// stands for a stream the decoder rejects.
pub uninterp spec fn gunzip_of(data: Seq<u8>) -> Option<Seq<u8>>;

/// Relies on flate2's read::GzDecoder, driven to the end of the stream by
/// std::io::Read::read_to_end over an in-memory buffer: yields the
/// decompressed bytes, or an error exactly when the stream is not valid gzip.
#[verifier::external_body]
pub fn gunzip(data: &[u8]) -> (r: Result<Vec<u8>, std::io::Error>)
    ensures
        r is Ok <==> gunzip_of(data@) is Some,
        r matches Ok(out) ==> Some(out@) == gunzip_of(data@),
{
    let mut decoder = flate2::read::GzDecoder::new(data);
    let mut out: Vec<u8> = Vec::new();
    match decoder.read_to_end(&mut out) {
        Ok(_) => Ok(out),
        Err(e) => Err(e),
    }
}

} // verus!
