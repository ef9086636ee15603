//! Gzip compression of serialized documents.

use std::io::Write;
use vstd::prelude::*;

verus! {

/// Declares std::io::Error, the failure type of writing into the encoder.
#[verifier::external_type_specification]
#[verifier::external_body]
pub struct ExIoError(std::io::Error);

/// The gzip stream (default level) that compresses `data`.
pub uninterp spec fn gzip_of(data: Seq<u8>) -> Seq<u8>;

/// Relies on flate2::write::GzEncoder with flate2::Compression::default(), writing into
/// a `Vec`: writing into memory does not fail, and the result is the gzip stream of `data`.
#[verifier::external_body]
fn gzip(data: &[u8]) -> (r: Result<Vec<u8>, std::io::Error>)
    ensures
        r is Ok,
        r matches Ok(z) ==> z@ == gzip_of(data@),
{
    let mut encoder = flate2::write::GzEncoder::new(Vec::new(), flate2::Compression::default());
    match encoder.write_all(data) {
        Ok(()) => encoder.finish(),
        Err(e) => Err(e),
    }
}

/// Compresses `data` into a gzip stream.
pub fn compress(data: &[u8]) -> (r: Vec<u8>)
    ensures
        r@ == gzip_of(data@),
{
    match gzip(data) {
        Ok(z) => z,
        Err(_) => Vec::new(),
    }
}

} // verus!
