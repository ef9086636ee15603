//! Content checksums: SHA-1 digests written as lowercase hex.

use crypto::digest::Digest;
use vstd::prelude::*;
use vstd::string::*;

verus! {

/// The SHA-1 digest of `data`, as lowercase hex digits.
pub uninterp spec fn sha1_hex(data: Seq<u8>) -> Seq<char>;

/// Relies on crypto::sha1::Sha1 through crypto::digest::Digest (input, then result_str):
/// the SHA-1 digest of `data`, written as 40 lowercase hex digits.
#[verifier::external_body]
fn sha1_of(data: &[u8]) -> (r: String)
    ensures
        r@ == sha1_hex(data@),
        r@.len() == 40,
{
    let mut hasher = crypto::sha1::Sha1::new();
    hasher.input(data);
    hasher.result_str()
}

/// The checksum of a byte string, such as the contents of a file.
pub fn content_sha128(data: &[u8]) -> (r: String)
    ensures
        r@ == sha1_hex(data@),
        r@.len() == 40,
{
    sha1_of(data)
}

/// The checksum of the UTF-8 bytes of `text`.
pub fn str_sha128(text: &str) -> (r: String)
    ensures
        r@ == sha1_hex(text.spec_bytes()),
        r@.len() == 40,
{
    sha1_of(text.as_bytes())
}

} // verus!
