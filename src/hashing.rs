use vstd::prelude::*;

verus! {

/// The lowercase hexadecimal SHA-256 digest of a byte string.
pub uninterp spec fn sha256_hex(data: Seq<u8>) -> Seq<char>;

/// Relies on `sha256::digest` over a byte slice: it hex-encodes the 32-byte
/// SHA-256 digest of the bytes, so the text depends on the bytes alone and
/// has 64 characters.
#[verifier::external_body]
pub(crate) fn sha256_digest(data: &Vec<u8>) -> (r: String)
    ensures
        r@ == sha256_hex(data@),
        r@.len() == 64,
{
    sha256::digest(data.as_slice())
}

} // verus!
