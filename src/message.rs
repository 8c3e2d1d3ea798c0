use vstd::prelude::*;
use vstd::string::StrSliceExecFns;
use vstd::utf8::encode_utf8;

use crate::codec::{decimal_chars, json_u128};
use crate::hashing::{sha256_digest, sha256_hex};

verus! {

/// A block height as carried in state-sync messages.
pub struct StateBlock(pub u128);

impl StateBlock {
    /// The JSON encoding of the height: its decimal digits.
    pub fn as_bytes(&self) -> (r: Vec<u8>)
        ensures
            r@ == encode_utf8(decimal_chars(self.0 as nat)),
    {
        match json_u128(self.0) {
            Some(s) => s.as_str().as_bytes_vec(),
            None => {
                assert(false);
                Vec::new()
            },
        }
    }
}

/// A network message framing an encoded payload. Its id is the hex SHA-256
/// digest of the payload, as text bytes.
pub struct Message {
    pub id: Vec<u8>,
    pub source: Option<Vec<u8>>,
    pub data: Vec<u8>,
    pub sequence_number: Option<u128>,
    pub signature: Option<Vec<u8>>,
    pub topics: Option<Vec<String>>,
    pub key: Option<Vec<u8>>,
    pub validated: u8,
    pub return_receipt: u8,
}

/// Frames an encoded payload: the id is the digest of the payload, the
/// optional fields are empty and the message is not yet validated.
pub fn into_message(data: Vec<u8>, return_receipt: u8) -> (r: Message)
    ensures
        r.id@ == encode_utf8(sha256_hex(data@)),
        r.data@ == data@,
        r.source is None,
        r.sequence_number is None,
        r.signature is None,
        r.topics is None,
        r.key is None,
        r.validated == 0,
        r.return_receipt == return_receipt,
{
    let digest = sha256_digest(&data);
    let id = digest.as_str().as_bytes_vec();
    Message {
        id,
        source: None,
        data,
        sequence_number: None,
        signature: None,
        topics: None,
        key: None,
        validated: 0,
        return_receipt,
    }
}

} // verus!
