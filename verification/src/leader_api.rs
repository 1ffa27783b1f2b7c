//! The service's response documents for key generation and key listing,
//! and their construction from held public keys.

use vstd::prelude::*;
use vstd::string::{StrSliceExecFns, StringExecFns};
use crate::hexcode::{spec_hex_encode, hex_encode};

verus! {

/// One key-generation result: a status word and the new key in hex.
#[derive(Debug)]
pub struct KeyGenResponseInner {
    pub status: String,
    pub message: String,
}

/// The key-generation response document: exactly one result.
#[derive(Debug)]
pub struct KeyGenResponse {
    pub data: [KeyGenResponseInner; 1],
}

/// One listed key, hex-encoded with a `0x` marker.
#[derive(Debug)]
pub struct ListKeysResponseInner {
    pub pubkey: String,
}

/// The key-listing response document.
#[derive(Debug)]
pub struct ListKeysResponse {
    pub data: Vec<ListKeysResponseInner>,
}

impl KeyGenResponse {
    /// The response document for a freshly generated key: its compressed
    /// public key, hex-encoded.
    pub fn from_public_key(public_key: &[u8]) -> (r: KeyGenResponse)
        ensures
            r.data@.len() == 1,
            r.data@[0].status@ == "imported"@,
            r.data@[0].message@ == spec_hex_encode(public_key@),
    {
        let pk_hex = hex_encode(public_key);
        let inner = KeyGenResponseInner {
            status: String::from_str("imported"),
            message: pk_hex,
        };
        KeyGenResponse { data: [inner] }
    }
}

impl ListKeysResponse {
    /// The response document for a listing: each hex key with a `0x`
    /// marker in front, in the order given.
    pub fn new(keys: Vec<String>) -> (r: ListKeysResponse)
        ensures
            r.data@.len() == keys@.len(),
            forall|i: int|
                0 <= i < keys@.len() ==> (#[trigger] r.data@[i]).pubkey@ == "0x"@ + keys@[i]@,
    {
        let mut data: Vec<ListKeysResponseInner> = Vec::new();
        let mut i: usize = 0;
        while i < keys.len()
            invariant
                i <= keys@.len(),
                data@.len() == i,
                forall|t: int|
                    0 <= t < i ==> (#[trigger] data@[t]).pubkey@ == "0x"@ + keys@[t]@,
            decreases keys@.len() - i,
        {
            let prefixed = String::from_str("0x").concat(keys[i].as_str());
            data.push(ListKeysResponseInner { pubkey: prefixed });
            i = i + 1;
        }
        ListKeysResponse { data }
    }
}

} // verus!
