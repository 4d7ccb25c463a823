//! The commitment of a proof to its challenge message.
//!
//! A proof spends, as its input 0, output 0 of a transaction that cannot
//! exist: its id is the double SHA-256 digest of a fixed tag followed by the
//! message. Another message gives another id, so a proof cannot be shown
//! again for another challenge. Tag and hash are those of the proofs that
//! `bdk_reserves` creates.

use vstd::prelude::*;
use vstd::utf8::encode_utf8;
use crate::bytes::append_bytes;
use crate::foreign::{double_sha256, sha256d_digest};

verus! {

/// The bytes that are hashed for a message: the tag, then the message, both
/// in UTF-8.
pub open spec fn commitment_preimage(message: Seq<char>) -> Seq<u8> {
    encode_utf8("Proof-of-Reserves: "@) + encode_utf8(message)
}

/// The id of the transaction that a proof for `message` must spend first.
pub open spec fn commitment_txid(message: Seq<char>) -> Seq<u8> {
    sha256d_digest(commitment_preimage(message))
}

/// Derives the id of the commitment transaction of a message.
pub fn commitment(message: &str) -> (txid: [u8; 32])
    ensures
        txid@ == commitment_txid(message@),
{
    let mut data = "Proof-of-Reserves: ".as_bytes_vec();
    append_bytes(&mut data, message.as_bytes());
    double_sha256(data.as_slice())
}

} // verus!
