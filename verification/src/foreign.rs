//! The calls into the libraries that this one builds on: `base64`, `bitcoin`
//! (as `bdk` hands it on) and `bdk_reserves`.
//!
//! Nothing in this file is proved. Each function here makes one such call,
//! and its contract is taken on trust by everything that uses it. What a call
//! returns is a function of its arguments alone in each case, but none that a
//! few lines could state; so each result has a name, a function without a
//! body, and the contracts say no more than that the call returns what the
//! name stands for.

use std::str::FromStr;
use vstd::prelude::*;
use bdk::bitcoin::consensus::encode::{deserialize, serialize};
use bdk::bitcoin::hashes::sha256d;
use bdk::bitcoin::util::psbt::PartiallySignedTransaction;
use bdk::bitcoin::{Address, Script, TxOut};
use bdk_reserves::reserves::verify_proof;
use crate::matching::total_inflow;
use crate::model::{
    utxo_views, Network, OutPoint, Output, ProofShape, ProofShapeView, UtxoRecord, UtxoView,
};

verus! {

/// The error of `base64::decode`; nothing is read from it.
#[verifier::external_type_specification]
#[verifier::external_body]
pub struct ExDecodeError(base64::DecodeError);

/// The error of `consensus::encode::deserialize`; nothing is read from it.
#[verifier::external_type_specification]
#[verifier::external_body]
pub struct ExEncodeError(bdk::bitcoin::consensus::encode::Error);

/// The error of `Address::from_str`; nothing is read from it.
#[verifier::external_type_specification]
#[verifier::external_body]
pub struct ExAddressError(bdk::bitcoin::util::address::Error);

/// The bytes that `base64::decode` reads from a text; `None` where it
/// rejects the text.
pub uninterp spec fn base64_decoding(text: Seq<char>) -> Option<Seq<u8>>;

/// `base64::decode`, which reads the standard alphabet: the decoded bytes,
/// or the decoder's error. It panics only on a text within seven bytes of
/// `usize::MAX` in length, which no allocation can hold.
#[verifier::external_body]
pub(crate) fn decode_base64(text: &str) -> (r: Result<Vec<u8>, base64::DecodeError>)
    ensures
        r matches Ok(bytes) ==> base64_decoding(text@) == Some(bytes@),
        r is Err ==> base64_decoding(text@) is None,
{
    base64::decode(text)
}

/// What is read from the partially signed transaction that
/// `consensus::encode::deserialize` finds in a byte string; `None` where it
/// rejects the bytes.
pub uninterp spec fn psbt_decoding(raw: Seq<u8>) -> Option<ProofShapeView>;

/// `consensus::encode::deserialize` at `PartiallySignedTransaction`: of the
/// decoded value, the previous outpoint of each input of the unsigned
/// transaction and the value and script of each of its outputs, in their
/// order, and what `consensus::encode::serialize` gives for the transaction
/// that `extract_tx` makes of it; or the decoder's error.
#[verifier::external_body]
pub(crate) fn decode_psbt(raw: &[u8]) -> (r: Result<
    ProofShape,
    bdk::bitcoin::consensus::encode::Error,
>)
    ensures
        r matches Ok(shape) ==> psbt_decoding(raw@) == Some(shape@),
        r is Err ==> psbt_decoding(raw@) is None,
{
    let psbt = deserialize::<PartiallySignedTransaction>(raw)?;
    Ok(ProofShape {
        inputs: psbt.unsigned_tx.input.iter().map(|i| OutPoint {
            txid: bdk::bitcoin::hashes::Hash::into_inner(i.previous_output.txid),
            vout: i.previous_output.vout,
        }).collect(),
        outputs: psbt.unsigned_tx.output.iter().map(|o| Output {
            value: o.value,
            script_pubkey: o.script_pubkey.to_bytes(),
        }).collect(),
        transaction: serialize(&psbt.extract_tx()),
    })
}

/// The double SHA-256 digest of a byte string, as `sha256d::Hash::hash`
/// computes it.
pub uninterp spec fn sha256d_digest(data: Seq<u8>) -> Seq<u8>;

/// `sha256d::Hash::hash`: the 32 bytes of the digest, in the order in which
/// the hash function emits them.
#[verifier::external_body]
pub(crate) fn double_sha256(data: &[u8]) -> (digest: [u8; 32])
    ensures
        digest@ == sha256d_digest(data@),
{
    let digest: sha256d::Hash = bdk::bitcoin::hashes::Hash::hash(data);
    bdk::bitcoin::hashes::Hash::into_inner(digest)
}

/// The script that pays to the address that `Address::from_str` reads from
/// a text; `None` where it rejects the text.
pub uninterp spec fn address_script(text: Seq<char>) -> Option<Seq<u8>>;

/// `Address::from_str`, and of the address its `script_pubkey` as bytes; or
/// the parser's error.
#[verifier::external_body]
pub(crate) fn parse_address(text: &str) -> (r: Result<
    Vec<u8>,
    bdk::bitcoin::util::address::Error,
>)
    ensures
        r matches Ok(script) ==> address_script(text@) == Some(script@),
        r is Err ==> address_script(text@) is None,
{
    Ok(Address::from_str(text)?.script_pubkey().to_bytes())
}

/// Whether `bitcoinconsensus::verify` accepts input `index` of a transaction
/// as a spend of an output with the given script and amount.
pub uninterp spec fn script_accepts(
    script: Seq<u8>,
    amount: u64,
    transaction: Seq<u8>,
    index: usize,
) -> bool;

/// `bitcoinconsensus::verify`, which runs the script interpreter of the
/// Bitcoin node with all of its rules switched on: whether it accepts input
/// `index` of the transaction as a spend of an output with this script and
/// amount. The interpreter looks at the amount only where the input spends a
/// witness program, and rejects bytes that are no transaction.
#[verifier::external_body]
pub(crate) fn script_verifies(script: &[u8], amount: u64, transaction: &[u8], index: usize) -> (ok:
    bool)
    ensures
        ok == script_accepts(script@, amount, transaction@, index),
{
    bitcoinconsensus::verify(script, amount, transaction, index).is_ok()
}

/// What `bdk_reserves::reserves::verify_proof` makes of the transaction that
/// `raw` encodes, a message, the spendable outputs and a network: the amount
/// that it accepts the proof for, or its error in `Debug` rendering. Which
/// signatures and scripts it holds a proof to is its business; nothing is
/// claimed of that here.
pub uninterp spec fn reserve_check(
    raw: Seq<u8>,
    message: Seq<char>,
    utxos: Seq<UtxoView>,
    network: Network,
) -> Result<u64, Seq<char>>;

/// A verdict with its failure text as a sequence of characters.
pub open spec fn verdict_view(verdict: Result<u64, String>) -> Result<u64, Seq<char>> {
    match verdict {
        Ok(total) => Ok(total),
        Err(text) => Err(text@),
    }
}

/// The inputs claim no more than a `u64` holds.
pub open spec fn fits(inputs: Seq<OutPoint>, utxos: Seq<UtxoView>) -> bool {
    total_inflow(inputs, utxos) <= u64::MAX
}

/// `bdk_reserves::reserves::verify_proof` on the transaction that `raw`
/// encodes, read as [`decode_psbt`] reads it, with each record handed over
/// as its outpoint and output; `None` where `raw` encodes no transaction.
/// The callee adds up, in a `u64`, what the first record for each input's
/// outpoint holds; the sum has to fit, or the addition may panic.
#[verifier::external_body]
pub(crate) fn check_reserves(
    raw: &[u8],
    message: &str,
    utxos: &Vec<UtxoRecord>,
    network: Network,
) -> (r: Option<Result<u64, String>>)
    requires
        psbt_decoding(raw@) matches Some(shape) ==> fits(shape.inputs, utxo_views(utxos@)),
    ensures
        r is Some <==> psbt_decoding(raw@) is Some,
        r matches Some(v) ==> verdict_view(v) == reserve_check(raw@, message@, utxo_views(utxos@), network),
{
    let psbt = deserialize::<PartiallySignedTransaction>(raw).ok()?;
    let funds = utxos.iter().map(|u| (
        bdk::bitcoin::OutPoint::new(bdk::bitcoin::hashes::Hash::from_inner(u.outpoint.txid), u.outpoint.vout),
        TxOut { value: u.output.value, script_pubkey: Script::from(u.output.script_pubkey.clone()) },
    )).collect();
    let network = match network {
        Network::Mainnet => bdk::bitcoin::Network::Bitcoin,
        Network::Testnet => bdk::bitcoin::Network::Testnet,
    };
    Some(verify_proof(&psbt, message, funds, network).map_err(|e| format!("{:?}", e)))
}

} // verus!
