//! Resolving the claimed addresses into the unspent outputs that count: the
//! rules that decide which addresses are accepted, which ledger is asked,
//! which outputs are old enough, and what is made of the chain's answers.

use vstd::prelude::*;
use crate::error::VerifyError;
use crate::foreign::{address_script, parse_address};
use crate::model::{
    output_views, Network, OutPoint, Output, OutputView, Unspent, UtxoRecord, UtxoView,
};

verus! {

/// The addresses of a list, each as a sequence of characters.
pub open spec fn texts(addresses: Seq<String>) -> Seq<Seq<char>> {
    Seq::new(addresses.len(), |i: int| addresses[i]@)
}

/// The byte strings of a list, each as a sequence of bytes.
pub open spec fn byte_strings(strings: Seq<Vec<u8>>) -> Seq<Seq<u8>> {
    Seq::new(strings.len(), |i: int| strings[i]@)
}

/// The ledger that an address list is about: the test ledger where the
/// first address starts with the digit 2, and the main ledger otherwise.
pub open spec fn network_of(addresses: Seq<Seq<char>>) -> Network {
    if addresses.len() > 0 && addresses[0].len() > 0 && addresses[0][0] == '2' {
        Network::Testnet
    } else {
        Network::Mainnet
    }
}

/// The position of the first address at or after `from` that spells no
/// address; the length of the list where each of them spells one.
pub open spec fn first_invalid(addresses: Seq<Seq<char>>, from: int) -> int
    decreases addresses.len() - from,
{
    if from >= addresses.len() {
        addresses.len() as int
    } else if address_script(addresses[from]) is None {
        from
    } else {
        first_invalid(addresses, from + 1)
    }
}

/// The script of each address of a list.
pub open spec fn scripts_of(addresses: Seq<Seq<char>>) -> Seq<Seq<u8>> {
    Seq::new(addresses.len(), |i: int| address_script(addresses[i]).unwrap())
}

/// What becomes of an address list: an empty list is turned down, then the
/// first address that cannot be parsed; a list of addresses that all parse
/// gives their scripts.
pub open spec fn accepting(addresses: Seq<Seq<char>>) -> Result<Seq<Seq<u8>>, VerifyError> {
    if addresses.len() == 0 {
        Err(VerifyError::NoAddressProvided)
    } else if first_invalid(addresses, 0) < addresses.len() {
        Err(VerifyError::InvalidAddress(first_invalid(addresses, 0) as usize))
    } else {
        Ok(scripts_of(addresses))
    }
}

/// The greatest height at which an output counts: the height of the chain
/// less the confirmations that are asked for, and 0 where the chain is not
/// that high.
pub open spec fn threshold(current: u64, confirmations: u64) -> u64 {
    if current >= confirmations {
        (current - confirmations) as u64
    } else {
        0
    }
}

/// An output counts when it is confirmed, which a height of 0 denies, and
/// was confirmed no later than the threshold.
pub open spec fn settled(height: u64, limit: u64) -> bool {
    0 < height <= limit
}

/// Of a listing, the entries that count, in their order.
pub open spec fn retained(listing: Seq<Unspent>, limit: u64) -> Seq<Unspent> {
    listing.filter(|entry: Unspent| settled(entry.height, limit))
}

/// The record that a listed entry and the outputs of its transaction make.
/// An entry that points past the transaction's outputs, or past the
/// positions that an outpoint can express, does not fit the chain.
pub open spec fn resolving(entry: Unspent, outputs: Seq<OutputView>) -> Result<
    UtxoView,
    VerifyError,
> {
    if entry.position < outputs.len() && entry.position <= u32::MAX {
        Ok(
            UtxoView {
                outpoint: OutPoint { txid: entry.txid, vout: entry.position as u32 },
                output: outputs[entry.position as int],
                height: entry.height,
            },
        )
    } else {
        Err(VerifyError::ChainQueryError)
    }
}

/// An output counts exactly when it is confirmed and the chain has grown by
/// the confirmations asked for since.
pub proof fn law_settled_by_depth(height: u64, current: u64, confirmations: u64)
    ensures
        settled(height, threshold(current, confirmations)) <==> (height > 0 && height
            + confirmations <= current),
{
}

/// Of the entries of a listing, one confirmed exactly at the threshold is
/// kept; one confirmed any later, be it by a single block, is dropped; and so
/// is one that is not confirmed. This is said of a chain that is higher than
/// the confirmations asked for: below that the threshold is 0, the height of
/// the unconfirmed, and nothing is kept.
pub proof fn law_threshold_boundary(
    listing: Seq<Unspent>,
    current: u64,
    confirmations: u64,
    i: int,
)
    requires
        0 <= i < listing.len(),
        current > confirmations,
    ensures
        listing[i].height == current - confirmations ==> retained(
            listing,
            threshold(current, confirmations),
        ).contains(listing[i]),
        listing[i].height > current - confirmations ==> !retained(
            listing,
            threshold(current, confirmations),
        ).contains(listing[i]),
        listing[i].height == 0 ==> !retained(
            listing,
            threshold(current, confirmations),
        ).contains(listing[i]),
{
    let limit = threshold(current, confirmations);
    let counts = |entry: Unspent| settled(entry.height, limit);
    let kept = listing.filter(counts);
    if kept.contains(listing[i]) {
        let k = choose|k: int| 0 <= k < kept.len() && kept[k] == listing[i];
        listing.lemma_filter_pred(counts, k);
        assert(counts(listing[i]));
    }
    if settled(listing[i].height, limit) {
        assert(counts(listing[i]));
        listing.lemma_filter_contains(counts, i);
    }
}

/// An empty address list is turned down for being empty.
pub proof fn law_no_address_is_refused()
    ensures
        accepting(Seq::empty()) == Err::<Seq<Seq<u8>>, VerifyError>(
            VerifyError::NoAddressProvided,
        ),
{
}

/// The server that is asked about a ledger.
pub open spec fn server_of(network: Network) -> Seq<char> {
    match network {
        Network::Mainnet => "ssl://electrum.blockstream.info:50002"@,
        Network::Testnet => "ssl://electrum.blockstream.info:60002"@,
    }
}

/// Names the server to ask about a ledger.
pub fn chain_server(network: Network) -> (url: &'static str)
    ensures
        url@ == server_of(network),
{
    match network {
        Network::Mainnet => "ssl://electrum.blockstream.info:50002",
        Network::Testnet => "ssl://electrum.blockstream.info:60002",
    }
}

/// Picks the ledger to ask from the first address.
pub fn select_network(addresses: &Vec<String>) -> (network: Network)
    ensures
        network == network_of(texts(addresses@)),
{
    if addresses.len() == 0 {
        return Network::Mainnet;
    }
    let first = addresses[0].as_str();
    if first.unicode_len() > 0 && first.get_char(0) == '2' {
        Network::Testnet
    } else {
        Network::Mainnet
    }
}

/// Parses the addresses of a request into the scripts that they pay to.
pub fn accept_addresses(addresses: &Vec<String>) -> (r: Result<Vec<Vec<u8>>, VerifyError>)
    ensures
        r matches Ok(scripts) ==> accepting(texts(addresses@)) == Ok::<
            Seq<Seq<u8>>,
            VerifyError,
        >(byte_strings(scripts@)),
        r matches Err(error) ==> accepting(texts(addresses@)) == Err::<
            Seq<Seq<u8>>,
            VerifyError,
        >(error),
{
    let ghost spelled = texts(addresses@);
    if addresses.len() == 0 {
        return Err(VerifyError::NoAddressProvided);
    }
    let mut scripts: Vec<Vec<u8>> = Vec::new();
    let mut i: usize = 0;
    while i < addresses.len()
        invariant
            i <= addresses.len(),
            spelled == texts(addresses@),
            first_invalid(spelled, 0) == first_invalid(spelled, i as int),
            scripts.len() == i,
            forall|j: int|
                0 <= j < i ==> address_script(spelled[j]) == Some((#[trigger] scripts[j])@),
        decreases addresses.len() - i,
    {
        match parse_address(addresses[i].as_str()) {
            Ok(script) => {
                scripts.push(script);
            },
            Err(_) => {
                return Err(VerifyError::InvalidAddress(i));
            },
        }
        i += 1;
    }
    assert(byte_strings(scripts@) =~= scripts_of(spelled));
    Ok(scripts)
}

/// Computes the greatest height at which an output counts.
pub fn confirmation_threshold(current: u64, confirmations: u64) -> (limit: u64)
    ensures
        limit == threshold(current, confirmations),
{
    if current >= confirmations {
        current - confirmations
    } else {
        0
    }
}

/// Keeps the entries of a listing that are confirmed and old enough.
pub fn retain_settled(listing: &Vec<Unspent>, limit: u64) -> (kept: Vec<Unspent>)
    ensures
        kept@ == retained(listing@, limit),
{
    let ghost counts = |entry: Unspent| settled(entry.height, limit);
    let mut kept: Vec<Unspent> = Vec::new();
    let mut i: usize = 0;
    assert(listing@.take(0).filter(counts) =~= Seq::<Unspent>::empty());
    while i < listing.len()
        invariant
            i <= listing.len(),
            counts == |entry: Unspent| settled(entry.height, limit),
            kept@ == listing@.take(i as int).filter(counts),
        decreases listing.len() - i,
    {
        let entry = listing[i];
        proof {
            let before = listing@.take(i as int);
            assert(listing@.take(i + 1) =~= before.push(entry));
            Seq::lemma_filter_push(before, entry, counts);
        }
        if entry.height > 0 && entry.height <= limit {
            kept.push(entry);
        }
        i += 1;
    }
    assert(listing@.take(listing.len() as int) =~= listing@);
    kept
}

/// Makes the record of a listed entry from the outputs of its transaction.
pub fn resolve_output(entry: &Unspent, outputs: &Vec<Output>) -> (r: Result<
    UtxoRecord,
    VerifyError,
>)
    ensures
        r matches Ok(record) ==> resolving(*entry, output_views(outputs@)) == Ok::<
            UtxoView,
            VerifyError,
        >(record@),
        r matches Err(error) ==> resolving(*entry, output_views(outputs@)) == Err::<
            UtxoView,
            VerifyError,
        >(error),
{
    if entry.position > 0xffff_ffff {
        return Err(VerifyError::ChainQueryError);
    }
    let position = entry.position as usize;
    if position >= outputs.len() {
        return Err(VerifyError::ChainQueryError);
    }
    Ok(
        UtxoRecord {
            outpoint: OutPoint { txid: entry.txid, vout: entry.position as u32 },
            output: outputs[position].clone(),
            height: entry.height,
        },
    )
}

} // verus!
