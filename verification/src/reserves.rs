//! The verification of a decoded proof against a message and the unspent
//! outputs that were resolved for the claimed addresses.
//!
//! A proof goes through three steps, and the first that it fails decides.
//! The library matches its inputs against the message and the records. It
//! hands the proof to the check of `bdk_reserves`, which looks at the shape
//! of the transaction, at what it pays and to whom, and at how its inputs
//! are signed. And it holds each reserve input to the script of the output
//! that it spends.

use vstd::prelude::*;
use crate::commitment::{commitment, commitment_txid};
use crate::decoder::{ProofTransaction, ProofView};
use crate::error::VerifyError;
use crate::failure::{classify, classify_failure};
use crate::foreign::{check_reserves, reserve_check, verdict_view};
use crate::matching::{
    all_spendable, claims, commits, funds, law_total_within_funds, lemma_all_present_from,
    lemma_distinct_claims, lemma_first_absent_at, lemma_none_absent, lemma_total_within_inflow,
    match_reserves, matching_outcome, present, reserve_total, total_inflow,
};
use crate::model::{utxo_views, Network, UtxoRecord, UtxoView};
use crate::scripts::{
    all_signed, find_unsigned, first_unsigned, input_signed, lemma_all_signed_from,
    lemma_first_unsigned_at, lemma_none_unsigned,
};

verus! {

/// What becomes of a proof whose inputs matched for `total`, given the
/// verdict of the check of `bdk_reserves`: the total where the check accepts
/// the proof, and else the error that its failure amounts to.
pub open spec fn concluding(total: u64, verdict: Result<u64, Seq<char>>) -> Result<
    u64,
    VerifyError,
> {
    match verdict {
        Ok(_) => Ok(total),
        Err(text) => Err(classify(text)),
    }
}

/// What becomes of a proof that has passed the other steps for `total`: it
/// is turned down for the first reserve input that is not signed, and
/// accepted for the total where each of them is.
pub open spec fn signing_outcome(proof: ProofView, utxos: Seq<UtxoView>, total: u64) -> Result<
    u64,
    VerifyError,
> {
    if first_unsigned(proof.inputs, proof.transaction, utxos, 1) < proof.inputs.len() {
        Err(
            VerifyError::InvalidSignature(
                first_unsigned(proof.inputs, proof.transaction, utxos, 1) as usize,
            ),
        )
    } else {
        Ok(total)
    }
}

/// The outcome of verifying a proof.
///
/// The inputs are matched first: input 0 has to commit to the message, and
/// each reserve input has to spend a resolved record. A proof that passes
/// goes on to the check of `bdk_reserves`, and one that passes there has
/// each of its reserve inputs held to its script. The amount of an accepted
/// proof is what its reserve inputs prove, each claimed outpoint counted
/// once.
pub open spec fn reserve_outcome(
    proof: ProofView,
    message: Seq<char>,
    utxos: Seq<UtxoView>,
    network: Network,
) -> Result<u64, VerifyError> {
    match matching_outcome(proof.inputs, commitment_txid(message), utxos) {
        Ok(total) => match concluding(
            total,
            reserve_check(proof.raw, message, utxos, network),
        ) {
            Ok(total) => signing_outcome(proof, utxos, total),
            Err(error) => Err(error),
        },
        Err(error) => Err(error),
    }
}

/// Settles a proof whose inputs matched for `total`, once the check of
/// `bdk_reserves` has given its verdict.
pub fn conclude(total: u64, verdict: &Result<u64, String>) -> (outcome: Result<u64, VerifyError>)
    ensures
        outcome == concluding(total, verdict_view(*verdict)),
{
    match verdict {
        Ok(_) => Ok(total),
        Err(text) => Err(classify_failure(text.as_str())),
    }
}

/// Verifies a proof against a message and the resolved unspent outputs.
pub fn verify_reserves(
    proof: &ProofTransaction,
    message: &str,
    utxos: &Vec<UtxoRecord>,
    network: Network,
) -> (outcome: Result<u64, VerifyError>)
    ensures
        outcome == reserve_outcome(proof@, message@, utxo_views(utxos@), network),
{
    let expected = commitment(message);
    let total = match match_reserves(proof.inputs(), &expected, utxos) {
        Ok(total) => total,
        Err(error) => {
            return Err(error);
        },
    };
    let verdict = match check_reserves(proof.raw().as_slice(), message, utxos, network) {
        Some(verdict) => verdict,
        None => {
            return Err(VerifyError::MalformedProof);
        },
    };
    let total = match conclude(total, &verdict) {
        Ok(total) => total,
        Err(error) => {
            return Err(error);
        },
    };
    match find_unsigned(proof.inputs(), proof.transaction().as_slice(), utxos) {
        Some(i) => Err(VerifyError::InvalidSignature(i)),
        None => Ok(total),
    }
}

/// A proof is accepted for exactly what its reserve inputs prove, where its
/// first input commits to the message, every reserve input spends a resolved
/// record and is signed, the check of `bdk_reserves` passes, and the inputs
/// claim no more than an amount can express.
pub proof fn law_valid_proof_is_spendable(
    proof: ProofView,
    message: Seq<char>,
    utxos: Seq<UtxoView>,
    network: Network,
)
    requires
        proof.inputs.len() >= 1,
        commits(proof.inputs[0], commitment_txid(message)),
        all_spendable(proof.inputs, utxos),
        all_signed(proof.inputs, proof.transaction, utxos),
        total_inflow(proof.inputs, utxos) <= u64::MAX,
        reserve_check(proof.raw, message, utxos, network) is Ok,
    ensures
        reserve_total(proof.inputs, utxos) <= u64::MAX,
        reserve_outcome(proof, message, utxos, network) == Ok::<u64, VerifyError>(
            reserve_total(proof.inputs, utxos) as u64,
        ),
{
    lemma_none_absent(proof.inputs, utxos, 1);
    lemma_none_unsigned(proof.inputs, proof.transaction, utxos, 1);
    lemma_total_within_inflow(proof.inputs, utxos, proof.inputs.len() as int);
}

/// A proof is accepted only where its first input commits to the message,
/// every reserve input spends a resolved record and is signed, and the check
/// of `bdk_reserves` passes; and then for what its reserve inputs prove,
/// which is no more than the records hold.
pub proof fn law_accepted_proof_is_sound(
    proof: ProofView,
    message: Seq<char>,
    utxos: Seq<UtxoView>,
    network: Network,
)
    requires
        reserve_outcome(proof, message, utxos, network) is Ok,
    ensures
        proof.inputs.len() >= 1,
        commits(proof.inputs[0], commitment_txid(message)),
        all_spendable(proof.inputs, utxos),
        all_signed(proof.inputs, proof.transaction, utxos),
        reserve_check(proof.raw, message, utxos, network) is Ok,
        reserve_outcome(proof, message, utxos, network) == Ok::<u64, VerifyError>(
            reserve_total(proof.inputs, utxos) as u64,
        ),
        reserve_total(proof.inputs, utxos) <= funds(utxos, utxos.len() as int),
{
    lemma_all_present_from(proof.inputs, utxos, 1);
    lemma_all_signed_from(proof.inputs, proof.transaction, utxos, 1);
    law_total_within_funds(proof.inputs, utxos);
}

/// A proof that passes the other steps and has a reserve input that is not
/// signed is turned down with the position of the first such input.
pub proof fn law_first_unsigned_input_is_reported(
    proof: ProofView,
    message: Seq<char>,
    utxos: Seq<UtxoView>,
    network: Network,
    i: int,
)
    requires
        matching_outcome(proof.inputs, commitment_txid(message), utxos) is Ok,
        reserve_check(proof.raw, message, utxos, network) is Ok,
        1 <= i < proof.inputs.len(),
        !input_signed(proof.inputs, proof.transaction, utxos, i),
        forall|j: int| 1 <= j < i ==> input_signed(proof.inputs, proof.transaction, utxos, j),
    ensures
        reserve_outcome(proof, message, utxos, network) == Err::<u64, VerifyError>(
            VerifyError::InvalidSignature(i as usize),
        ),
{
    lemma_first_unsigned_at(proof.inputs, proof.transaction, utxos, 1, i);
}

/// Where no two reserve inputs of a proof spend the same outpoint, what they
/// prove is the plain sum of what the record of each of them holds.
pub proof fn law_distinct_inputs_prove_their_sum(proof: ProofView, utxos: Seq<UtxoView>)
    requires
        forall|i: int, j: int|
            1 <= i < j < proof.inputs.len() ==> proof.inputs[i] != proof.inputs[j],
    ensures
        reserve_total(proof.inputs, utxos) == claims(
            proof.inputs,
            utxos,
            1,
            proof.inputs.len() as int,
        ),
{
    lemma_distinct_claims(proof.inputs, utxos, proof.inputs.len() as int);
}

/// A proof whose first input does not commit to the message is turned down
/// for that, whatever its other inputs and its signatures are.
pub proof fn law_wrong_message_is_mismatch(
    proof: ProofView,
    message: Seq<char>,
    utxos: Seq<UtxoView>,
    network: Network,
)
    requires
        proof.inputs.len() >= 1,
        !commits(proof.inputs[0], commitment_txid(message)),
    ensures
        reserve_outcome(proof, message, utxos, network) == Err::<u64, VerifyError>(
            VerifyError::MessageMismatch,
        ),
{
}

/// A proof that commits to the message and has a reserve input that no
/// resolved record carries is turned down with the position of the first
/// such input.
pub proof fn law_first_unspendable_input_is_reported(
    proof: ProofView,
    message: Seq<char>,
    utxos: Seq<UtxoView>,
    network: Network,
    i: int,
)
    requires
        commits(proof.inputs[0], commitment_txid(message)),
        1 <= i < proof.inputs.len(),
        !present(utxos, proof.inputs[i]),
        forall|j: int| 1 <= j < i ==> present(utxos, #[trigger] proof.inputs[j]),
    ensures
        reserve_outcome(proof, message, utxos, network) == Err::<u64, VerifyError>(
            VerifyError::NonSpendableInput(i as usize),
        ),
{
    lemma_first_absent_at(proof.inputs, utxos, 1, i);
}

/// Verifying the same proof against the same message and the same records
/// gives the same outcome each time.
pub proof fn law_verification_is_repeatable(
    proof: ProofView,
    message: Seq<char>,
    utxos: Seq<UtxoView>,
    network: Network,
    first: Result<u64, VerifyError>,
    second: Result<u64, VerifyError>,
)
    requires
        first == reserve_outcome(proof, message, utxos, network),
        second == reserve_outcome(proof, message, utxos, network),
    ensures
        first == second,
{
}

} // verus!
