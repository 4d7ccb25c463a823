use bdk::bitcoin::consensus::encode::{deserialize, serialize};
use bdk::bitcoin::util::psbt::PartiallySignedTransaction;
use bdk::bitcoin::{EcdsaSighashType, Script};
use reserves_verifier::decoder::{decode_proof, ProofTransaction};
use reserves_verifier::error::VerifyError;
use reserves_verifier::model::{Network, OutPoint, Output, UtxoRecord};
use reserves_verifier::reserves::{conclude, verify_reserves};

const MESSAGE: &str = "This belongs to me.";

const SIGNED_PROOF: &str = "cHNidP8BAH4BAAAAAmw1RvG4UzfnSafpx62EPTyha6VslP0Er7n3TxjEpeBeAAAAAAD/////2johM0znoXIXT1lg+ySrvGrtq1IGXPJzpfi/emkV9iIAAAAAAP////8BUMMAAAAAAAAZdqkUn3/QltN+0sDj9/DPySS+70/862iIrAAAAAAAAQEKAAAAAAAAAAABUQEHAAABAR9QwwAAAAAAABYAFOzlJlcQU9qGRUyeBmd56vnRUC5qAQcAAQhrAkcwRAIgDSE4PQ57JDiZ7otGkTqz35bi/e1pexYaYKWaveuvRd4CIFzVB4sAmgtdEVz2vHzs1iXc9iRKJ+KQOQb+C2DtPyvzASEDKwVYB4vsOGlKhJM9ZZMD4lddrn6RaFkRRUEVv9ZEh+MAAA==";

const UNSIGNED_PROOF: &str = "cHNidP8BAH4BAAAAAmw1RvG4UzfnSafpx62EPTyha6VslP0Er7n3TxjEpeBeAAAAAAD/////2johM0znoXIXT1lg+ySrvGrtq1IGXPJzpfi/emkV9iIAAAAAAP////8BUMMAAAAAAAAZdqkUn3/QltN+0sDj9/DPySS+70/862iIrAAAAAAAAQEKAAAAAAAAAAABUQEHAAABAR9QwwAAAAAAABYAFOzlJlcQU9qGRUyeBmd56vnRUC5qIgYDKwVYB4vsOGlKhJM9ZZMD4lddrn6RaFkRRUEVv9ZEh+ME7OUmVwAA";

const COMMITMENT_TXID: [u8; 32] = [
    0x6c, 0x35, 0x46, 0xf1, 0xb8, 0x53, 0x37, 0xe7, 0x49, 0xa7, 0xe9, 0xc7, 0xad, 0x84, 0x3d, 0x3c,
    0xa1, 0x6b, 0xa5, 0x6c, 0x94, 0xfd, 0x04, 0xaf, 0xb9, 0xf7, 0x4f, 0x18, 0xc4, 0xa5, 0xe0, 0x5e,
];

const FUNDING_TXID: [u8; 32] = [
    0xda, 0x3a, 0x21, 0x33, 0x4c, 0xe7, 0xa1, 0x72, 0x17, 0x4f, 0x59, 0x60, 0xfb, 0x24, 0xab, 0xbc,
    0x6a, 0xed, 0xab, 0x52, 0x06, 0x5c, 0xf2, 0x73, 0xa5, 0xf8, 0xbf, 0x7a, 0x69, 0x15, 0xf6, 0x22,
];

const FUNDED_SCRIPT: [u8; 22] = [
    0x00, 0x14, 0xec, 0xe5, 0x26, 0x57, 0x10, 0x53, 0xda, 0x86, 0x45, 0x4c, 0x9e, 0x06, 0x67, 0x79,
    0xea, 0xf9, 0xd1, 0x50, 0x2e, 0x6a,
];

const UNSPENDABLE_SCRIPT: [u8; 25] = [
    0x76, 0xa9, 0x14, 0x9f, 0x7f, 0xd0, 0x96, 0xd3, 0x7e, 0xd2, 0xc0, 0xe3, 0xf7, 0xf0, 0xcf, 0xc9,
    0x24, 0xbe, 0xef, 0x4f, 0xfc, 0xeb, 0x68, 0x88, 0xac,
];

fn funded_record() -> UtxoRecord {
    UtxoRecord {
        outpoint: OutPoint { txid: FUNDING_TXID, vout: 0 },
        output: Output { value: 50_000, script_pubkey: FUNDED_SCRIPT.to_vec() },
        height: 100,
    }
}

fn signed_psbt() -> PartiallySignedTransaction {
    deserialize(&base64::decode(SIGNED_PROOF).unwrap()).unwrap()
}

fn verify(psbt: &PartiallySignedTransaction, utxos: &Vec<UtxoRecord>) -> Result<u64, VerifyError> {
    let proof = ProofTransaction::from_bytes(serialize(psbt)).unwrap();
    verify_reserves(&proof, MESSAGE, utxos, Network::Testnet)
}

#[test]
fn decoded_proof_shows_its_inputs_and_outputs() {
    let proof = decode_proof(SIGNED_PROOF).unwrap();
    assert_eq!(proof.raw(), &base64::decode(SIGNED_PROOF).unwrap());
    let inputs = proof.inputs();
    assert_eq!(inputs.len(), 2);
    assert_eq!(inputs[0].txid, COMMITMENT_TXID);
    assert_eq!(inputs[0].vout, 0);
    assert_eq!(inputs[1].txid, FUNDING_TXID);
    assert_eq!(inputs[1].vout, 0);
    let outputs = proof.outputs();
    assert_eq!(outputs.len(), 1);
    assert_eq!(outputs[0].value, 50_000);
    assert_eq!(outputs[0].script_pubkey, UNSPENDABLE_SCRIPT.to_vec());
}

#[test]
fn text_that_is_no_base64_is_an_encoding_error() {
    assert!(matches!(decode_proof("not base64!"), Err(VerifyError::EncodingError)));
    assert!(matches!(decode_proof("cHNid"), Err(VerifyError::EncodingError)));
}

#[test]
fn bytes_that_are_no_transaction_are_malformed() {
    assert!(matches!(decode_proof(""), Err(VerifyError::MalformedProof)));
    assert!(matches!(decode_proof("aGVsbG8gd29ybGQ="), Err(VerifyError::MalformedProof)));
    let mut truncated = base64::decode(SIGNED_PROOF).unwrap();
    truncated.truncate(200);
    assert!(matches!(ProofTransaction::from_bytes(truncated), Err(VerifyError::MalformedProof)));
    let mut wrong_magic = base64::decode(SIGNED_PROOF).unwrap();
    wrong_magic[0] = b'q';
    assert!(matches!(ProofTransaction::from_bytes(wrong_magic), Err(VerifyError::MalformedProof)));
    let mut trailing = base64::decode(SIGNED_PROOF).unwrap();
    trailing.push(0);
    assert!(matches!(ProofTransaction::from_bytes(trailing), Err(VerifyError::MalformedProof)));
}

#[test]
fn repeated_key_in_a_map_is_malformed() {
    let raw = base64::decode(SIGNED_PROOF).unwrap();
    let entry = raw[5..134].to_vec();
    assert_eq!(entry[0..2], [0x01, 0x00]);
    let mut repeated = raw[..134].to_vec();
    repeated.extend_from_slice(&entry);
    repeated.extend_from_slice(&raw[134..]);
    assert!(matches!(ProofTransaction::from_bytes(repeated), Err(VerifyError::MalformedProof)));
    assert!(ProofTransaction::from_bytes(raw).is_ok());
}

#[test]
fn proof_without_inputs_is_malformed() {
    let mut psbt = signed_psbt();
    psbt.unsigned_tx.input.clear();
    psbt.inputs.clear();
    assert!(matches!(
        ProofTransaction::from_bytes(serialize(&psbt)),
        Err(VerifyError::MalformedProof)
    ));
}

#[test]
fn proof_with_only_the_commitment_input_is_malformed() {
    let mut psbt = signed_psbt();
    psbt.unsigned_tx.input.truncate(1);
    psbt.inputs.truncate(1);
    assert_eq!(verify(&psbt, &vec![funded_record()]), Err(VerifyError::MalformedProof));
}

#[test]
fn proof_that_pays_a_fee_is_malformed() {
    let mut psbt = signed_psbt();
    psbt.unsigned_tx.output[0].value = 123;
    assert_eq!(verify(&psbt, &vec![funded_record()]), Err(VerifyError::MalformedProof));
}

#[test]
fn proof_with_a_spendable_output_is_malformed() {
    let mut psbt = signed_psbt();
    psbt.unsigned_tx.output[0].script_pubkey = Script::from(FUNDED_SCRIPT.to_vec());
    assert_eq!(verify(&psbt, &vec![funded_record()]), Err(VerifyError::MalformedProof));
}

#[test]
fn proof_with_two_outputs_is_malformed() {
    let mut psbt = signed_psbt();
    let second = psbt.unsigned_tx.output[0].clone();
    psbt.unsigned_tx.output.push(second);
    let map = psbt.outputs[0].clone();
    psbt.outputs.push(map);
    assert_eq!(verify(&psbt, &vec![funded_record()]), Err(VerifyError::MalformedProof));
}

#[test]
fn unsigned_reserve_input_is_an_invalid_signature() {
    let proof = decode_proof(UNSIGNED_PROOF).unwrap();
    let utxos = vec![funded_record()];
    assert_eq!(
        verify_reserves(&proof, MESSAGE, &utxos, Network::Testnet),
        Err(VerifyError::InvalidSignature(1))
    );
}

#[test]
fn unsupported_signature_hash_type_is_an_invalid_signature() {
    let mut psbt = signed_psbt();
    psbt.inputs[1].sighash_type = Some(EcdsaSighashType::SinglePlusAnyoneCanPay.into());
    assert_eq!(verify(&psbt, &vec![funded_record()]), Err(VerifyError::InvalidSignature(1)));
}

#[test]
fn commitment_input_without_its_output_is_an_invalid_signature() {
    let mut psbt = signed_psbt();
    psbt.inputs[0].witness_utxo = None;
    assert_eq!(verify(&psbt, &vec![funded_record()]), Err(VerifyError::InvalidSignature(0)));
}

#[test]
fn message_is_checked_before_the_reserve_inputs() {
    let proof = decode_proof(SIGNED_PROOF).unwrap();
    let none: Vec<UtxoRecord> = Vec::new();
    assert_eq!(
        verify_reserves(&proof, "Wrong message!", &none, Network::Testnet),
        Err(VerifyError::MessageMismatch)
    );
    assert_eq!(
        verify_reserves(&proof, MESSAGE, &none, Network::Testnet),
        Err(VerifyError::NonSpendableInput(1))
    );
}

#[test]
fn tampered_signature_is_an_invalid_signature() {
    let mut raw = base64::decode(SIGNED_PROOF).unwrap();
    let within_the_signature = raw.len() - 60;
    raw[within_the_signature] ^= 0x01;
    let proof = ProofTransaction::from_bytes(raw).unwrap();
    assert_eq!(
        verify_reserves(&proof, MESSAGE, &vec![funded_record()], Network::Testnet),
        Err(VerifyError::InvalidSignature(1))
    );
}

#[test]
fn record_of_another_amount_leaves_the_proof_paying_a_fee() {
    let proof = decode_proof(SIGNED_PROOF).unwrap();
    let mut record = funded_record();
    record.output.value = 50_001;
    assert_eq!(
        verify_reserves(&proof, MESSAGE, &vec![record], Network::Testnet),
        Err(VerifyError::MalformedProof)
    );
}

#[test]
fn signature_for_another_script_is_an_invalid_signature() {
    let proof = decode_proof(SIGNED_PROOF).unwrap();
    let mut record = funded_record();
    record.output.script_pubkey[21] ^= 0x01;
    assert_eq!(
        verify_reserves(&proof, MESSAGE, &vec![record], Network::Testnet),
        Err(VerifyError::InvalidSignature(1))
    );
}

#[test]
fn outpoint_claimed_twice_does_not_pass_for_twice_its_value() {
    let mut psbt = signed_psbt();
    let again = psbt.unsigned_tx.input[1].clone();
    psbt.unsigned_tx.input.push(again);
    let map = psbt.inputs[1].clone();
    psbt.inputs.push(map);
    psbt.unsigned_tx.output[0].value = 100_000;
    assert_eq!(verify(&psbt, &vec![funded_record()]), Err(VerifyError::InvalidSignature(1)));
}

#[test]
fn decoded_proof_holds_the_signed_transaction() {
    let proof = decode_proof(SIGNED_PROOF).unwrap();
    let transaction = serialize(&signed_psbt().extract_tx());
    assert_eq!(proof.transaction(), &transaction);
    assert_ne!(proof.transaction(), proof.raw());
}

#[test]
fn proof_over_a_part_of_the_records_is_accepted() {
    let proof = decode_proof(SIGNED_PROOF).unwrap();
    let other = UtxoRecord {
        outpoint: OutPoint { txid: [3; 32], vout: 1 },
        output: Output { value: 7_000, script_pubkey: FUNDED_SCRIPT.to_vec() },
        height: 90,
    };
    let utxos = vec![other, funded_record()];
    assert_eq!(verify_reserves(&proof, MESSAGE, &utxos, Network::Testnet), Ok(50_000));
}

#[test]
fn verdict_of_the_signature_check_settles_a_matched_proof() {
    assert_eq!(conclude(50_000, &Ok(50_000)), Ok(50_000));
    assert_eq!(conclude(50_000, &Ok(100_000)), Ok(50_000));
    assert_eq!(
        conclude(50_000, &Err("NotSignedInput(3)".to_string())),
        Err(VerifyError::InvalidSignature(3))
    );
    assert_eq!(
        conclude(50_000, &Err("InAndOutValueNotEqual".to_string())),
        Err(VerifyError::MalformedProof)
    );
}
