use reserves_verifier::error::{VerificationResult, VerifyError};
use reserves_verifier::failure::classify_failure;

#[test]
fn failures_that_blame_the_message() {
    assert_eq!(classify_failure("ChallengeInputMismatch"), VerifyError::MessageMismatch);
}

#[test]
fn failures_that_blame_an_unspendable_input() {
    assert_eq!(classify_failure("NonSpendableInput(1)"), VerifyError::NonSpendableInput(1));
    assert_eq!(classify_failure("NonSpendableInput(18)"), VerifyError::NonSpendableInput(18));
    assert_eq!(classify_failure("OutpointNotFound(4)"), VerifyError::NonSpendableInput(4));
}

#[test]
fn failures_that_blame_a_signature() {
    assert_eq!(classify_failure("NotSignedInput(2)"), VerifyError::InvalidSignature(2));
    assert_eq!(classify_failure("UnsupportedSighashType(1)"), VerifyError::InvalidSignature(1));
    assert_eq!(classify_failure("NeitherWitnessNorLegacy(7)"), VerifyError::InvalidSignature(7));
    assert_eq!(
        classify_failure("SignatureValidation(0, \"witness_utxo not found for challenge input\")"),
        VerifyError::InvalidSignature(0)
    );
    assert_eq!(
        classify_failure("SignatureValidation(12, \"ERR_SCRIPT (3)\")"),
        VerifyError::InvalidSignature(12)
    );
}

#[test]
fn failures_that_blame_the_chain() {
    assert_eq!(classify_failure("MissingConfirmationInfo"), VerifyError::ChainQueryError);
    assert_eq!(classify_failure("BdkError(Generic(\"x\"))"), VerifyError::ChainQueryError);
}

#[test]
fn failures_that_blame_the_shape_of_the_transaction() {
    assert_eq!(classify_failure("WrongNumberOfInputs"), VerifyError::MalformedProof);
    assert_eq!(classify_failure("WrongNumberOfOutputs"), VerifyError::MalformedProof);
    assert_eq!(classify_failure("InvalidOutput"), VerifyError::MalformedProof);
    assert_eq!(classify_failure("InAndOutValueNotEqual"), VerifyError::MalformedProof);
}

#[test]
fn texts_that_cannot_be_read_make_the_proof_malformed() {
    assert_eq!(classify_failure(""), VerifyError::MalformedProof);
    assert_eq!(classify_failure("("), VerifyError::MalformedProof);
    assert_eq!(classify_failure("Unheard(1)"), VerifyError::MalformedProof);
    assert_eq!(classify_failure("NonSpendableInput"), VerifyError::MalformedProof);
    assert_eq!(classify_failure("NonSpendableInput("), VerifyError::MalformedProof);
    assert_eq!(classify_failure("NonSpendableInput()"), VerifyError::MalformedProof);
    assert_eq!(classify_failure("NonSpendableInput(x1)"), VerifyError::MalformedProof);
    assert_eq!(classify_failure("NonSpendableInputs(1)"), VerifyError::MalformedProof);
    assert_eq!(classify_failure("nonspendableinput(1)"), VerifyError::MalformedProof);
    assert_eq!(classify_failure(" NonSpendableInput(1)"), VerifyError::MalformedProof);
    assert_eq!(classify_failure("NotSignedInput(-1)"), VerifyError::MalformedProof);
    assert_eq!(classify_failure("ChallengeInputMismatch!"), VerifyError::MalformedProof);
    assert_eq!(classify_failure("Sígnature(1)"), VerifyError::MalformedProof);
}

#[test]
fn only_the_number_after_the_first_bracket_is_read() {
    assert_eq!(classify_failure("NonSpendableInput(1"), VerifyError::NonSpendableInput(1));
    assert_eq!(classify_failure("NonSpendableInput(007)"), VerifyError::NonSpendableInput(7));
    assert_eq!(classify_failure("NotSignedInput(3)(4)"), VerifyError::InvalidSignature(3));
    assert_eq!(classify_failure("ChallengeInputMismatch(5)"), VerifyError::MessageMismatch);
}

#[test]
fn position_that_no_index_can_hold_is_not_read() {
    let largest = format!("NonSpendableInput({})", usize::MAX);
    assert_eq!(classify_failure(&largest), VerifyError::NonSpendableInput(usize::MAX));
    let beyond = format!("NonSpendableInput({}0)", usize::MAX);
    assert_eq!(classify_failure(&beyond), VerifyError::MalformedProof);
    let next = format!("NonSpendableInput({})", usize::MAX as u128 + 1);
    assert_eq!(classify_failure(&next), VerifyError::MalformedProof);
}

#[test]
fn errors_are_written_with_their_position() {
    assert_eq!(VerifyError::EncodingError.text(), "EncodingError");
    assert_eq!(VerifyError::MalformedProof.text(), "MalformedProof");
    assert_eq!(VerifyError::NoAddressProvided.text(), "NoAddressProvided");
    assert_eq!(VerifyError::InvalidAddress(0).text(), "InvalidAddress(0)");
    assert_eq!(VerifyError::ChainQueryError.text(), "ChainQueryError");
    assert_eq!(VerifyError::MessageMismatch.text(), "MessageMismatch");
    assert_eq!(VerifyError::NonSpendableInput(1).text(), "NonSpendableInput(1)");
    assert_eq!(VerifyError::InvalidSignature(10).text(), "InvalidSignature(10)");
    assert_eq!(VerifyError::InvalidSignature(9).text(), "InvalidSignature(9)");
    assert_eq!(VerifyError::InvalidAddress(1234567890).text(), "InvalidAddress(1234567890)");
    assert_eq!(
        VerifyError::NonSpendableInput(usize::MAX).text(),
        format!("NonSpendableInput({})", usize::MAX)
    );
}

#[test]
fn errors_carry_a_position_where_their_kind_has_one() {
    assert_eq!(VerifyError::InvalidAddress(3).index(), Some(3));
    assert_eq!(VerifyError::NonSpendableInput(4).index(), Some(4));
    assert_eq!(VerifyError::InvalidSignature(5).index(), Some(5));
    assert_eq!(VerifyError::MessageMismatch.index(), None);
    assert_eq!(VerifyError::ChainQueryError.index(), None);
}

#[test]
fn written_error_reads_back_as_itself() {
    let written = VerifyError::NonSpendableInput(42).text();
    assert_eq!(classify_failure(&written), VerifyError::NonSpendableInput(42));
}

#[test]
fn outcome_of_a_component_becomes_a_result() {
    assert_eq!(VerificationResult::from_outcome(Ok(5)), VerificationResult::Spendable(5));
    assert_eq!(
        VerificationResult::from_outcome(Err(VerifyError::MessageMismatch)),
        VerificationResult::Failure(VerifyError::MessageMismatch)
    );
    assert!(VerificationResult::Spendable(0).is_spendable());
    assert!(!VerificationResult::Failure(VerifyError::EncodingError).is_spendable());
}
