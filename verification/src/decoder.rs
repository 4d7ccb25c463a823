//! Decoding a proof from its text.
//!
//! A proof travels as the base64 text of a partially signed transaction in
//! its binary encoding.

use vstd::prelude::*;
use crate::error::VerifyError;
use crate::foreign::{base64_decoding, decode_base64, decode_psbt, psbt_decoding};
use crate::model::{output_views, OutPoint, Output, OutputView, ProofShapeView};

verus! {

/// A decoded proof: the bytes that it was read from, the outpoint that each
/// of its inputs spends, what each of its outputs holds, and the signed
/// transaction in its binary encoding. It has at least one input; the first
/// is the commitment input and the others are the reserve inputs.
pub struct ProofTransaction {
    raw: Vec<u8>,
    inputs: Vec<OutPoint>,
    outputs: Vec<Output>,
    transaction: Vec<u8>,
}

/// A [`ProofTransaction`] as a mathematical value.
pub struct ProofView {
    pub raw: Seq<u8>,
    pub inputs: Seq<OutPoint>,
    pub outputs: Seq<OutputView>,
    pub transaction: Seq<u8>,
}

/// The inputs, the outputs and the transaction are those that the bytes
/// encode, and there is an input.
pub open spec fn well_formed(proof: ProofView) -> bool {
    &&& proof.inputs.len() >= 1
    &&& psbt_decoding(proof.raw) == Some(
        ProofShapeView {
            inputs: proof.inputs,
            outputs: proof.outputs,
            transaction: proof.transaction,
        },
    )
}

/// The proof that a byte string encodes. Bytes that encode no transaction,
/// or one without inputs, are malformed.
pub open spec fn parsing(raw: Seq<u8>) -> Result<ProofView, VerifyError> {
    match psbt_decoding(raw) {
        Some(shape) => if shape.inputs.len() >= 1 {
            Ok(
                ProofView {
                    raw,
                    inputs: shape.inputs,
                    outputs: shape.outputs,
                    transaction: shape.transaction,
                },
            )
        } else {
            Err(VerifyError::MalformedProof)
        },
        None => Err(VerifyError::MalformedProof),
    }
}

/// The proof that a text stands for.
pub open spec fn decoding(text: Seq<char>) -> Result<ProofView, VerifyError> {
    match base64_decoding(text) {
        Some(raw) => parsing(raw),
        None => Err(VerifyError::EncodingError),
    }
}

impl View for ProofTransaction {
    type V = ProofView;

    closed spec fn view(&self) -> ProofView {
        ProofView {
            raw: self.raw@,
            inputs: self.inputs@,
            outputs: output_views(self.outputs@),
            transaction: self.transaction@,
        }
    }
}

impl ProofTransaction {
    #[verifier::type_invariant]
    closed spec fn valid(&self) -> bool {
        well_formed(self@)
    }

    /// Parses the binary encoding of a proof.
    pub fn from_bytes(raw: Vec<u8>) -> (r: Result<ProofTransaction, VerifyError>)
        ensures
            r matches Ok(proof) ==> parsing(raw@) == Ok::<ProofView, VerifyError>(proof@),
            r matches Ok(proof) ==> well_formed(proof@),
            r matches Err(error) ==> parsing(raw@) == Err::<ProofView, VerifyError>(error),
    {
        match decode_psbt(raw.as_slice()) {
            Ok(shape) => {
                if shape.inputs.len() == 0 {
                    return Err(VerifyError::MalformedProof);
                }
                Ok(
                    ProofTransaction {
                        raw,
                        inputs: shape.inputs,
                        outputs: shape.outputs,
                        transaction: shape.transaction,
                    },
                )
            },
            Err(_) => Err(VerifyError::MalformedProof),
        }
    }

    /// The binary encoding that the proof was read from.
    pub fn raw(&self) -> (raw: &Vec<u8>)
        ensures
            raw@ == self@.raw,
    {
        &self.raw
    }

    /// The outpoint that each input spends, the commitment input first.
    pub fn inputs(&self) -> (inputs: &Vec<OutPoint>)
        ensures
            inputs@ == self@.inputs,
            inputs@.len() >= 1,
            well_formed(self@),
    {
        proof {
            use_type_invariant(self);
        }
        &self.inputs
    }

    /// What each output holds.
    pub fn outputs(&self) -> (outputs: &Vec<Output>)
        ensures
            output_views(outputs@) == self@.outputs,
    {
        &self.outputs
    }

    /// The transaction with its signatures filled in, in its binary
    /// encoding.
    pub fn transaction(&self) -> (transaction: &Vec<u8>)
        ensures
            transaction@ == self@.transaction,
    {
        &self.transaction
    }
}

/// Decodes a proof from its base64 text.
pub fn decode_proof(text: &str) -> (r: Result<ProofTransaction, VerifyError>)
    ensures
        r matches Ok(proof) ==> decoding(text@) == Ok::<ProofView, VerifyError>(proof@),
        r matches Ok(proof) ==> well_formed(proof@),
        r matches Err(error) ==> decoding(text@) == Err::<ProofView, VerifyError>(error),
{
    match decode_base64(text) {
        Ok(raw) => ProofTransaction::from_bytes(raw),
        Err(_) => Err(VerifyError::EncodingError),
    }
}

} // verus!
