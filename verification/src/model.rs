//! The values that one verification request is made of.

use vstd::prelude::*;
use crate::bytes::copy_bytes;

verus! {

/// The two ledgers a request can be about.
#[derive(Clone, Copy, Debug, PartialEq, Eq, Structural)]
pub enum Network {
    Mainnet,
    Testnet,
}

/// The identity of a transaction output: the transaction's id and the
/// output's position in it.
#[derive(Clone, Copy, Debug, PartialEq, Eq)]
pub struct OutPoint {
    pub txid: [u8; 32],
    pub vout: u32,
}

/// Whether two transaction ids hold the same bytes.
pub fn same_txid(a: &[u8; 32], b: &[u8; 32]) -> (same: bool)
    ensures
        same == (*a == *b),
        same == (a@ == b@),
{
    let mut i: usize = 0;
    while i < 32
        invariant
            i <= 32,
            forall|j: int| 0 <= j < i ==> a@[j] == b@[j],
        decreases 32 - i,
    {
        if a[i] != b[i] {
            return false;
        }
        i += 1;
    }
    assert(*a =~= *b);
    true
}

impl OutPoint {
    /// Whether two outpoints name the same output.
    pub fn same_as(&self, other: &OutPoint) -> (same: bool)
        ensures
            same == (*self == *other),
    {
        self.vout == other.vout && same_txid(&self.txid, &other.txid)
    }
}

/// What a transaction output holds: an amount in the smallest unit and the
/// script that guards it.
#[derive(Debug, PartialEq, Eq)]
pub struct Output {
    pub value: u64,
    pub script_pubkey: Vec<u8>,
}

/// An [`Output`] as a mathematical value.
pub struct OutputView {
    pub value: u64,
    pub script_pubkey: Seq<u8>,
}

impl View for Output {
    type V = OutputView;

    open spec fn view(&self) -> OutputView {
        OutputView { value: self.value, script_pubkey: self.script_pubkey@ }
    }
}

impl Clone for Output {
    fn clone(&self) -> (copy: Output)
        ensures
            copy@ == self@,
    {
        Output { value: self.value, script_pubkey: copy_bytes(self.script_pubkey.as_slice()) }
    }
}

/// The outputs of a sequence, each as a mathematical value.
pub open spec fn output_views(outputs: Seq<Output>) -> Seq<OutputView> {
    Seq::new(outputs.len(), |i: int| outputs[i]@)
}

/// What is read from a decoded proof: the outpoint that each input spends,
/// the commitment input first; what each output holds; and the transaction
/// with its signatures filled in, in its binary encoding.
#[derive(Debug)]
pub struct ProofShape {
    pub inputs: Vec<OutPoint>,
    pub outputs: Vec<Output>,
    pub transaction: Vec<u8>,
}

/// A [`ProofShape`] as a mathematical value.
pub struct ProofShapeView {
    pub inputs: Seq<OutPoint>,
    pub outputs: Seq<OutputView>,
    pub transaction: Seq<u8>,
}

impl View for ProofShape {
    type V = ProofShapeView;

    open spec fn view(&self) -> ProofShapeView {
        ProofShapeView {
            inputs: self.inputs@,
            outputs: output_views(self.outputs@),
            transaction: self.transaction@,
        }
    }
}

/// An unspent output as the chain reports it for a script: where it is, and
/// the height of the block that confirmed it (0 while it is unconfirmed).
#[derive(Clone, Copy, Debug, PartialEq, Eq)]
pub struct Unspent {
    pub txid: [u8; 32],
    pub position: u64,
    pub height: u64,
}

/// An unspent output with what it holds and the height at which it was
/// confirmed.
#[derive(Debug, PartialEq, Eq)]
pub struct UtxoRecord {
    pub outpoint: OutPoint,
    pub output: Output,
    pub height: u64,
}

/// A [`UtxoRecord`] as a mathematical value.
pub struct UtxoView {
    pub outpoint: OutPoint,
    pub output: OutputView,
    pub height: u64,
}

impl View for UtxoRecord {
    type V = UtxoView;

    open spec fn view(&self) -> UtxoView {
        UtxoView { outpoint: self.outpoint, output: self.output@, height: self.height }
    }
}

impl Clone for UtxoRecord {
    fn clone(&self) -> (copy: UtxoRecord)
        ensures
            copy@ == self@,
    {
        UtxoRecord { outpoint: self.outpoint, output: self.output.clone(), height: self.height }
    }
}

/// The records of a sequence, each as a mathematical value.
pub open spec fn utxo_views(records: Seq<UtxoRecord>) -> Seq<UtxoView> {
    Seq::new(records.len(), |i: int| records[i]@)
}

} // verus!
