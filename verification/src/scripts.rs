//! Holding each reserve input to the script of the output that it spends.
//!
//! An input is signed when the script interpreter accepts it, within the
//! signed transaction, as a spend of the record that speaks for its
//! outpoint. An input that no record carries cannot be signed.

use vstd::prelude::*;
use crate::foreign::{script_accepts, script_verifies};
use crate::matching::{find_record, lemma_worth_at, present, record_for};
use crate::model::{utxo_views, OutPoint, UtxoRecord, UtxoView};

verus! {

/// Input `i` satisfies the script of the record that speaks for its
/// outpoint.
pub open spec fn input_signed(
    inputs: Seq<OutPoint>,
    transaction: Seq<u8>,
    utxos: Seq<UtxoView>,
    i: int,
) -> bool {
    &&& present(utxos, inputs[i])
    &&& script_accepts(
        record_for(utxos, inputs[i]).output.script_pubkey,
        record_for(utxos, inputs[i]).output.value,
        transaction,
        i as usize,
    )
}

/// Every reserve input is signed.
pub open spec fn all_signed(
    inputs: Seq<OutPoint>,
    transaction: Seq<u8>,
    utxos: Seq<UtxoView>,
) -> bool {
    forall|i: int| 1 <= i < inputs.len() ==> input_signed(inputs, transaction, utxos, i)
}

/// The position of the first reserve input at or after `from` that is not
/// signed; the number of inputs where each of them is.
pub open spec fn first_unsigned(
    inputs: Seq<OutPoint>,
    transaction: Seq<u8>,
    utxos: Seq<UtxoView>,
    from: int,
) -> int
    decreases inputs.len() - from,
{
    if from >= inputs.len() {
        inputs.len() as int
    } else if !input_signed(inputs, transaction, utxos, from) {
        from
    } else {
        first_unsigned(inputs, transaction, utxos, from + 1)
    }
}

/// Where every reserve input is signed, none is found unsigned.
pub proof fn lemma_none_unsigned(
    inputs: Seq<OutPoint>,
    transaction: Seq<u8>,
    utxos: Seq<UtxoView>,
    from: int,
)
    requires
        1 <= from,
        all_signed(inputs, transaction, utxos),
    ensures
        first_unsigned(inputs, transaction, utxos, from) == inputs.len(),
    decreases inputs.len() - from,
{
    if from < inputs.len() {
        assert(input_signed(inputs, transaction, utxos, from));
        lemma_none_unsigned(inputs, transaction, utxos, from + 1);
    }
}

/// Where no reserve input from `from` on is found unsigned, each of them is
/// signed.
pub proof fn lemma_all_signed_from(
    inputs: Seq<OutPoint>,
    transaction: Seq<u8>,
    utxos: Seq<UtxoView>,
    from: int,
)
    requires
        1 <= from,
        first_unsigned(inputs, transaction, utxos, from) >= inputs.len(),
    ensures
        forall|i: int| from <= i < inputs.len() ==> input_signed(inputs, transaction, utxos, i),
    decreases inputs.len() - from,
{
    if from < inputs.len() {
        lemma_all_signed_from(inputs, transaction, utxos, from + 1);
    }
}

/// The first reserve input that is not signed is found wherever the search
/// starts before it.
pub proof fn lemma_first_unsigned_at(
    inputs: Seq<OutPoint>,
    transaction: Seq<u8>,
    utxos: Seq<UtxoView>,
    from: int,
    i: int,
)
    requires
        1 <= from <= i < inputs.len(),
        !input_signed(inputs, transaction, utxos, i),
        forall|j: int| from <= j < i ==> input_signed(inputs, transaction, utxos, j),
    ensures
        first_unsigned(inputs, transaction, utxos, from) == i,
    decreases i - from,
{
    if from < i {
        assert(input_signed(inputs, transaction, utxos, from));
        lemma_first_unsigned_at(inputs, transaction, utxos, from + 1, i);
    }
}

/// Looks for the first reserve input that is not signed.
pub fn find_unsigned(inputs: &Vec<OutPoint>, transaction: &[u8], utxos: &Vec<UtxoRecord>) -> (found:
    Option<usize>)
    ensures
        match found {
            Some(i) => i < inputs.len() && i == first_unsigned(
                inputs@,
                transaction@,
                utxo_views(utxos@),
                1,
            ),
            None => first_unsigned(inputs@, transaction@, utxo_views(utxos@), 1) >= inputs.len(),
        },
{
    let ghost views = utxo_views(utxos@);
    let mut i: usize = 1;
    while i < inputs.len()
        invariant
            1 <= i,
            views == utxo_views(utxos@),
            first_unsigned(inputs@, transaction@, views, 1) == first_unsigned(
                inputs@,
                transaction@,
                views,
                i as int,
            ),
        decreases inputs.len() - i,
    {
        let signed = match find_record(utxos, &inputs[i]) {
            Some(k) => {
                proof {
                    lemma_worth_at(views, inputs@[i as int], k as int);
                }
                let output = &utxos[k].output;
                script_verifies(output.script_pubkey.as_slice(), output.value, transaction, i)
            },
            None => false,
        };
        if !signed {
            return Some(i);
        }
        i += 1;
    }
    None
}

} // verus!
