//! Matching the inputs of a proof against the unspent outputs that were
//! resolved for the claimed addresses, and adding up what they are worth.
//!
//! Input 0 of a proof is its commitment input; the inputs from 1 on are the
//! reserve inputs. A reserve input is spendable when some resolved record
//! carries its outpoint. Where several records carry one outpoint, the first
//! of them speaks for it.

use vstd::prelude::*;
use crate::error::VerifyError;
use crate::model::{same_txid, utxo_views, OutPoint, UtxoRecord, UtxoView};

verus! {

/// Some record carries `target`.
pub open spec fn present(utxos: Seq<UtxoView>, target: OutPoint) -> bool {
    exists|k: int| 0 <= k < utxos.len() && (#[trigger] utxos[k]).outpoint == target
}

/// Record `k` is the first that carries `target`.
pub open spec fn first_at(utxos: Seq<UtxoView>, target: OutPoint, k: int) -> bool {
    &&& 0 <= k < utxos.len()
    &&& utxos[k].outpoint == target
    &&& forall|j: int| 0 <= j < k ==> (#[trigger] utxos[j]).outpoint != target
}

/// The record that speaks for `target`: the first that carries it. Where
/// none does, nothing is said of the record.
pub open spec fn record_for(utxos: Seq<UtxoView>, target: OutPoint) -> UtxoView {
    utxos[choose|k: int| first_at(utxos, target, k)]
}

/// The amount that the record for `target` holds; 0 where no record carries
/// it.
pub open spec fn worth(utxos: Seq<UtxoView>, target: OutPoint) -> nat {
    if present(utxos, target) {
        record_for(utxos, target).output.value as nat
    } else {
        0
    }
}

/// No reserve input before input `i` claims the same outpoint.
pub open spec fn first_claim(inputs: Seq<OutPoint>, i: int) -> bool {
    forall|j: int| 1 <= j < i ==> (#[trigger] inputs[j]) != inputs[i]
}

/// Some reserve input before `upto` is carried first by record `k`.
pub open spec fn claimed(inputs: Seq<OutPoint>, utxos: Seq<UtxoView>, upto: int, k: int) -> bool {
    exists|i: int| 1 <= i < upto && first_at(utxos, #[trigger] inputs[i], k)
}

/// The position of the first reserve input at or after `from` that no record
/// carries; the number of inputs where every one of them is carried.
pub open spec fn first_absent(inputs: Seq<OutPoint>, utxos: Seq<UtxoView>, from: int) -> int
    decreases inputs.len() - from,
{
    if from >= inputs.len() {
        inputs.len() as int
    } else if !present(utxos, inputs[from]) {
        from
    } else {
        first_absent(inputs, utxos, from + 1)
    }
}

/// Every reserve input is carried by some record.
pub open spec fn all_spendable(inputs: Seq<OutPoint>, utxos: Seq<UtxoView>) -> bool {
    forall|i: int| 1 <= i < inputs.len() ==> present(utxos, #[trigger] inputs[i])
}

/// What the reserve inputs before position `upto` prove: each outpoint that
/// they claim counts once, however many inputs claim it.
pub open spec fn matched_total(inputs: Seq<OutPoint>, utxos: Seq<UtxoView>, upto: int) -> nat
    decreases upto,
{
    if upto <= 1 {
        0
    } else {
        matched_total(inputs, utxos, upto - 1) + if first_claim(inputs, upto - 1) {
            worth(utxos, inputs[upto - 1])
        } else {
            0
        }
    }
}

/// What the reserve inputs of a proof prove in all.
pub open spec fn reserve_total(inputs: Seq<OutPoint>, utxos: Seq<UtxoView>) -> nat {
    matched_total(inputs, utxos, inputs.len() as int)
}

/// What the inputs from position `from` up to `upto` claim: the worth of
/// each of them, repeated claims included.
pub open spec fn claims(inputs: Seq<OutPoint>, utxos: Seq<UtxoView>, from: int, upto: int) -> nat
    decreases upto - from,
{
    if upto <= from {
        0
    } else {
        claims(inputs, utxos, from, upto - 1) + worth(utxos, inputs[upto - 1])
    }
}

/// What all the inputs of a proof claim to bring in, the commitment input
/// included.
pub open spec fn total_inflow(inputs: Seq<OutPoint>, utxos: Seq<UtxoView>) -> nat {
    claims(inputs, utxos, 0, inputs.len() as int)
}

/// At most one record is the first to carry an outpoint.
pub proof fn lemma_first_at_unique(utxos: Seq<UtxoView>, target: OutPoint, a: int, b: int)
    requires
        first_at(utxos, target, a),
        first_at(utxos, target, b),
    ensures
        a == b,
{
    if a < b {
        assert(utxos[a].outpoint != target);
    }
    if b < a {
        assert(utxos[b].outpoint != target);
    }
}

/// The first record that carries an outpoint speaks for it, and decides
/// what it is worth.
pub proof fn lemma_worth_at(utxos: Seq<UtxoView>, target: OutPoint, k: int)
    requires
        first_at(utxos, target, k),
    ensures
        present(utxos, target),
        record_for(utxos, target) == utxos[k],
        worth(utxos, target) == utxos[k].output.value,
{
    let chosen = choose|c: int| first_at(utxos, target, c);
    lemma_first_at_unique(utxos, target, k, chosen);
}

/// Where every reserve input from `from` on is carried by a record, none is
/// absent.
pub proof fn lemma_none_absent(inputs: Seq<OutPoint>, utxos: Seq<UtxoView>, from: int)
    requires
        1 <= from,
        all_spendable(inputs, utxos),
    ensures
        first_absent(inputs, utxos, from) == inputs.len(),
    decreases inputs.len() - from,
{
    if from < inputs.len() {
        assert(present(utxos, inputs[from]));
        lemma_none_absent(inputs, utxos, from + 1);
    }
}

/// Where no reserve input from `from` on is found absent, each of them is
/// carried by a record.
pub proof fn lemma_all_present_from(inputs: Seq<OutPoint>, utxos: Seq<UtxoView>, from: int)
    requires
        1 <= from,
        first_absent(inputs, utxos, from) >= inputs.len(),
    ensures
        forall|i: int| from <= i < inputs.len() ==> present(utxos, #[trigger] inputs[i]),
    decreases inputs.len() - from,
{
    if from < inputs.len() {
        lemma_all_present_from(inputs, utxos, from + 1);
    }
}

/// The first reserve input that no record carries is found wherever the
/// search starts before it.
pub proof fn lemma_first_absent_at(
    inputs: Seq<OutPoint>,
    utxos: Seq<UtxoView>,
    from: int,
    i: int,
)
    requires
        1 <= from <= i < inputs.len(),
        !present(utxos, inputs[i]),
        forall|j: int| from <= j < i ==> present(utxos, #[trigger] inputs[j]),
    ensures
        first_absent(inputs, utxos, from) == i,
    decreases i - from,
{
    if from < i {
        assert(present(utxos, inputs[from]));
        lemma_first_absent_at(inputs, utxos, from + 1, i);
    }
}

/// Where no two reserve inputs claim the same outpoint, the reserve inputs
/// prove the sum of what each of them is worth.
pub proof fn lemma_distinct_claims(inputs: Seq<OutPoint>, utxos: Seq<UtxoView>, upto: int)
    requires
        upto <= inputs.len(),
        forall|i: int, j: int| 1 <= i < j < inputs.len() ==> inputs[i] != inputs[j],
    ensures
        matched_total(inputs, utxos, upto) == claims(inputs, utxos, 1, upto),
    decreases upto,
{
    if upto > 1 {
        lemma_distinct_claims(inputs, utxos, upto - 1);
        assert(first_claim(inputs, upto - 1));
    }
}

/// What the first `count` records hold in all.
pub open spec fn funds(utxos: Seq<UtxoView>, count: int) -> nat
    decreases count,
{
    if count <= 0 {
        0
    } else {
        funds(utxos, count - 1) + utxos[count - 1].output.value as nat
    }
}

/// Records that agree up to `count` hold the same up to there.
proof fn lemma_funds_of_prefix(a: Seq<UtxoView>, b: Seq<UtxoView>, count: int)
    requires
        count <= a.len(),
        count <= b.len(),
        forall|k: int| 0 <= k < count ==> a[k] == b[k],
    ensures
        funds(a, count) == funds(b, count),
    decreases count,
{
    if count > 0 {
        lemma_funds_of_prefix(a, b, count - 1);
    }
}

/// What an outpoint is worth with and without the last record: the last
/// record gives it its worth where it is the first to carry it, and makes no
/// difference otherwise.
proof fn lemma_worth_without_last(utxos: Seq<UtxoView>, target: OutPoint)
    requires
        utxos.len() >= 1,
    ensures
        first_at(utxos, target, utxos.len() - 1) ==> worth(utxos.drop_last(), target) == 0
            && worth(utxos, target) == utxos.last().output.value,
        !first_at(utxos, target, utxos.len() - 1) ==> worth(utxos.drop_last(), target) == worth(
            utxos,
            target,
        ),
{
    let short = utxos.drop_last();
    let last = utxos.len() - 1;
    if first_at(utxos, target, last) {
        lemma_worth_at(utxos, target, last);
        if present(short, target) {
            let k = choose|k: int| 0 <= k < short.len() && (#[trigger] short[k]).outpoint == target;
            assert(utxos[k].outpoint == target);
        }
    } else if present(utxos, target) {
        let k = choose|k: int| first_at(utxos, target, k);
        assert(exists|k: int| first_at(utxos, target, k)) by {
            lemma_present_has_first(utxos, target, utxos.len() as int);
        }
        assert(k < last) by {
            if k == last {
                assert(first_at(utxos, target, last));
            }
        }
        assert(first_at(short, target, k)) by {
            assert(short[k] == utxos[k]);
            assert forall|j: int| 0 <= j < k implies (#[trigger] short[j]).outpoint != target by {
                assert(short[j] == utxos[j]);
            }
        }
        lemma_worth_at(utxos, target, k);
        lemma_worth_at(short, target, k);
    } else {
        if present(short, target) {
            let k = choose|k: int| 0 <= k < short.len() && (#[trigger] short[k]).outpoint == target;
            assert(utxos[k].outpoint == target);
        }
    }
}

/// Where a record among the first `upto` carries an outpoint, one of them is
/// the first to carry it.
proof fn lemma_present_has_first(utxos: Seq<UtxoView>, target: OutPoint, upto: int)
    requires
        0 <= upto <= utxos.len(),
        exists|k: int| 0 <= k < upto && (#[trigger] utxos[k]).outpoint == target,
    ensures
        exists|k: int| first_at(utxos, target, k),
    decreases upto,
{
    let k = choose|k: int| 0 <= k < upto && (#[trigger] utxos[k]).outpoint == target;
    if exists|j: int| 0 <= j < k && (#[trigger] utxos[j]).outpoint == target {
        lemma_present_has_first(utxos, target, k);
    } else {
        assert(first_at(utxos, target, k));
    }
}

/// Taking the last record away lowers what the reserve inputs prove by no
/// more than what that record holds, and by nothing where no input claims
/// it.
proof fn lemma_total_without_last(inputs: Seq<OutPoint>, utxos: Seq<UtxoView>, upto: int)
    requires
        utxos.len() >= 1,
        upto <= inputs.len(),
    ensures
        matched_total(inputs, utxos, upto) <= matched_total(inputs, utxos.drop_last(), upto) + (
        if claimed(inputs, utxos, upto, utxos.len() - 1) {
            utxos.last().output.value as nat
        } else {
            0
        }),
    decreases upto,
{
    if upto > 1 {
        let i = upto - 1;
        let last = utxos.len() - 1;
        lemma_total_without_last(inputs, utxos, i);
        lemma_worth_without_last(utxos, inputs[i]);
        if claimed(inputs, utxos, i, last) {
            let j = choose|j: int| 1 <= j < i && first_at(utxos, #[trigger] inputs[j], last);
            assert(1 <= j < upto && first_at(utxos, inputs[j], last));
            if first_at(utxos, inputs[i], last) {
                assert(inputs[j] == inputs[i]);
                assert(!first_claim(inputs, i));
            }
        } else if first_at(utxos, inputs[i], last) {
            assert(claimed(inputs, utxos, upto, last));
        }
    }
}

/// The reserve inputs of a proof prove no more than the resolved records
/// hold, however often an outpoint is claimed.
pub proof fn law_total_within_funds(inputs: Seq<OutPoint>, utxos: Seq<UtxoView>)
    ensures
        reserve_total(inputs, utxos) <= funds(utxos, utxos.len() as int),
    decreases utxos.len(),
{
    if utxos.len() == 0 {
        lemma_nothing_from_no_records(inputs, utxos, inputs.len() as int);
    } else {
        let short = utxos.drop_last();
        law_total_within_funds(inputs, short);
        lemma_total_without_last(inputs, utxos, inputs.len() as int);
        lemma_funds_of_prefix(short, utxos, short.len() as int);
    }
}

/// Without records the reserve inputs prove nothing.
proof fn lemma_nothing_from_no_records(inputs: Seq<OutPoint>, utxos: Seq<UtxoView>, upto: int)
    requires
        utxos.len() == 0,
    ensures
        matched_total(inputs, utxos, upto) == 0,
    decreases upto,
{
    if upto > 1 {
        lemma_nothing_from_no_records(inputs, utxos, upto - 1);
    }
}

/// Looks an outpoint up in the resolved records.
pub fn find_record(utxos: &Vec<UtxoRecord>, target: &OutPoint) -> (found: Option<usize>)
    ensures
        match found {
            Some(k) => first_at(utxo_views(utxos@), *target, k as int),
            None => !present(utxo_views(utxos@), *target),
        },
{
    let ghost views = utxo_views(utxos@);
    let mut k: usize = 0;
    while k < utxos.len()
        invariant
            k <= utxos.len(),
            views == utxo_views(utxos@),
            forall|j: int| 0 <= j < k ==> (#[trigger] views[j]).outpoint != *target,
        decreases utxos.len() - k,
    {
        if utxos[k].outpoint.same_as(target) {
            assert(views[k as int].outpoint == *target);
            return Some(k);
        }
        assert(views[k as int].outpoint != *target);
        k += 1;
    }
    None
}

/// An input commits to a message when it spends output 0 of the transaction
/// whose id is the message's commitment.
pub open spec fn commits(input: OutPoint, commitment: Seq<u8>) -> bool {
    input.vout == 0 && input.txid@ == commitment
}

/// What the library itself decides of a proof's inputs, before any signature
/// is looked at:
/// - a proof without inputs is malformed;
/// - input 0 must commit to the message;
/// - the first reserve input that no record carries is reported;
/// - the inputs must not claim more than an amount can express;
/// - what is left is the total that the reserve inputs prove.
pub open spec fn matching_outcome(
    inputs: Seq<OutPoint>,
    commitment: Seq<u8>,
    utxos: Seq<UtxoView>,
) -> Result<u64, VerifyError> {
    if inputs.len() == 0 {
        Err(VerifyError::MalformedProof)
    } else if !commits(inputs[0], commitment) {
        Err(VerifyError::MessageMismatch)
    } else if first_absent(inputs, utxos, 1) < inputs.len() {
        Err(VerifyError::NonSpendableInput(first_absent(inputs, utxos, 1) as usize))
    } else if total_inflow(inputs, utxos) > u64::MAX {
        Err(VerifyError::MalformedProof)
    } else {
        Ok(reserve_total(inputs, utxos) as u64)
    }
}

/// The reserve inputs prove no more than all the inputs claim.
pub proof fn lemma_total_within_inflow(inputs: Seq<OutPoint>, utxos: Seq<UtxoView>, upto: int)
    ensures
        matched_total(inputs, utxos, upto) <= claims(inputs, utxos, 0, upto),
    decreases upto,
{
    if upto > 1 {
        lemma_total_within_inflow(inputs, utxos, upto - 1);
    } else if upto == 1 {
        assert(claims(inputs, utxos, 0, 0) == 0);
    }
}

/// Checks the inputs of a proof against the commitment of the message and
/// the resolved records, and adds up what the reserve inputs prove.
pub fn match_reserves(
    inputs: &Vec<OutPoint>,
    commitment: &[u8; 32],
    utxos: &Vec<UtxoRecord>,
) -> (outcome: Result<u64, VerifyError>)
    ensures
        outcome == matching_outcome(inputs@, commitment@, utxo_views(utxos@)),
{
    let ghost views = utxo_views(utxos@);
    if inputs.len() == 0 {
        return Err(VerifyError::MalformedProof);
    }
    if inputs[0].vout != 0 || !same_txid(&inputs[0].txid, commitment) {
        return Err(VerifyError::MessageMismatch);
    }
    let mut consumed: Vec<bool> = Vec::new();
    let mut k: usize = 0;
    while k < utxos.len()
        invariant
            k <= utxos.len(),
            consumed.len() == k,
            forall|j: int| 0 <= j < k ==> !(#[trigger] consumed[j]),
        decreases utxos.len() - k,
    {
        consumed.push(false);
        k += 1;
    }
    let mut inflow: u64 = match find_record(utxos, &inputs[0]) {
        Some(k) => {
            proof {
                lemma_worth_at(views, inputs@[0], k as int);
            }
            utxos[k].output.value
        },
        None => 0,
    };
    assert(claims(inputs@, views, 0, 1) == inflow) by {
        assert(claims(inputs@, views, 0, 0) == 0);
    }
    let mut overflowed = false;
    let mut total: u64 = 0;
    let mut i: usize = 1;
    while i < inputs.len()
        invariant
            1 <= i <= inputs.len(),
            views == utxo_views(utxos@),
            commits(inputs@[0], commitment@),
            consumed.len() == utxos.len(),
            first_absent(inputs@, views, 1) == first_absent(inputs@, views, i as int),
            overflowed ==> claims(inputs@, views, 0, i as int) > u64::MAX,
            !overflowed ==> inflow == claims(inputs@, views, 0, i as int),
            !overflowed ==> total == matched_total(inputs@, views, i as int),
            forall|k: int|
                0 <= k < consumed.len() ==> (#[trigger] consumed[k] <==> claimed(
                    inputs@,
                    views,
                    i as int,
                    k,
                )),
        decreases inputs.len() - i,
    {
        let found = find_record(utxos, &inputs[i]);
        let k = match found {
            Some(k) => k,
            None => {
                assert(first_absent(inputs@, views, i as int) == i);
                return Err(VerifyError::NonSpendableInput(i));
            },
        };
        let value = utxos[k].output.value;
        proof {
            lemma_worth_at(views, inputs@[i as int], k as int);
            lemma_total_within_inflow(inputs@, views, i as int);
            if consumed[k as int] {
                let j = choose|j: int| 1 <= j < i && first_at(views, #[trigger] inputs@[j], k as int);
                assert(inputs@[j] == inputs@[i as int]);
                assert(!first_claim(inputs@, i as int));
            } else {
                let current = inputs@[i as int];
                assert forall|j: int| 1 <= j < i implies (#[trigger] inputs@[j]) != current by {
                    if inputs@[j] == current {
                        assert(first_at(views, inputs@[j], k as int));
                    }
                }
                assert(first_claim(inputs@, i as int));
            }
        }
        if !overflowed {
            if value > u64::MAX - inflow {
                overflowed = true;
            } else {
                inflow = inflow + value;
                if !consumed[k] {
                    total = total + value;
                }
            }
        }
        let ghost before = consumed@;
        consumed.set(k, true);
        i += 1;
        proof {
            assert forall|r: int| 0 <= r < consumed.len() implies (#[trigger] consumed[r]
                <==> claimed(inputs@, views, i as int, r)) by {
                if r == k {
                    assert(first_at(views, inputs@[i - 1], r));
                } else {
                    if before[r] {
                        let j = choose|j: int|
                            1 <= j < i - 1 && first_at(views, #[trigger] inputs@[j], r);
                        assert(1 <= j < i && first_at(views, inputs@[j], r));
                    }
                    if exists|j: int| 1 <= j < i && first_at(views, #[trigger] inputs@[j], r) {
                        let j = choose|j: int|
                            1 <= j < i && first_at(views, #[trigger] inputs@[j], r);
                        if j == i - 1 {
                            lemma_first_at_unique(views, inputs@[j], r, k as int);
                        }
                        assert(1 <= j < i - 1 && first_at(views, inputs@[j], r));
                    }
                }
            }
        }
    }
    if overflowed {
        return Err(VerifyError::MalformedProof);
    }
    Ok(total)
}

} // verus!
