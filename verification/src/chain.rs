//! What a session comes to when the chain answers from one unchanging view
//! of it.
//!
//! A [`ChainView`] is the chain at one moment. [`request_outcome`] says
//! directly what a request is worth against it, and
//! [`law_session_reaches_the_outcome`] shows that a session whose actions
//! are answered from that view finishes with just that.

use vstd::prelude::*;
use crate::decoder::decoding;
use crate::error::{VerificationResult, VerifyError};
use crate::model::{OutputView, Unspent, UtxoView};
use crate::reserves::reserve_outcome;
use crate::resolver::{accepting, network_of, resolving, retained, settled, threshold};
use crate::session::{
    action_of, advancing, opening, proceeding, stepping, ActionView, EventView, RequestView,
    SessionView, TaskView,
};

verus! {

/// The chain at one moment: its height, the unspent outputs that it lists
/// for a script, and the outputs of the transactions that it knows. Where
/// the height is `None` or a key is missing, the chain does not answer.
pub struct ChainView {
    pub height: Option<u64>,
    pub listings: Map<Seq<u8>, Seq<Unspent>>,
    pub transactions: Map<[u8; 32], Seq<OutputView>>,
}

/// The chain's answer to an action.
pub open spec fn answering(chain: ChainView, action: ActionView) -> EventView {
    match action {
        ActionView::QueryHeight(_) => match chain.height {
            Some(height) => EventView::Height(height),
            None => EventView::Failed,
        },
        ActionView::ListUnspent(script) => if chain.listings.contains_key(script) {
            EventView::Listing(chain.listings[script])
        } else {
            EventView::Failed
        },
        ActionView::FetchTransaction(txid) => if chain.transactions.contains_key(txid) {
            EventView::Transaction(chain.transactions[txid])
        } else {
            EventView::Failed
        },
        ActionView::Finish(_) => EventView::Failed,
    }
}

/// The record of a listed entry, from the transaction that the chain knows
/// for it.
pub open spec fn record_of(chain: ChainView, entry: Unspent) -> Result<UtxoView, VerifyError> {
    if chain.transactions.contains_key(entry.txid) {
        resolving(entry, chain.transactions[entry.txid])
    } else {
        Err(VerifyError::ChainQueryError)
    }
}

/// The records of the entries from position `from` on, in their order, or
/// the error of the first entry that has none.
pub open spec fn records_of(chain: ChainView, entries: Seq<Unspent>, from: int) -> Result<
    Seq<UtxoView>,
    VerifyError,
>
    decreases entries.len() - from,
{
    if from >= entries.len() {
        Ok(Seq::empty())
    } else {
        match record_of(chain, entries[from]) {
            Err(error) => Err(error),
            Ok(record) => match records_of(chain, entries, from + 1) {
                Err(error) => Err(error),
                Ok(rest) => Ok(seq![record] + rest),
            },
        }
    }
}

/// The records of the scripts from position `from` on: for each script in
/// turn the records of its listed entries that count, or the error of the
/// first query that fails.
pub open spec fn resolution(
    chain: ChainView,
    scripts: Seq<Seq<u8>>,
    limit: u64,
    from: int,
) -> Result<Seq<UtxoView>, VerifyError>
    decreases scripts.len() - from,
{
    if from >= scripts.len() {
        Ok(Seq::empty())
    } else if !chain.listings.contains_key(scripts[from]) {
        Err(VerifyError::ChainQueryError)
    } else {
        match records_of(chain, retained(chain.listings[scripts[from]], limit), 0) {
            Err(error) => Err(error),
            Ok(records) => match resolution(chain, scripts, limit, from + 1) {
                Err(error) => Err(error),
                Ok(rest) => Ok(records + rest),
            },
        }
    }
}

/// What a request is worth against a chain: the proof is decoded, the
/// addresses are accepted, the chain's height gives the threshold, the
/// addresses are resolved in their order, and the proof is verified against
/// the records. The first of these that fails decides.
pub open spec fn request_outcome(
    request: RequestView,
    confirmations: u64,
    chain: ChainView,
) -> VerificationResult {
    match decoding(request.proof) {
        Err(error) => VerificationResult::Failure(error),
        Ok(proof) => match accepting(request.addresses) {
            Err(error) => VerificationResult::Failure(error),
            Ok(scripts) => match chain.height {
                None => VerificationResult::Failure(VerifyError::ChainQueryError),
                Some(height) => match resolution(
                    chain,
                    scripts,
                    threshold(height, confirmations),
                    0,
                ) {
                    Err(error) => VerificationResult::Failure(error),
                    Ok(utxos) => VerificationResult::of(
                        reserve_outcome(
                            proof,
                            request.message,
                            utxos,
                            network_of(request.addresses),
                        ),
                    ),
                },
            },
        },
    }
}

/// The session after `steps` actions, each answered by the chain.
pub open spec fn run(session: SessionView, chain: ChainView, steps: nat) -> SessionView
    decreases steps,
{
    if steps == 0 {
        session
    } else {
        run(stepping(session, answering(chain, action_of(session))), chain, (steps - 1) as nat)
    }
}

/// What a session comes to once the scripts before `address` are resolved.
pub open spec fn settling(
    task: TaskView,
    chain: ChainView,
    limit: u64,
    address: int,
    resolved: Seq<UtxoView>,
) -> VerificationResult {
    match resolution(chain, task.scripts, limit, address) {
        Err(error) => VerificationResult::Failure(error),
        Ok(rest) => VerificationResult::of(
            reserve_outcome(task.proof, task.message, resolved + rest, task.network),
        ),
    }
}

/// What a session comes to once the entries before `cursor` of the script
/// at `address` are resolved.
pub open spec fn gathering(
    task: TaskView,
    chain: ChainView,
    limit: u64,
    address: int,
    pending: Seq<Unspent>,
    cursor: int,
    resolved: Seq<UtxoView>,
) -> VerificationResult {
    match records_of(chain, pending, cursor) {
        Err(error) => VerificationResult::Failure(error),
        Ok(records) => settling(task, chain, limit, address + 1, resolved + records),
    }
}

/// The records of entries that all count are records that count.
proof fn lemma_records_keep_heights(
    chain: ChainView,
    entries: Seq<Unspent>,
    limit: u64,
    from: int,
)
    requires
        0 <= from,
        forall|k: int| 0 <= k < entries.len() ==> settled((#[trigger] entries[k]).height, limit),
    ensures
        records_of(chain, entries, from) matches Ok(records) ==> forall|k: int|
            0 <= k < records.len() ==> settled((#[trigger] records[k]).height, limit),
    decreases entries.len() - from,
{
    if from < entries.len() {
        lemma_records_keep_heights(chain, entries, limit, from + 1);
    }
}

/// Every record that a resolution yields was confirmed, and no later than
/// the threshold: an unconfirmed output and one that is too recent are never
/// among the records that a proof is verified against.
pub proof fn law_resolved_records_are_settled(
    chain: ChainView,
    scripts: Seq<Seq<u8>>,
    limit: u64,
    from: int,
)
    requires
        0 <= from,
    ensures
        resolution(chain, scripts, limit, from) matches Ok(records) ==> forall|k: int|
            0 <= k < records.len() ==> settled((#[trigger] records[k]).height, limit),
    decreases scripts.len() - from,
{
    if from < scripts.len() && chain.listings.contains_key(scripts[from]) {
        let listing = chain.listings[scripts[from]];
        let counts = |entry: Unspent| settled(entry.height, limit);
        let kept = retained(listing, limit);
        assert forall|k: int| 0 <= k < kept.len() implies settled(
            (#[trigger] kept[k]).height,
            limit,
        ) by {
            listing.lemma_filter_pred(counts, k);
        }
        lemma_records_keep_heights(chain, kept, limit, 0);
        law_resolved_records_are_settled(chain, scripts, limit, from + 1);
    }
}

/// A session that is over stays as it is.
pub proof fn lemma_finished_stays(result: VerificationResult, chain: ChainView, steps: nat)
    ensures
        run(SessionView::Finished { result }, chain, steps) == (SessionView::Finished { result }),
    decreases steps,
{
    if steps > 0 {
        lemma_finished_stays(result, chain, (steps - 1) as nat);
    }
}

/// From the point where the entries before `cursor` are resolved, the
/// session finishes with what is left to gather.
proof fn lemma_gathers(
    task: TaskView,
    chain: ChainView,
    limit: u64,
    address: int,
    pending: Seq<Unspent>,
    cursor: int,
    resolved: Seq<UtxoView>,
) -> (steps: nat)
    requires
        0 <= address < task.scripts.len(),
        0 <= cursor,
    ensures
        run(advancing(task, limit, address, pending, cursor, resolved), chain, steps) == (
        SessionView::Finished {
            result: gathering(task, chain, limit, address, pending, cursor, resolved),
        }),
    decreases task.scripts.len() - address, 0int, pending.len() - cursor,
{
    if cursor >= pending.len() {
        assert(resolved + Seq::<UtxoView>::empty() =~= resolved);
        lemma_settles(task, chain, limit, address + 1, resolved)
    } else {
        let session = advancing(task, limit, address, pending, cursor, resolved);
        let event = answering(chain, action_of(session));
        let next = stepping(session, event);
        assert(run(session, chain, 1) == next) by {
            assert(run(next, chain, 0) == next);
        }
        match record_of(chain, pending[cursor]) {
            Err(error) => {
                assert(next == SessionView::Finished {
                    result: VerificationResult::Failure(error),
                });
                1
            },
            Ok(record) => {
                let more = lemma_gathers(
                    task,
                    chain,
                    limit,
                    address,
                    pending,
                    cursor + 1,
                    resolved.push(record),
                );
                assert(next == advancing(
                    task,
                    limit,
                    address,
                    pending,
                    cursor + 1,
                    resolved.push(record),
                ));
                match records_of(chain, pending, cursor + 1) {
                    Ok(rest) => {
                        assert(resolved.push(record) + rest =~= resolved + (seq![record] + rest));
                    },
                    Err(_) => {},
                }
                more + 1
            },
        }
    }
}

/// From the point where the scripts before `address` are resolved, the
/// session finishes with what is left to settle.
proof fn lemma_settles(
    task: TaskView,
    chain: ChainView,
    limit: u64,
    address: int,
    resolved: Seq<UtxoView>,
) -> (steps: nat)
    requires
        0 <= address <= task.scripts.len(),
    ensures
        run(proceeding(task, limit, address, resolved), chain, steps) == (SessionView::Finished {
            result: settling(task, chain, limit, address, resolved),
        }),
    decreases task.scripts.len() - address, 1int, 0int,
{
    if address >= task.scripts.len() {
        assert(resolved + Seq::<UtxoView>::empty() =~= resolved);
        0
    } else {
        let session = proceeding(task, limit, address, resolved);
        let event = answering(chain, action_of(session));
        let next = stepping(session, event);
        assert(run(session, chain, 1) == next) by {
            assert(run(next, chain, 0) == next);
        }
        if !chain.listings.contains_key(task.scripts[address]) {
            1
        } else {
            let pending = retained(chain.listings[task.scripts[address]], limit);
            let more = lemma_gathers(task, chain, limit, address, pending, 0, resolved);
            match records_of(chain, pending, 0) {
                Ok(records) => match resolution(chain, task.scripts, limit, address + 1) {
                    Ok(rest) => {
                        assert((resolved + records) + rest =~= resolved + (records + rest));
                    },
                    Err(_) => {},
                },
                Err(_) => {},
            }
            more + 1
        }
    }
}

/// A session whose every action is answered from one view of the chain is
/// over after finitely many steps, with what the request is worth against
/// that view; and it stays so.
pub proof fn law_session_reaches_the_outcome(
    request: RequestView,
    confirmations: u64,
    chain: ChainView,
) -> (steps: nat)
    ensures
        forall|later: nat|
            later >= steps ==> #[trigger] run(opening(request, confirmations), chain, later) == (
            SessionView::Finished { result: request_outcome(request, confirmations, chain) }),
{
    let session = opening(request, confirmations);
    let result = request_outcome(request, confirmations, chain);
    let steps: nat = match session {
        SessionView::AwaitingHeight { task } => {
            let next = stepping(session, answering(chain, action_of(session)));
            assert(run(session, chain, 1) == next) by {
                assert(run(next, chain, 0) == next);
            }
            match chain.height {
                None => 1,
                Some(height) => {
                    let limit = threshold(height, confirmations);
                    let more = lemma_settles(task, chain, limit, 0, Seq::empty());
                    match resolution(chain, task.scripts, limit, 0) {
                        Ok(rest) => {
                            assert(Seq::<UtxoView>::empty() + rest =~= rest);
                        },
                        Err(_) => {},
                    }
                    more + 1
                },
            }
        },
        _ => 0,
    };
    assert(run(session, chain, steps) == SessionView::Finished { result });
    assert forall|later: nat| later >= steps implies #[trigger] run(session, chain, later) == (
    SessionView::Finished { result }) by {
        lemma_run_splits(session, chain, steps, (later - steps) as nat);
        lemma_finished_stays(result, chain, (later - steps) as nat);
    }
    steps
}

/// Running on is running from where the session got to.
pub proof fn lemma_run_splits(session: SessionView, chain: ChainView, first: nat, then: nat)
    ensures
        run(session, chain, first + then) == run(run(session, chain, first), chain, then),
    decreases first,
{
    if first > 0 {
        lemma_run_splits(
            stepping(session, answering(chain, action_of(session))),
            chain,
            (first - 1) as nat,
            then,
        );
    }
}

} // verus!
