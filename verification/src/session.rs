//! One verification request from its arrival to its result.
//!
//! The library decides and the caller asks the chain. A [`Session`] names
//! the next thing to do as an [`Action`]; the caller does it and hands the
//! answer back as an [`Event`], until the action is to finish with a result.
//! The chain is asked for its height once, then for the unspent outputs of
//! each address in turn, and for the transaction of each output that counts.

use vstd::prelude::*;
use crate::bytes::copy_bytes;
use crate::decoder::{decode_proof, decoding, well_formed, ProofTransaction, ProofView};
use crate::error::{VerificationResult, VerifyError};
use crate::model::{
    output_views, utxo_views, Network, Output, OutputView, Unspent, UtxoRecord, UtxoView,
};
use crate::reserves::{reserve_outcome, verify_reserves};
use crate::resolver::{
    accept_addresses, accepting, byte_strings, confirmation_threshold, network_of, resolve_output,
    resolving, retain_settled, retained, select_network, texts, threshold,
};

verus! {

/// What a caller asks to have verified.
#[derive(Debug)]
pub struct VerificationRequest {
    /// The challenge that the proof has to commit to.
    pub message: String,
    /// The proof, as base64 text.
    pub proof: String,
    /// The addresses whose funds the proof claims.
    pub addresses: Vec<String>,
}

/// A [`VerificationRequest`] as a mathematical value.
pub struct RequestView {
    pub message: Seq<char>,
    pub proof: Seq<char>,
    pub addresses: Seq<Seq<char>>,
}

impl View for VerificationRequest {
    type V = RequestView;

    open spec fn view(&self) -> RequestView {
        RequestView {
            message: self.message@,
            proof: self.proof@,
            addresses: texts(self.addresses@),
        }
    }
}

/// What the chain answered.
#[derive(Debug)]
pub enum Event {
    /// The height of the chain.
    Height(u64),
    /// The unspent outputs at the script that was asked about.
    Listing(Vec<Unspent>),
    /// The outputs of the transaction that was asked for.
    Transaction(Vec<Output>),
    /// The chain could not be reached or did not answer.
    Failed,
}

/// An [`Event`] as a mathematical value.
pub enum EventView {
    Height(u64),
    Listing(Seq<Unspent>),
    Transaction(Seq<OutputView>),
    Failed,
}

impl View for Event {
    type V = EventView;

    open spec fn view(&self) -> EventView {
        match self {
            Event::Height(height) => EventView::Height(*height),
            Event::Listing(listing) => EventView::Listing(listing@),
            Event::Transaction(outputs) => EventView::Transaction(output_views(outputs@)),
            Event::Failed => EventView::Failed,
        }
    }
}

/// What the caller is to do next.
#[derive(Debug)]
pub enum Action {
    /// Ask the chain of this ledger for its height.
    QueryHeight(Network),
    /// Ask for the unspent outputs at this script.
    ListUnspent(Vec<u8>),
    /// Ask for the transaction with this id.
    FetchTransaction([u8; 32]),
    /// Report the result; the session is over.
    Finish(VerificationResult),
}

/// An [`Action`] as a mathematical value.
pub enum ActionView {
    QueryHeight(Network),
    ListUnspent(Seq<u8>),
    FetchTransaction([u8; 32]),
    Finish(VerificationResult),
}

impl View for Action {
    type V = ActionView;

    open spec fn view(&self) -> ActionView {
        match self {
            Action::QueryHeight(network) => ActionView::QueryHeight(*network),
            Action::ListUnspent(script) => ActionView::ListUnspent(script@),
            Action::FetchTransaction(txid) => ActionView::FetchTransaction(*txid),
            Action::Finish(result) => ActionView::Finish(*result),
        }
    }
}

/// What stays the same through a session: the decoded proof, the message,
/// the ledger, the confirmations asked for and the script of each address.
pub struct TaskView {
    pub proof: ProofView,
    pub message: Seq<char>,
    pub network: Network,
    pub confirmations: u64,
    pub scripts: Seq<Seq<u8>>,
}

/// A session as a mathematical value: what it waits for, and what it has
/// gathered so far.
pub enum SessionView {
    /// The height of the chain is awaited.
    AwaitingHeight { task: TaskView },
    /// The listing of address `address` is awaited.
    AwaitingListing { task: TaskView, limit: u64, address: int, resolved: Seq<UtxoView> },
    /// The transaction of entry `cursor` of the entries that count at address
    /// `address` is awaited.
    AwaitingTransaction {
        task: TaskView,
        limit: u64,
        address: int,
        pending: Seq<Unspent>,
        cursor: int,
        resolved: Seq<UtxoView>,
    },
    /// The session is over.
    Finished { result: VerificationResult },
}

/// The positions that a session holds point into its lists.
pub open spec fn coherent(session: SessionView) -> bool {
    match session {
        SessionView::AwaitingHeight { task } => well_formed(task.proof),
        SessionView::AwaitingListing { task, limit, address, resolved } => {
            &&& well_formed(task.proof)
            &&& 0 <= address < task.scripts.len()
        },
        SessionView::AwaitingTransaction { task, limit, address, pending, cursor, resolved } => {
            &&& well_formed(task.proof)
            &&& 0 <= address < task.scripts.len()
            &&& 0 <= cursor < pending.len()
        },
        SessionView::Finished { result } => true,
    }
}

/// The session once the addresses before `address` are resolved: it asks
/// for the listing of the next address, and where none is left it verifies
/// the proof against the records gathered and is over.
pub open spec fn proceeding(
    task: TaskView,
    limit: u64,
    address: int,
    resolved: Seq<UtxoView>,
) -> SessionView {
    if address < task.scripts.len() {
        SessionView::AwaitingListing { task, limit, address, resolved }
    } else {
        SessionView::Finished {
            result: VerificationResult::of(
                reserve_outcome(task.proof, task.message, resolved, task.network),
            ),
        }
    }
}

/// The session once the entries before `cursor` are resolved: it asks for
/// the transaction of the next entry, and where none is left it goes on to
/// the next address.
pub open spec fn advancing(
    task: TaskView,
    limit: u64,
    address: int,
    pending: Seq<Unspent>,
    cursor: int,
    resolved: Seq<UtxoView>,
) -> SessionView {
    if cursor < pending.len() {
        SessionView::AwaitingTransaction { task, limit, address, pending, cursor, resolved }
    } else {
        proceeding(task, limit, address + 1, resolved)
    }
}

/// The session that a request opens. A proof that does not decode ends it
/// at once, and so does an address list that is not accepted.
pub open spec fn opening(request: RequestView, confirmations: u64) -> SessionView {
    match decoding(request.proof) {
        Err(error) => SessionView::Finished { result: VerificationResult::Failure(error) },
        Ok(proof) => match accepting(request.addresses) {
            Err(error) => SessionView::Finished { result: VerificationResult::Failure(error) },
            Ok(scripts) => SessionView::AwaitingHeight {
                task: TaskView {
                    proof,
                    message: request.message,
                    network: network_of(request.addresses),
                    confirmations,
                    scripts,
                },
            },
        },
    }
}

/// The session after an event. An event that does not answer what was
/// asked, a chain that fails and an answer that does not fit end the
/// session with a chain error; nothing changes a session that is over.
pub open spec fn stepping(session: SessionView, event: EventView) -> SessionView {
    match session {
        SessionView::Finished { result } => session,
        SessionView::AwaitingHeight { task } => match event {
            EventView::Height(height) => proceeding(
                task,
                threshold(height, task.confirmations),
                0,
                Seq::empty(),
            ),
            _ => chain_failure(),
        },
        SessionView::AwaitingListing { task, limit, address, resolved } => match event {
            EventView::Listing(listing) => advancing(
                task,
                limit,
                address,
                retained(listing, limit),
                0,
                resolved,
            ),
            _ => chain_failure(),
        },
        SessionView::AwaitingTransaction {
            task,
            limit,
            address,
            pending,
            cursor,
            resolved,
        } => match event {
            EventView::Transaction(outputs) => match resolving(pending[cursor], outputs) {
                Ok(record) => advancing(
                    task,
                    limit,
                    address,
                    pending,
                    cursor + 1,
                    resolved.push(record),
                ),
                Err(error) => SessionView::Finished {
                    result: VerificationResult::Failure(error),
                },
            },
            _ => chain_failure(),
        },
    }
}

/// The session that a failure of the chain leaves.
pub open spec fn chain_failure() -> SessionView {
    SessionView::Finished { result: VerificationResult::Failure(VerifyError::ChainQueryError) }
}

/// What a session asks its caller to do.
pub open spec fn action_of(session: SessionView) -> ActionView {
    match session {
        SessionView::AwaitingHeight { task } => ActionView::QueryHeight(task.network),
        SessionView::AwaitingListing { task, limit, address, resolved } => ActionView::ListUnspent(
            task.scripts[address],
        ),
        SessionView::AwaitingTransaction {
            task,
            limit,
            address,
            pending,
            cursor,
            resolved,
        } => ActionView::FetchTransaction(pending[cursor].txid),
        SessionView::Finished { result } => ActionView::Finish(result),
    }
}

/// The threshold of a session, once the height of the chain has set it.
pub open spec fn limit_of(session: SessionView) -> Option<u64> {
    match session {
        SessionView::AwaitingListing { task, limit, address, resolved } => Some(limit),
        SessionView::AwaitingTransaction {
            task,
            limit,
            address,
            pending,
            cursor,
            resolved,
        } => Some(limit),
        _ => None,
    }
}

/// The height of the chain is asked for once, at the start, and the
/// threshold that it sets stays the same for every address: no event leads
/// back to waiting for the height, and none changes a threshold that is set.
pub proof fn law_threshold_is_set_once(session: SessionView, event: EventView)
    ensures
        !(stepping(session, event) is AwaitingHeight),
        limit_of(session) is Some && limit_of(stepping(session, event)) is Some ==> limit_of(
            stepping(session, event),
        ) == limit_of(session),
{
}

/// A request that names no address ends with that error, whatever proof it
/// brings, as long as the proof can be decoded at all.
pub proof fn law_empty_address_list_fails(request: RequestView, confirmations: u64)
    requires
        request.addresses.len() == 0,
        decoding(request.proof) is Ok,
    ensures
        opening(request, confirmations) == (SessionView::Finished {
            result: VerificationResult::Failure(VerifyError::NoAddressProvided),
        }),
{
}

struct Task {
    proof: ProofTransaction,
    message: String,
    network: Network,
    confirmations: u64,
    scripts: Vec<Vec<u8>>,
}

impl View for Task {
    type V = TaskView;

    closed spec fn view(&self) -> TaskView {
        TaskView {
            proof: self.proof@,
            message: self.message@,
            network: self.network,
            confirmations: self.confirmations,
            scripts: byte_strings(self.scripts@),
        }
    }
}

enum State {
    Height(Task),
    Listing(Task, u64, usize, Vec<UtxoRecord>),
    Transaction(Task, u64, usize, Vec<Unspent>, usize, Vec<UtxoRecord>),
    Finished(VerificationResult),
}

/// The state of one verification request.
pub struct Session {
    state: State,
}

impl View for Session {
    type V = SessionView;

    closed spec fn view(&self) -> SessionView {
        match self.state {
            State::Height(task) => SessionView::AwaitingHeight { task: task@ },
            State::Listing(task, limit, address, resolved) => SessionView::AwaitingListing {
                task: task@,
                limit,
                address: address as int,
                resolved: utxo_views(resolved@),
            },
            State::Transaction(
                task,
                limit,
                address,
                pending,
                cursor,
                resolved,
            ) => SessionView::AwaitingTransaction {
                task: task@,
                limit,
                address: address as int,
                pending: pending@,
                cursor: cursor as int,
                resolved: utxo_views(resolved@),
            },
            State::Finished(result) => SessionView::Finished { result },
        }
    }
}

impl Session {
    #[verifier::type_invariant]
    closed spec fn valid(&self) -> bool {
        coherent(self@)
    }

    fn failed(error: VerifyError) -> (session: Session)
        ensures
            session@ == (SessionView::Finished { result: VerificationResult::Failure(error) }),
    {
        Session { state: State::Finished(VerificationResult::Failure(error)) }
    }

    fn proceed(task: Task, limit: u64, address: usize, resolved: Vec<UtxoRecord>) -> (session:
        Session)
        requires
            well_formed(task@.proof),
        ensures
            session@ == proceeding(task@, limit, address as int, utxo_views(resolved@)),
    {
        if address < task.scripts.len() {
            Session { state: State::Listing(task, limit, address, resolved) }
        } else {
            let outcome = verify_reserves(
                &task.proof,
                task.message.as_str(),
                &resolved,
                task.network,
            );
            Session { state: State::Finished(VerificationResult::from_outcome(outcome)) }
        }
    }

    fn advance(
        task: Task,
        limit: u64,
        address: usize,
        pending: Vec<Unspent>,
        cursor: usize,
        resolved: Vec<UtxoRecord>,
    ) -> (session: Session)
        requires
            well_formed(task@.proof),
            address < task.scripts.len(),
        ensures
            session@ == advancing(
                task@,
                limit,
                address as int,
                pending@,
                cursor as int,
                utxo_views(resolved@),
            ),
    {
        if cursor < pending.len() {
            Session { state: State::Transaction(task, limit, address, pending, cursor, resolved) }
        } else {
            Session::proceed(task, limit, address + 1, resolved)
        }
    }

    /// Opens the session of a request: decodes the proof, parses the
    /// addresses and picks the ledger.
    pub fn start(request: VerificationRequest, confirmations: u64) -> (session: Session)
        ensures
            session@ == opening(request@, confirmations),
            coherent(session@),
    {
        let proof = match decode_proof(request.proof.as_str()) {
            Ok(proof) => proof,
            Err(error) => {
                return Session::failed(error);
            },
        };
        let scripts = match accept_addresses(&request.addresses) {
            Ok(scripts) => scripts,
            Err(error) => {
                return Session::failed(error);
            },
        };
        let network = select_network(&request.addresses);
        let task = Task { proof, message: request.message, network, confirmations, scripts };
        Session { state: State::Height(task) }
    }

    /// What the caller is to do next.
    pub fn action(&self) -> (action: Action)
        ensures
            action@ == action_of(self@),
            coherent(self@),
    {
        proof {
            use_type_invariant(self);
        }
        match &self.state {
            State::Height(task) => Action::QueryHeight(task.network),
            State::Listing(task, _, address, _) => Action::ListUnspent(
                copy_bytes(task.scripts[*address].as_slice()),
            ),
            State::Transaction(_, _, _, pending, cursor, _) => Action::FetchTransaction(
                pending[*cursor].txid,
            ),
            State::Finished(result) => Action::Finish(*result),
        }
    }

    /// The result, once the session is over.
    pub fn result(&self) -> (result: Option<VerificationResult>)
        ensures
            result == match self@ {
                SessionView::Finished { result } => Some(result),
                _ => None,
            },
    {
        match &self.state {
            State::Finished(result) => Some(*result),
            _ => None,
        }
    }

    /// Takes the chain's answer to the last action and moves on.
    pub fn step(self, event: Event) -> (next: Session)
        ensures
            next@ == stepping(self@, event@),
            coherent(next@),
    {
        proof {
            use_type_invariant(&self);
        }
        match self.state {
            State::Finished(result) => Session { state: State::Finished(result) },
            State::Height(task) => match event {
                Event::Height(height) => {
                    let limit = confirmation_threshold(height, task.confirmations);
                    let resolved: Vec<UtxoRecord> = Vec::new();
                    assert(utxo_views(resolved@) =~= Seq::<UtxoView>::empty());
                    Session::proceed(task, limit, 0, resolved)
                },
                _ => Session::failed(VerifyError::ChainQueryError),
            },
            State::Listing(task, limit, address, resolved) => match event {
                Event::Listing(listing) => {
                    let pending = retain_settled(&listing, limit);
                    Session::advance(task, limit, address, pending, 0, resolved)
                },
                _ => Session::failed(VerifyError::ChainQueryError),
            },
            State::Transaction(task, limit, address, pending, cursor, resolved) => match event {
                Event::Transaction(outputs) => {
                    assert(cursor < pending.len());
                    match resolve_output(&pending[cursor], &outputs) {
                        Ok(record) => {
                            let mut resolved = resolved;
                            let ghost before = utxo_views(resolved@);
                            resolved.push(record);
                            assert(utxo_views(resolved@) =~= before.push(record@));
                            Session::advance(task, limit, address, pending, cursor + 1, resolved)
                        },
                        Err(error) => Session::failed(error),
                    }
                },
                _ => Session::failed(VerifyError::ChainQueryError),
            },
        }
    }
}

} // verus!
