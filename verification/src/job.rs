//! The relay orchestrator: the life of one job as a state machine.
//!
//! The machine decides; its driver acts. Each call of [`step`] takes the
//! state of a job and what the driver has to report, and gives the next state
//! and what the driver shall do next: step again, have the fees estimated,
//! have a transaction signed and sent, or stop. Nothing is tried twice: every
//! failure ends the job.

use crate::address::Address;
use crate::chain::{commit_model, ChainModel, ChainStore};
use crate::event::{decode_log, DecodeError, LogRecord, NewJobEvent};
use crate::outcome::{compute_outcome, outcome};
use crate::processed::{LogSource, ProcessedLogs};
use crate::transaction::{
    contract_interaction_with_value, transaction_model, BuildError, ContractDetails,
    FeeEstimates, Function, ParamType, Token, TransactionModel, TransactionRequest,
};
use crate::word::Word;
use vstd::prelude::*;

verus! {

/// The gas limit of every delivery.
pub const GAS_LIMIT: u64 = 5000000;

/// The name of the contract function that takes a delivery. The function
/// takes the job id, an unsigned integer of 256 bits, and the address of the
/// recipient.
pub const DELIVER_FUNCTION: &'static str = "deliver";

/// The types of the parameters of the delivery function.
pub open spec fn deliver_inputs() -> Seq<ParamType> {
    seq![ParamType::Uint(256), ParamType::Address]
}

/// What the gateway says of a transaction that it was given to send.
#[derive(Clone, Debug, PartialEq, Eq)]
pub enum SubmissionStatus {
    /// The transaction went out; its hash, if the gateway gave one.
    Sent(Option<String>),
    NonceTooLow,
    NonceTooHigh,
    InsufficientFunds,
}

/// Why a job failed.
#[derive(Clone, Copy, Debug, PartialEq, Eq, Structural)]
pub enum JobError {
    /// The log could not be decoded.
    Decode(DecodeError),
    /// The store has no entry for the destination chain.
    UnknownChain,
    /// The transaction could not be built.
    Build(BuildError),
    /// The nonce that the job used is not the one that the chain or the
    /// store expects.
    NonceConflict,
    /// The signing account cannot pay for the transaction.
    InsufficientFunds,
    /// Fee estimation, signing or sending failed.
    Gateway,
    /// Fee estimation, signing or sending did not answer in time.
    Timeout,
    /// The driver reported something that the job was not waiting for.
    UnexpectedInput,
}

/// The state of a job.
#[derive(Clone, Debug, PartialEq, Eq)]
pub enum JobState {
    /// Waiting for the log.
    Decoding,
    /// The log is decoded; the value to deliver is due.
    Computing { event: NewJobEvent },
    /// The value is known; the chain and its nonce are due.
    FetchingNonce { event: NewJobEvent, value_out: Word },
    /// Waiting for the fee estimate.
    Building {
        job_id: Word,
        chain_id: Word,
        receiver_address: Address,
        value_out: Word,
        nonce: Word,
    },
    /// The transaction is with the gateway; waiting for its status.
    SigningSubmitting { chain_id: Word, nonce: Word },
    /// The status is in; the store is due.
    Reconciling { chain_id: Word, nonce: Word, status: SubmissionStatus },
    /// The transaction went out and the nonce is committed.
    Done { transaction_hash: Option<String> },
    Failed { error: JobError },
}

/// What the driver reports to a job.
#[derive(Clone, Debug, PartialEq, Eq)]
pub enum JobInput {
    /// The log that announces the job.
    Log(LogRecord),
    /// Nothing: the job asked to be stepped again.
    Proceed,
    /// The fee estimate.
    Fees(FeeEstimates),
    /// The status of the transaction.
    Status(SubmissionStatus),
    /// The gateway failed.
    GatewayFailed,
    /// The gateway did not answer in time.
    TimedOut,
}

/// What the driver shall do next for a job.
#[derive(Clone, Debug, PartialEq, Eq)]
pub enum Action {
    /// Step the job again, with [`JobInput::Proceed`].
    Proceed,
    /// Have the fees estimated for the chain and report them.
    EstimateFees { chain_id: Word },
    /// Have the transaction signed and sent on the chain, and report its
    /// status.
    SignAndSubmit { chain_id: Word, request: TransactionRequest },
    /// Nothing: the job is over.
    Finished,
}

/// The relay's state: the chains, the logs taken up, and the contract that
/// takes the deliveries.
#[derive(Debug)]
pub struct Relay {
    pub chains: ChainStore,
    pub processed_logs: ProcessedLogs,
    pub contract_address: String,
}

impl Relay {
    /// True when the chain store and the record of logs are well formed.
    pub open spec fn wf(&self) -> bool {
        self.chains.wf() && self.processed_logs.wf()
    }

    /// A relay without chains and without logs.
    pub fn new(contract_address: String) -> (relay: Relay)
        ensures
            relay.wf(),
            relay.chains@ == Map::<nat, ChainModel>::empty(),
            relay.processed_logs@ == Set::<LogSource>::empty(),
            relay.contract_address == contract_address,
    {
        Relay { chains: ChainStore::new(), processed_logs: ProcessedLogs::new(), contract_address }
    }
}

/// True when state and action are those of a job that has its chain and
/// nonce: it waits for the fee estimate if the store has the chain, and has
/// failed if not.
pub open spec fn is_prepared(
    state: JobState,
    action: Action,
    chains: Map<nat, ChainModel>,
    job_id: nat,
    chain_id: nat,
    receiver_address: Seq<u8>,
    value_out: nat,
) -> bool {
    if chains.dom().contains(chain_id) {
        &&& state matches JobState::Building { job_id: j, chain_id: c, receiver_address: a, value_out: v, nonce: n }
        &&& j@ == job_id
        &&& c@ == chain_id
        &&& a@ == receiver_address
        &&& v@ == value_out
        &&& n@ == chains[chain_id].next_nonce
        &&& action matches Action::EstimateFees { chain_id: d }
        &&& d@ == chain_id
    } else {
        &&& state == (JobState::Failed { error: JobError::UnknownChain })
        &&& action == Action::Finished
    }
}

/// Looks up the destination chain and its next nonce for a job whose value
/// is computed. With the chain known the job goes on to wait for the fee
/// estimate; with the chain unknown it fails. The relay is only read.
pub fn submit_result(
    relay: &Relay,
    job_id: Word,
    chain_id: Word,
    receiver_address: Address,
    value_out: Word,
) -> (r: (JobState, Action))
    requires
        relay.wf(),
    ensures
        is_prepared(
            r.0,
            r.1,
            relay.chains@,
            job_id@,
            chain_id@,
            receiver_address@,
            value_out@,
        ),
{
    match relay.chains.peek_nonce(chain_id) {
        Err(_) => (JobState::Failed { error: JobError::UnknownChain }, Action::Finished),
        Ok(nonce) => (
            JobState::Building { job_id, chain_id, receiver_address, value_out, nonce },
            Action::EstimateFees { chain_id },
        ),
    }
}

/// True when state and action are those of a job right after its log was
/// taken up: failed if the log does not decode or names an unknown chain,
/// else waiting for the fee estimate with the job's data.
pub open spec fn is_started(
    state: JobState,
    action: Action,
    chains: Map<nat, ChainModel>,
    log: &LogRecord,
) -> bool {
    match decode_log(log) {
        Err(e) => state == (JobState::Failed { error: JobError::Decode(e) }) && action
            == Action::Finished,
        Ok(event) => is_prepared(
            state,
            action,
            chains,
            event.job_id,
            event.to_chain_id,
            event.receiver_address,
            outcome(
                event.value_in,
                event.coprocessor_balance,
                event.from_chain_id,
                event.to_chain_id,
            ),
        ),
    }
}

/// Takes up a job: records its log, decodes it, computes the value to
/// deliver, and looks up the destination chain and its nonce. The log is
/// recorded first, whatever becomes of the job; the chains stay as they are.
pub fn job(relay: &mut Relay, event_source: LogSource, event: &LogRecord) -> (r: (
    JobState,
    Action,
))
    requires
        old(relay).wf(),
    ensures
        final(relay).wf(),
        final(relay).processed_logs@ == old(relay).processed_logs@.insert(event_source),
        final(relay).chains == old(relay).chains,
        final(relay).contract_address == old(relay).contract_address,
        is_started(r.0, r.1, old(relay).chains@, event),
{
    relay.processed_logs.record_processed_log(event_source);
    let new_job_event = match NewJobEvent::from(event) {
        Err(e) => {
            return (JobState::Failed { error: JobError::Decode(e) }, Action::Finished);
        },
        Ok(new_job_event) => new_job_event,
    };
    let value_out = compute_outcome(
        new_job_event.value_in,
        new_job_event.coprocessor_balance,
        new_job_event.from_chain_id,
        new_job_event.to_chain_id,
    );
    submit_result(
        relay,
        new_job_event.job_id,
        new_job_event.to_chain_id,
        new_job_event.receiver_address,
        value_out,
    )
}

/// The chains and the final state of a job after its transaction's status
/// is applied. Only a status of `Sent` commits the nonce, and only if the
/// store accepts the commit; everything else leaves the chains as they are.
pub open spec fn reconcile_model(
    chains: Map<nat, ChainModel>,
    chain_id: nat,
    nonce: nat,
    status: SubmissionStatus,
) -> (Map<nat, ChainModel>, JobState) {
    match status {
        SubmissionStatus::Sent(transaction_hash) => match commit_model(chains, chain_id, nonce) {
            Ok(after) => (after, JobState::Done { transaction_hash }),
            Err(_) => (chains, JobState::Failed { error: JobError::NonceConflict }),
        },
        SubmissionStatus::NonceTooLow => (
            chains,
            JobState::Failed { error: JobError::NonceConflict },
        ),
        SubmissionStatus::NonceTooHigh => (
            chains,
            JobState::Failed { error: JobError::NonceConflict },
        ),
        SubmissionStatus::InsufficientFunds => (
            chains,
            JobState::Failed { error: JobError::InsufficientFunds },
        ),
    }
}

/// Applies the status of a job's transaction to the store and ends the job.
pub fn reconcile(relay: &mut Relay, chain_id: Word, nonce: Word, status: SubmissionStatus) -> (r:
    JobState)
    requires
        old(relay).wf(),
    ensures
        final(relay).wf(),
        final(relay).processed_logs == old(relay).processed_logs,
        final(relay).contract_address == old(relay).contract_address,
        (final(relay).chains@, r) == reconcile_model(
            old(relay).chains@,
            chain_id@,
            nonce@,
            status,
        ),
{
    match status {
        SubmissionStatus::Sent(transaction_hash) => match relay.chains.commit_nonce(
            chain_id,
            nonce,
        ) {
            Ok(_) => JobState::Done { transaction_hash },
            Err(_) => JobState::Failed { error: JobError::NonceConflict },
        },
        SubmissionStatus::NonceTooLow => JobState::Failed { error: JobError::NonceConflict },
        SubmissionStatus::NonceTooHigh => JobState::Failed { error: JobError::NonceConflict },
        SubmissionStatus::InsufficientFunds => JobState::Failed {
            error: JobError::InsufficientFunds,
        },
    }
}

/// A status that tells of a nonce conflict leaves every chain's nonce as it
/// was and fails the job.
pub proof fn lemma_conflict_leaves_nonces(chains: Map<nat, ChainModel>, chain_id: nat, nonce: nat)
    ensures
        reconcile_model(chains, chain_id, nonce, SubmissionStatus::NonceTooLow) == (
            chains,
            JobState::Failed { error: JobError::NonceConflict },
        ),
        reconcile_model(chains, chain_id, nonce, SubmissionStatus::NonceTooHigh) == (
            chains,
            JobState::Failed { error: JobError::NonceConflict },
        ),
{
}

/// A status of `Sent` for the job that used the chain's current nonce
/// advances that nonce by exactly one, leaves the other chains as they were,
/// and ends the job as done.
pub proof fn lemma_success_advances_nonce(
    chains: Map<nat, ChainModel>,
    chain_id: nat,
    transaction_hash: Option<String>,
    other: nat,
)
    requires
        chains.dom().contains(chain_id),
        chains[chain_id].next_nonce + 1 < crate::word::word_modulus(),
        other != chain_id,
    ensures
        ({
            let (after, state) = reconcile_model(
                chains,
                chain_id,
                chains[chain_id].next_nonce,
                SubmissionStatus::Sent(transaction_hash),
            );
            &&& state == (JobState::Done { transaction_hash })
            &&& after.dom() == chains.dom()
            &&& after[chain_id].next_nonce == chains[chain_id].next_nonce + 1
            &&& chains.dom().contains(other) ==> after[other] == chains[other]
        }),
{
    crate::chain::lemma_commit_advances_by_one(chains, chain_id, chains[chain_id].next_nonce);
}

/// The transaction that delivers a job's result, or why it cannot be built:
/// a call of the delivery function with the job id and the recipient, for
/// the contract of the relay, on the chain that the destination's RPC
/// services reach, with the gas limit of all deliveries. The delivery
/// function is payable, and the transaction carries the value to deliver.
pub open spec fn delivery_model(
    contract_address: Seq<char>,
    chain: ChainModel,
    job_id: Word,
    receiver_address: Address,
    value_out: Word,
    nonce: Word,
    fees: FeeEstimates,
) -> Result<TransactionModel, BuildError> {
    transaction_model(
        contract_address,
        DELIVER_FUNCTION@,
        deliver_inputs(),
        seq![Token::Uint(job_id), Token::Address(receiver_address)],
        Some(GAS_LIMIT as nat),
        chain.rpc_services.spec_chain_id(),
        nonce@,
        fees,
        value_out@,
    )
}

/// True when state and action are those of a job that has failed.
pub open spec fn has_failed(next: JobState, action: Action, error: JobError) -> bool {
    next == (JobState::Failed { error }) && action == Action::Finished
}

/// The transition relation of a job: from the chains, the contract address,
/// a state and what the driver reports, to the chains afterwards, the next
/// state and the action.
///
/// A job that waits for the gateway fails on a gateway failure or a timeout.
/// A job that is over stays as it is. Any other report that the state was
/// not waiting for fails the job.
pub open spec fn step_model(
    chains: Map<nat, ChainModel>,
    contract_address: Seq<char>,
    state: JobState,
    input: JobInput,
    chains_after: Map<nat, ChainModel>,
    next: JobState,
    action: Action,
) -> bool {
    match state {
        JobState::Decoding => chains_after == chains && match input {
            JobInput::Log(log) => match decode_log(&log) {
                Ok(decoded) => {
                    &&& next matches JobState::Computing { event }
                    &&& event@ == decoded
                    &&& action == Action::Proceed
                },
                Err(e) => has_failed(next, action, JobError::Decode(e)),
            },
            _ => has_failed(next, action, JobError::UnexpectedInput),
        },
        JobState::Computing { event } => chains_after == chains && match input {
            JobInput::Proceed => {
                &&& next matches JobState::FetchingNonce { event: same, value_out }
                &&& same == event
                &&& value_out@ == outcome(
                    event.value_in@,
                    event.coprocessor_balance@,
                    event.from_chain_id@,
                    event.to_chain_id@,
                )
                &&& action == Action::Proceed
            },
            _ => has_failed(next, action, JobError::UnexpectedInput),
        },
        JobState::FetchingNonce { event, value_out } => chains_after == chains && match input {
            JobInput::Proceed => is_prepared(
                next,
                action,
                chains,
                event.job_id@,
                event.to_chain_id@,
                event.receiver_address@,
                value_out@,
            ),
            _ => has_failed(next, action, JobError::UnexpectedInput),
        },
        JobState::Building { job_id, chain_id, receiver_address, value_out, nonce } => chains_after
            == chains && match input {
            JobInput::Fees(fees) => if !chains.dom().contains(chain_id@) {
                has_failed(next, action, JobError::UnknownChain)
            } else {
                match delivery_model(
                    contract_address,
                    chains[chain_id@],
                    job_id,
                    receiver_address,
                    value_out,
                    nonce,
                    fees,
                ) {
                    Ok(transaction) => {
                        &&& next == (JobState::SigningSubmitting { chain_id, nonce })
                        &&& action matches Action::SignAndSubmit { chain_id: target, request }
                        &&& target == chain_id
                        &&& request@ == transaction
                    },
                    Err(e) => has_failed(next, action, JobError::Build(e)),
                }
            },
            JobInput::GatewayFailed => has_failed(next, action, JobError::Gateway),
            JobInput::TimedOut => has_failed(next, action, JobError::Timeout),
            _ => has_failed(next, action, JobError::UnexpectedInput),
        },
        JobState::SigningSubmitting { chain_id, nonce } => chains_after == chains && match input {
            JobInput::Status(status) => next == (JobState::Reconciling { chain_id, nonce, status })
                && action == Action::Proceed,
            JobInput::GatewayFailed => has_failed(next, action, JobError::Gateway),
            JobInput::TimedOut => has_failed(next, action, JobError::Timeout),
            _ => has_failed(next, action, JobError::UnexpectedInput),
        },
        JobState::Reconciling { chain_id, nonce, status } => match input {
            JobInput::Proceed => (chains_after, next) == reconcile_model(
                chains,
                chain_id@,
                nonce@,
                status,
            ) && action == Action::Finished,
            _ => chains_after == chains && has_failed(next, action, JobError::UnexpectedInput),
        },
        JobState::Done { transaction_hash } => chains_after == chains && next == state && action
            == Action::Finished,
        JobState::Failed { error } => chains_after == chains && next == state && action
            == Action::Finished,
    }
}

/// A job whose destination chain the store does not have fails with
/// `UnknownChain` when it comes to fetch the nonce, and the chains stay as
/// they are.
pub proof fn lemma_unknown_chain_fails_job(
    chains: Map<nat, ChainModel>,
    contract_address: Seq<char>,
    event: NewJobEvent,
    value_out: Word,
    chains_after: Map<nat, ChainModel>,
    next: JobState,
    action: Action,
)
    requires
        !chains.dom().contains(event.to_chain_id@),
        step_model(
            chains,
            contract_address,
            JobState::FetchingNonce { event, value_out },
            JobInput::Proceed,
            chains_after,
            next,
            action,
        ),
    ensures
        chains_after == chains,
        next == (JobState::Failed { error: JobError::UnknownChain }),
        action == Action::Finished,
{
}

/// Only the step that reconciles a transaction that was sent can change the
/// chains: every other step leaves them as they are.
pub proof fn lemma_only_reconciling_changes_chains(
    chains: Map<nat, ChainModel>,
    contract_address: Seq<char>,
    state: JobState,
    input: JobInput,
    chains_after: Map<nat, ChainModel>,
    next: JobState,
    action: Action,
)
    requires
        step_model(chains, contract_address, state, input, chains_after, next, action),
        chains_after != chains,
    ensures
        state matches JobState::Reconciling { chain_id, nonce, status } && status
            is Sent && input == JobInput::Proceed && next is Done && commit_model(
            chains,
            chain_id@,
            nonce@,
        ) == Ok::<Map<nat, ChainModel>, crate::chain::StoreError>(chains_after),
{
}

/// One step of some job: the state and the report it started from, and the
/// state and the action it gave.
pub struct Step {
    pub state: JobState,
    pub input: JobInput,
    pub next: JobState,
    pub action: Action,
}

/// True when `stages` are the chains before, between and after the steps of
/// a run of the relay. The steps may belong to any jobs and come in any
/// order.
pub open spec fn is_run(
    contract_address: Seq<char>,
    steps: Seq<Step>,
    stages: Seq<Map<nat, ChainModel>>,
) -> bool {
    &&& stages.len() == steps.len() + 1
    &&& forall|i: int|
        0 <= i < steps.len() ==> step_model(
            stages[i],
            contract_address,
            (#[trigger] steps[i]).state,
            steps[i].input,
            stages[i + 1],
            steps[i].next,
            steps[i].action,
        )
}

/// True when the step ended a job on chain `id` as done: its transaction
/// went out and its nonce was committed.
pub open spec fn is_success_on(step: Step, id: nat) -> bool {
    &&& step.state matches JobState::Reconciling { chain_id, .. }
    &&& chain_id@ == id
    &&& step.next is Done
}

/// The number of steps of a run that ended a job on chain `id` as done.
pub open spec fn successes_on(steps: Seq<Step>, id: nat) -> nat
    decreases steps.len(),
{
    if steps.len() == 0 {
        0
    } else {
        successes_on(steps.drop_last(), id) + if is_success_on(steps.last(), id) {
            1nat
        } else {
            0nat
        }
    }
}

/// A step keeps the chains that there are. It advances the nonce of a chain
/// by one if it ends a job on that chain as done, and else leaves the chain
/// as it is. A job that ends as done used the nonce that its chain had.
pub proof fn lemma_step_advances_on_success(
    chains: Map<nat, ChainModel>,
    contract_address: Seq<char>,
    step: Step,
    chains_after: Map<nat, ChainModel>,
    id: nat,
)
    requires
        step_model(
            chains,
            contract_address,
            step.state,
            step.input,
            chains_after,
            step.next,
            step.action,
        ),
        chains.dom().contains(id),
    ensures
        chains_after.dom() == chains.dom(),
        is_success_on(step, id) ==> chains_after[id].next_nonce == chains[id].next_nonce + 1
            && step.state->Reconciling_nonce@ == chains[id].next_nonce,
        !is_success_on(step, id) ==> chains_after[id] == chains[id],
{
    if chains_after != chains {
        lemma_only_reconciling_changes_chains(
            chains,
            contract_address,
            step.state,
            step.input,
            chains_after,
            step.next,
            step.action,
        );
        let chain_id = step.state->Reconciling_chain_id@;
        let nonce = step.state->Reconciling_nonce@;
        crate::chain::lemma_commit_advances_by_one(chains, chain_id, nonce);
        if chain_id != id {
            crate::chain::lemma_commit_leaves_other_chains(chains, chain_id, nonce, id);
        }
    } else if is_success_on(step, id) {
        let chain_id = step.state->Reconciling_chain_id@;
        let nonce = step.state->Reconciling_nonce@;
        crate::chain::lemma_commit_advances_by_one(chains, chain_id, nonce);
    }
}

/// After a run of the relay, in whatever order the jobs took their steps,
/// the store has the chains it had, and the nonce of each has advanced by the
/// number of jobs on that chain that ended as done.
pub proof fn lemma_nonce_counts_successes(
    contract_address: Seq<char>,
    steps: Seq<Step>,
    stages: Seq<Map<nat, ChainModel>>,
    id: nat,
)
    requires
        is_run(contract_address, steps, stages),
        stages[0].dom().contains(id),
    ensures
        stages.last().dom() == stages[0].dom(),
        stages.last()[id].next_nonce == stages[0][id].next_nonce + successes_on(steps, id),
    decreases steps.len(),
{
    if steps.len() > 0 {
        let n = steps.len() as int;
        let earlier = steps.drop_last();
        let before = stages.drop_last();
        assert forall|i: int| 0 <= i < earlier.len() implies step_model(
            before[i],
            contract_address,
            (#[trigger] earlier[i]).state,
            earlier[i].input,
            before[i + 1],
            earlier[i].next,
            earlier[i].action,
        ) by {
            assert(earlier[i] == steps[i]);
        }
        lemma_nonce_counts_successes(contract_address, earlier, before, id);
        assert(before.last() == stages[n - 1]);
        assert(steps.last() == steps[n - 1]);
        lemma_step_advances_on_success(
            stages[n - 1],
            contract_address,
            steps[n - 1],
            stages[n],
            id,
        );
    }
}

/// In a run of the relay, no two jobs on one chain that ended as done used
/// the same nonce: the one that ended later used the greater nonce.
pub proof fn lemma_successes_use_distinct_nonces(
    contract_address: Seq<char>,
    steps: Seq<Step>,
    stages: Seq<Map<nat, ChainModel>>,
    id: nat,
    i: int,
    j: int,
)
    requires
        is_run(contract_address, steps, stages),
        stages[0].dom().contains(id),
        0 <= i < j < steps.len(),
        is_success_on(steps[i], id),
        is_success_on(steps[j], id),
    ensures
        steps[i].state->Reconciling_nonce@ < steps[j].state->Reconciling_nonce@,
{
    let upto_i = steps.take(i);
    let upto_j = steps.take(j);
    assert forall|k: int| 0 <= k < upto_i.len() implies step_model(
        stages.take(i + 1)[k],
        contract_address,
        (#[trigger] upto_i[k]).state,
        upto_i[k].input,
        stages.take(i + 1)[k + 1],
        upto_i[k].next,
        upto_i[k].action,
    ) by {
        assert(upto_i[k] == steps[k]);
    }
    lemma_nonce_counts_successes(contract_address, upto_i, stages.take(i + 1), id);
    assert(stages.take(i + 1).last() == stages[i]);
    lemma_step_advances_on_success(stages[i], contract_address, steps[i], stages[i + 1], id);
    let between = steps.subrange(i + 1, j);
    let between_stages = stages.subrange(i + 1, j + 1);
    assert forall|k: int| 0 <= k < between.len() implies step_model(
        between_stages[k],
        contract_address,
        (#[trigger] between[k]).state,
        between[k].input,
        between_stages[k + 1],
        between[k].next,
        between[k].action,
    ) by {
        assert(between[k] == steps[i + 1 + k]);
    }
    lemma_nonce_counts_successes(contract_address, between, between_stages, id);
    assert(between_stages.last() == stages[j]);
    assert(between_stages[0] == stages[i + 1]);
    lemma_step_advances_on_success(stages[j], contract_address, steps[j], stages[j + 1], id);
}

/// The call of the delivery function for a job.
fn delivery_details(contract_address: &String, job_id: Word, receiver_address: Address) -> (details:
    ContractDetails)
    ensures
        details.contract_address@ == contract_address@,
        details.function.name@ == DELIVER_FUNCTION@,
        details.function.inputs@ == deliver_inputs(),
        details.args@ == seq![Token::Uint(job_id), Token::Address(receiver_address)],
{
    let mut inputs: Vec<ParamType> = Vec::new();
    inputs.push(ParamType::Uint(256));
    inputs.push(ParamType::Address);
    assert(inputs@ =~= deliver_inputs());
    let mut args: Vec<Token> = Vec::new();
    args.push(Token::Uint(job_id));
    args.push(Token::Address(receiver_address));
    assert(args@ =~= seq![Token::Uint(job_id), Token::Address(receiver_address)]);
    ContractDetails {
        contract_address: contract_address.clone(),
        function: Function { name: DELIVER_FUNCTION.to_owned(), inputs },
        args,
    }
}

/// Steps a job: takes its state and what the driver reports, and gives the
/// next state and what the driver shall do. Only the step that reconciles
/// can change the chains, and only by committing a nonce.
pub fn step(relay: &mut Relay, state: JobState, input: JobInput) -> (r: (JobState, Action))
    requires
        old(relay).wf(),
    ensures
        final(relay).wf(),
        final(relay).processed_logs == old(relay).processed_logs,
        final(relay).contract_address == old(relay).contract_address,
        !(state is Reconciling) ==> final(relay).chains == old(relay).chains,
        step_model(
            old(relay).chains@,
            old(relay).contract_address@,
            state,
            input,
            final(relay).chains@,
            r.0,
            r.1,
        ),
{
    let unexpected = (JobState::Failed { error: JobError::UnexpectedInput }, Action::Finished);
    match state {
        JobState::Decoding => match input {
            JobInput::Log(log) => match NewJobEvent::from(&log) {
                Ok(event) => (JobState::Computing { event }, Action::Proceed),
                Err(e) => (JobState::Failed { error: JobError::Decode(e) }, Action::Finished),
            },
            _ => unexpected,
        },
        JobState::Computing { event } => match input {
            JobInput::Proceed => {
                let value_out = compute_outcome(
                    event.value_in,
                    event.coprocessor_balance,
                    event.from_chain_id,
                    event.to_chain_id,
                );
                (JobState::FetchingNonce { event, value_out }, Action::Proceed)
            },
            _ => unexpected,
        },
        JobState::FetchingNonce { event, value_out } => match input {
            JobInput::Proceed => submit_result(
                relay,
                event.job_id,
                event.to_chain_id,
                event.receiver_address,
                value_out,
            ),
            _ => unexpected,
        },
        JobState::Building { job_id, chain_id, receiver_address, value_out, nonce } => match input {
            JobInput::Fees(fees) => {
                let entry = match relay.chains.get_chain(chain_id) {
                    Ok(entry) => entry,
                    Err(_) => {
                        return (
                            JobState::Failed { error: JobError::UnknownChain },
                            Action::Finished,
                        );
                    },
                };
                let details = delivery_details(&relay.contract_address, job_id, receiver_address);
                match contract_interaction_with_value(
                    &details,
                    Some(Word::from_u64(GAS_LIMIT)),
                    &entry.rpc_services,
                    nonce,
                    fees,
                    value_out,
                ) {
                    Ok(request) => (
                        JobState::SigningSubmitting { chain_id, nonce },
                        Action::SignAndSubmit { chain_id, request },
                    ),
                    Err(e) => (JobState::Failed { error: JobError::Build(e) }, Action::Finished),
                }
            },
            JobInput::GatewayFailed => (
                JobState::Failed { error: JobError::Gateway },
                Action::Finished,
            ),
            JobInput::TimedOut => (JobState::Failed { error: JobError::Timeout }, Action::Finished),
            _ => unexpected,
        },
        JobState::SigningSubmitting { chain_id, nonce } => match input {
            JobInput::Status(status) => (
                JobState::Reconciling { chain_id, nonce, status },
                Action::Proceed,
            ),
            JobInput::GatewayFailed => (
                JobState::Failed { error: JobError::Gateway },
                Action::Finished,
            ),
            JobInput::TimedOut => (JobState::Failed { error: JobError::Timeout }, Action::Finished),
            _ => unexpected,
        },
        JobState::Reconciling { chain_id, nonce, status } => match input {
            JobInput::Proceed => (reconcile(relay, chain_id, nonce, status), Action::Finished),
            _ => unexpected,
        },
        JobState::Done { transaction_hash } => (
            JobState::Done { transaction_hash },
            Action::Finished,
        ),
        JobState::Failed { error } => (JobState::Failed { error }, Action::Finished),
    }
}

} // verus!
