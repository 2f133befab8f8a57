use chain_fusion::address::Address;
use chain_fusion::event::{DecodeError, LogField, LogRecord, NewJobEvent};
use chain_fusion::job::{
    job, reconcile, step, submit_result, Action, JobError, JobInput, JobState, Relay,
    SubmissionStatus, GAS_LIMIT,
};
use chain_fusion::processed::LogSource;
use chain_fusion::rpc::RpcServices;
use chain_fusion::transaction::{BuildError, FeeEstimates, TransactionRequest};
use chain_fusion::word::Word;

const CONTRACT: &str = "0x5FbDB2315678afecb367f032d93F642f64180aa3";

fn word(x: u64) -> Word {
    Word::from_u64(x)
}

fn recipient() -> Address {
    Address {
        bytes: [
            0xaa, 0xbb, 0xcc, 0xdd, 0xee, 0xff, 0x00, 0x11, 0x22, 0x33, 0x44, 0x55, 0x66, 0x77,
            0x88, 0x99, 0xaa, 0xbb, 0xcc, 0xdd,
        ],
    }
}

fn contract() -> Address {
    Address {
        bytes: [
            0x5f, 0xbd, 0xb2, 0x31, 0x56, 0x78, 0xaf, 0xec, 0xb3, 0x67, 0xf0, 0x32, 0xd9, 0x3f,
            0x64, 0x2f, 0x64, 0x18, 0x0a, 0xa3,
        ],
    }
}

fn relay_with(contract_address: &str) -> Relay {
    let mut relay = Relay::new(contract_address.to_string());
    assert_eq!(
        relay.chains.insert_chain(word(11155111), RpcServices::EthSepolia(None), word(4)),
        Ok(())
    );
    assert_eq!(relay.chains.insert_chain(word(1), RpcServices::EthMainnet(None), word(9)), Ok(()));
    relay
}

fn relay() -> Relay {
    relay_with(CONTRACT)
}

fn log_for(chain: &str) -> LogRecord {
    LogRecord {
        address: CONTRACT.to_string(),
        topics: vec![
            "0x031ada964b8e520743eb9508d0ace62654b126430b7e5a92b42e78eebb61602e".to_string(),
            chain.to_string(),
            "0x000000000000000000000000AABBCCDDEEFF00112233445566778899AABBCCDD".to_string(),
            "0x07".to_string(),
        ],
        data: "0x2a".to_string(),
        transaction_hash: Some("0xff".to_string()),
        log_index: Some(vec![0x01, 0x00]),
    }
}

fn source(index: u64) -> LogSource {
    LogSource { source_chain_id: word(111), block_number: word(1000), log_index: word(index) }
}

fn fees() -> FeeEstimates {
    FeeEstimates { max_fee_per_gas: word(2_000_000_000), max_priority_fee_per_gas: word(1_500_000_000) }
}

fn building(nonce: u64) -> JobState {
    JobState::Building {
        job_id: word(511),
        chain_id: word(11155111),
        receiver_address: recipient(),
        value_out: word(3),
        nonce: word(nonce),
    }
}

fn delivery_request(nonce: u64) -> TransactionRequest {
    let mut data = vec![0x9d, 0x2e, 0x37, 0x5f];
    let mut job_id = [0u8; 32];
    job_id[30] = 0x01;
    job_id[31] = 0xff;
    data.extend_from_slice(&job_id);
    data.extend_from_slice(&[0u8; 12]);
    data.extend_from_slice(&recipient().bytes);
    TransactionRequest {
        to: contract(),
        gas: Some(word(5_000_000)),
        data,
        nonce: word(nonce),
        max_priority_fee_per_gas: word(1_500_000_000),
        max_fee_per_gas: word(2_000_000_000),
        chain_id: 11155111,
        value: word(3),
    }
}

fn failed(error: JobError) -> (JobState, Action) {
    (JobState::Failed { error }, Action::Finished)
}

#[test]
fn a_job_for_a_known_chain_waits_for_the_fees() {
    let mut relay = relay();
    let (state, action) = job(&mut relay, source(256), &log_for("0xaa36a7"));
    assert_eq!(state, building(4));
    assert_eq!(action, Action::EstimateFees { chain_id: word(11155111) });
    assert!(relay.processed_logs.contains(&source(256)));
    assert_eq!(relay.chains.peek_nonce(word(11155111)), Ok(word(4)));
    assert_eq!(relay.chains.peek_nonce(word(1)), Ok(word(9)));
}

#[test]
fn a_job_for_an_unknown_chain_fails_and_changes_no_chain() {
    let mut relay = relay();
    let (state, action) = job(&mut relay, source(256), &log_for("0x05"));
    assert_eq!((state, action), failed(JobError::UnknownChain));
    assert_eq!(relay.chains.peek_nonce(word(11155111)), Ok(word(4)));
    assert_eq!(relay.chains.peek_nonce(word(1)), Ok(word(9)));
    assert_eq!(relay.chains.peek_nonce(word(5)).is_err(), true);
    assert!(relay.processed_logs.contains(&source(256)));
    assert_eq!(relay.processed_logs.len(), 1);
}

#[test]
fn submit_result_fails_on_an_unknown_chain() {
    let relay = relay();
    let r = submit_result(&relay, word(511), word(5), recipient(), word(3));
    assert_eq!(r, failed(JobError::UnknownChain));
    let r = submit_result(&relay, word(511), word(1), recipient(), word(3));
    assert_eq!(
        r,
        (
            JobState::Building {
                job_id: word(511),
                chain_id: word(1),
                receiver_address: recipient(),
                value_out: word(3),
                nonce: word(9),
            },
            Action::EstimateFees { chain_id: word(1) }
        )
    );
}

#[test]
fn a_job_with_a_malformed_log_fails_and_is_still_recorded() {
    let mut relay = relay();
    let mut log = log_for("0xaa36a7");
    log.topics.truncate(2);
    let (state, action) = job(&mut relay, source(7), &log);
    assert_eq!(
        (state, action),
        failed(JobError::Decode(DecodeError::Missing(LogField::Recipient)))
    );
    assert!(relay.processed_logs.contains(&source(7)));
    assert_eq!(relay.chains.peek_nonce(word(11155111)), Ok(word(4)));
}

#[test]
fn a_replayed_job_is_seen_in_the_record() {
    let mut relay = relay();
    assert!(!relay.processed_logs.contains(&source(256)));
    let first = job(&mut relay, source(256), &log_for("0xaa36a7"));
    assert!(relay.processed_logs.contains(&source(256)));
    let second = job(&mut relay, source(256), &log_for("0xaa36a7"));
    assert_eq!(first, second);
    assert_eq!(relay.processed_logs.len(), 1);
}

#[test]
fn stepping_from_the_log_reaches_the_same_state_as_job() {
    let mut relay = relay();
    let (state, action) = step(&mut relay, JobState::Decoding, JobInput::Log(log_for("0xaa36a7")));
    let event = NewJobEvent::from(&log_for("0xaa36a7")).unwrap();
    assert_eq!(state, JobState::Computing { event });
    assert_eq!(action, Action::Proceed);
    let (state, action) = step(&mut relay, state, JobInput::Proceed);
    assert_eq!(state, JobState::FetchingNonce { event, value_out: word(3) });
    assert_eq!(action, Action::Proceed);
    let (state, action) = step(&mut relay, state, JobInput::Proceed);
    assert_eq!(state, building(4));
    assert_eq!(action, Action::EstimateFees { chain_id: word(11155111) });
    assert_eq!(relay.processed_logs.len(), 0);
}

#[test]
fn stepping_a_bad_log_fails_the_job() {
    let mut relay = relay();
    let mut log = log_for("0xaa36a7");
    log.data = "0xnope".to_string();
    let r = step(&mut relay, JobState::Decoding, JobInput::Log(log));
    assert_eq!(
        r,
        failed(JobError::Decode(DecodeError::MalformedHex(LogField::AuxiliaryBalance)))
    );
}

#[test]
fn fees_lead_to_the_signed_delivery() {
    let mut relay = relay();
    let (state, action) = step(&mut relay, building(4), JobInput::Fees(fees()));
    assert_eq!(state, JobState::SigningSubmitting { chain_id: word(11155111), nonce: word(4) });
    assert_eq!(
        action,
        Action::SignAndSubmit { chain_id: word(11155111), request: delivery_request(4) }
    );
    assert_eq!(GAS_LIMIT, 5_000_000);
    assert_eq!(relay.chains.peek_nonce(word(11155111)), Ok(word(4)));
}

#[test]
fn a_malformed_contract_address_fails_the_job_when_building() {
    let mut relay = relay_with("0x1234");
    let r = step(&mut relay, building(4), JobInput::Fees(fees()));
    assert_eq!(r, failed(JobError::Build(BuildError::MalformedAddress)));
    assert_eq!(relay.chains.peek_nonce(word(11155111)), Ok(word(4)));
}

#[test]
fn building_for_a_chain_that_is_not_there_fails() {
    let mut relay = Relay::new(CONTRACT.to_string());
    let r = step(&mut relay, building(4), JobInput::Fees(fees()));
    assert_eq!(r, failed(JobError::UnknownChain));
}

#[test]
fn a_sent_transaction_advances_the_nonce_by_one() {
    let mut relay = relay();
    let waiting = JobState::SigningSubmitting { chain_id: word(11155111), nonce: word(4) };
    let status = SubmissionStatus::Sent(Some("0xabc".to_string()));
    let (state, action) = step(&mut relay, waiting, JobInput::Status(status.clone()));
    assert_eq!(
        state,
        JobState::Reconciling { chain_id: word(11155111), nonce: word(4), status }
    );
    assert_eq!(action, Action::Proceed);
    assert_eq!(relay.chains.peek_nonce(word(11155111)), Ok(word(4)));
    let (state, action) = step(&mut relay, state, JobInput::Proceed);
    assert_eq!(state, JobState::Done { transaction_hash: Some("0xabc".to_string()) });
    assert_eq!(action, Action::Finished);
    assert_eq!(relay.chains.peek_nonce(word(11155111)), Ok(word(5)));
    assert_eq!(relay.chains.peek_nonce(word(1)), Ok(word(9)));
}

#[test]
fn a_sent_transaction_without_hash_is_done_too() {
    let mut relay = relay();
    let state = reconcile(&mut relay, word(1), word(9), SubmissionStatus::Sent(None));
    assert_eq!(state, JobState::Done { transaction_hash: None });
    assert_eq!(relay.chains.peek_nonce(word(1)), Ok(word(10)));
    assert_eq!(relay.chains.peek_nonce(word(11155111)), Ok(word(4)));
}

#[test]
fn nonce_too_low_fails_the_job_and_keeps_the_nonce() {
    let mut relay = relay();
    let waiting = JobState::SigningSubmitting { chain_id: word(11155111), nonce: word(4) };
    let (state, _) = step(&mut relay, waiting, JobInput::Status(SubmissionStatus::NonceTooLow));
    let r = step(&mut relay, state, JobInput::Proceed);
    assert_eq!(r, failed(JobError::NonceConflict));
    assert_eq!(relay.chains.peek_nonce(word(11155111)), Ok(word(4)));
}

#[test]
fn nonce_too_high_fails_the_job_and_keeps_the_nonce() {
    let mut relay = relay();
    let state = reconcile(&mut relay, word(11155111), word(4), SubmissionStatus::NonceTooHigh);
    assert_eq!(state, JobState::Failed { error: JobError::NonceConflict });
    assert_eq!(relay.chains.peek_nonce(word(11155111)), Ok(word(4)));
}

#[test]
fn insufficient_funds_fail_the_job_and_keep_the_nonce() {
    let mut relay = relay();
    let state =
        reconcile(&mut relay, word(11155111), word(4), SubmissionStatus::InsufficientFunds);
    assert_eq!(state, JobState::Failed { error: JobError::InsufficientFunds });
    assert_eq!(relay.chains.peek_nonce(word(11155111)), Ok(word(4)));
}

#[test]
fn of_two_jobs_with_one_nonce_only_one_commits() {
    let mut relay = relay();
    let (first, _) = job(&mut relay, source(1), &log_for("0xaa36a7"));
    let (second, _) = job(&mut relay, source(2), &log_for("0xaa36a7"));
    assert_eq!(first, building(4));
    assert_eq!(second, building(4));
    let (first, _) = step(&mut relay, first, JobInput::Fees(fees()));
    let (second, _) = step(&mut relay, second, JobInput::Fees(fees()));
    let sent = SubmissionStatus::Sent(Some("0x01".to_string()));
    let (first, _) = step(&mut relay, first, JobInput::Status(sent.clone()));
    let (second, _) = step(&mut relay, second, JobInput::Status(sent));
    let (first, _) = step(&mut relay, first, JobInput::Proceed);
    let (second, _) = step(&mut relay, second, JobInput::Proceed);
    assert_eq!(first, JobState::Done { transaction_hash: Some("0x01".to_string()) });
    assert_eq!(second, JobState::Failed { error: JobError::NonceConflict });
    assert_eq!(relay.chains.peek_nonce(word(11155111)), Ok(word(5)));
}

#[test]
fn jobs_one_after_another_use_successive_nonces() {
    let mut relay = relay();
    for n in 0..3u64 {
        let (state, _) = job(&mut relay, source(n), &log_for("0xaa36a7"));
        assert_eq!(state, building(4 + n));
        let (state, action) = step(&mut relay, state, JobInput::Fees(fees()));
        assert_eq!(
            action,
            Action::SignAndSubmit { chain_id: word(11155111), request: delivery_request(4 + n) }
        );
        let (state, _) =
            step(&mut relay, state, JobInput::Status(SubmissionStatus::Sent(None)));
        let (state, _) = step(&mut relay, state, JobInput::Proceed);
        assert_eq!(state, JobState::Done { transaction_hash: None });
    }
    assert_eq!(relay.chains.peek_nonce(word(11155111)), Ok(word(7)));
    assert_eq!(relay.chains.peek_nonce(word(1)), Ok(word(9)));
    assert_eq!(relay.processed_logs.len(), 3);
}

#[test]
fn gateway_failures_end_a_waiting_job() {
    let mut relay = relay();
    let waiting = JobState::SigningSubmitting { chain_id: word(11155111), nonce: word(4) };
    assert_eq!(step(&mut relay, building(4), JobInput::GatewayFailed), failed(JobError::Gateway));
    assert_eq!(step(&mut relay, building(4), JobInput::TimedOut), failed(JobError::Timeout));
    assert_eq!(
        step(&mut relay, waiting.clone(), JobInput::GatewayFailed),
        failed(JobError::Gateway)
    );
    assert_eq!(step(&mut relay, waiting, JobInput::TimedOut), failed(JobError::Timeout));
    assert_eq!(relay.chains.peek_nonce(word(11155111)), Ok(word(4)));
}

#[test]
fn a_report_that_was_not_awaited_fails_the_job() {
    let mut relay = relay();
    let waiting = JobState::SigningSubmitting { chain_id: word(11155111), nonce: word(4) };
    let reconciling = JobState::Reconciling {
        chain_id: word(11155111),
        nonce: word(4),
        status: SubmissionStatus::Sent(None),
    };
    assert_eq!(
        step(&mut relay, JobState::Decoding, JobInput::Proceed),
        failed(JobError::UnexpectedInput)
    );
    assert_eq!(
        step(&mut relay, building(4), JobInput::Status(SubmissionStatus::Sent(None))),
        failed(JobError::UnexpectedInput)
    );
    assert_eq!(
        step(&mut relay, waiting, JobInput::Fees(fees())),
        failed(JobError::UnexpectedInput)
    );
    assert_eq!(
        step(&mut relay, reconciling, JobInput::GatewayFailed),
        failed(JobError::UnexpectedInput)
    );
    assert_eq!(relay.chains.peek_nonce(word(11155111)), Ok(word(4)));
}

#[test]
fn a_job_that_is_over_stays_as_it_is() {
    let mut relay = relay();
    let done = JobState::Done { transaction_hash: Some("0x01".to_string()) };
    assert_eq!(
        step(&mut relay, done.clone(), JobInput::Fees(fees())),
        (done, Action::Finished)
    );
    let over = JobState::Failed { error: JobError::InsufficientFunds };
    assert_eq!(step(&mut relay, over.clone(), JobInput::Proceed), (over, Action::Finished));
}

#[test]
fn interleaved_jobs_advance_each_chain_by_its_successes() {
    let mut relay = relay();
    let (a, _) = job(&mut relay, source(1), &log_for("0xaa36a7"));
    let (b, _) = job(&mut relay, source(2), &log_for("0x01"));
    let (c, _) = job(&mut relay, source(3), &log_for("0xaa36a7"));
    let (b, _) = step(&mut relay, b, JobInput::Fees(fees()));
    let (a, _) = step(&mut relay, a, JobInput::Fees(fees()));
    let (c, _) = step(&mut relay, c, JobInput::TimedOut);
    assert_eq!(c, JobState::Failed { error: JobError::Timeout });
    let (a, _) = step(&mut relay, a, JobInput::Status(SubmissionStatus::Sent(None)));
    let (b, _) = step(&mut relay, b, JobInput::Status(SubmissionStatus::InsufficientFunds));
    let (b, _) = step(&mut relay, b, JobInput::Proceed);
    let (a, _) = step(&mut relay, a, JobInput::Proceed);
    assert_eq!(a, JobState::Done { transaction_hash: None });
    assert_eq!(b, JobState::Failed { error: JobError::InsufficientFunds });
    let (d, _) = job(&mut relay, source(4), &log_for("0xaa36a7"));
    assert_eq!(d, building(5));
    let (d, _) = step(&mut relay, d, JobInput::Fees(fees()));
    let (d, _) = step(&mut relay, d, JobInput::Status(SubmissionStatus::Sent(None)));
    let (d, _) = step(&mut relay, d, JobInput::Proceed);
    assert_eq!(d, JobState::Done { transaction_hash: None });
    assert_eq!(relay.chains.peek_nonce(word(11155111)), Ok(word(4 + 2)));
    assert_eq!(relay.chains.peek_nonce(word(1)), Ok(word(9)));
    assert_eq!(relay.processed_logs.len(), 4);
}
