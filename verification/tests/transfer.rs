use sol_wallet::confirmation::{Commitment, ConfirmationError, FailureReason, Observation};
use sol_wallet::identifiers::{Blockhash, TransactionSignature};
use sol_wallet::key::KeyMaterial;
use sol_wallet::ledger::render_record;
use sol_wallet::request::{validate, TransferRequest, ValidationError};
use sol_wallet::transfer::{
    format_failure, Action, Event, Limits, SubmissionError, TransferError, TransferFlow,
};
use solana_sdk::signer::keypair::keypair_from_seed;
use solana_sdk::signer::Signer;

const RECIPIENT: &str = "4fYNw3dojWmQ4dXtSGE9epjRGy9pFSx62YypT7avPYvA";

fn sender() -> KeyMaterial {
    let keypair = keypair_from_seed(&[3u8; 32]).unwrap();
    KeyMaterial::load(&keypair.to_bytes()).unwrap()
}

fn request() -> TransferRequest {
    validate(RECIPIENT, "2.5").unwrap()
}

fn limits() -> Limits {
    Limits { retries: 2, polls: 3 }
}

#[test]
fn a_transfer_of_two_and_a_half_units_ends_in_exactly_one_record() {
    let key = sender();
    let mut records = Vec::new();
    let (flow, action) = TransferFlow::start(&key, request(), limits());
    assert!(matches!(action, Action::FetchBlockhash));
    assert!(flow.envelope().is_none());

    let (flow, action) = flow.advance(Event::BlockhashFetched(Blockhash::from_bytes([1u8; 32])));
    assert!(matches!(action, Action::Submit));
    let envelope = flow.envelope().unwrap();
    assert_eq!(envelope.signatures().len(), 1);
    assert_eq!(envelope.instructions()[0].data, vec![2, 0, 0, 0, 0, 0xf9, 0x02, 0x95, 0, 0, 0, 0]);
    let returned = envelope.signature();

    let (flow, action) = flow.advance(Event::Submitted(returned));
    assert!(matches!(action, Action::Poll));
    assert_eq!(flow.signature(), Some(returned));

    let (flow, action) = flow.advance(Event::Polled(Observation::Landed(Commitment::Confirmed)));
    assert!(matches!(action, Action::Poll));
    assert!(!flow.is_done());

    let (flow, action) = flow.advance(Event::Polled(Observation::Landed(Commitment::Finalized)));
    if let Action::Record(record) = action {
        records.push(record);
    }
    assert!(flow.is_done());

    let (flow, action) = flow.advance(Event::Polled(Observation::Landed(Commitment::Finalized)));
    if let Action::Record(record) = action {
        records.push(record);
    }
    assert!(flow.is_done());

    assert_eq!(records.len(), 1);
    let record = records[0];
    assert_eq!(record.from, key.address());
    assert_eq!(record.to.to_text(), RECIPIENT);
    assert_eq!(record.lamports, 2_500_000_000);
    assert_eq!(record.signature, returned);
    assert!(render_record(&record).contains("Sol : 2.5,"));
}

#[test]
fn a_stale_block_reference_leads_to_a_different_envelope() {
    let key = sender();
    let (flow, _) = TransferFlow::start(&key, request(), limits());
    let stale = Blockhash::from_bytes([1u8; 32]);
    let fresh = Blockhash::from_bytes([2u8; 32]);
    let (flow, _) = flow.advance(Event::BlockhashFetched(stale));
    let first_signature = flow.envelope().unwrap().signature();
    let first_message = flow.envelope().unwrap().message().clone();

    let (flow, action) = flow.advance(Event::SubmitFailed(SubmissionError::StaleBlockhash));
    assert!(matches!(action, Action::FetchBlockhash));
    assert!(flow.envelope().is_none());
    assert_eq!(flow.retries_left(), 1);

    let (flow, action) = flow.advance(Event::BlockhashFetched(fresh));
    assert!(matches!(action, Action::Submit));
    let envelope = flow.envelope().unwrap();
    assert_eq!(envelope.recent_blockhash(), fresh);
    assert_ne!(envelope.signature(), first_signature);
    assert_ne!(envelope.message(), &first_message);
}

#[test]
fn the_stale_block_reference_is_not_taken_again() {
    let key = sender();
    let (flow, _) = TransferFlow::start(&key, request(), limits());
    let stale = Blockhash::from_bytes([1u8; 32]);
    let (flow, _) = flow.advance(Event::BlockhashFetched(stale));
    let (flow, _) = flow.advance(Event::SubmitFailed(SubmissionError::StaleBlockhash));
    let (flow, action) = flow.advance(Event::BlockhashFetched(stale));
    assert!(matches!(action, Action::FetchBlockhash));
    assert!(flow.envelope().is_none());
    assert_eq!(flow.retries_left(), 0);
    let (flow, action) = flow.advance(Event::BlockhashFetched(stale));
    assert!(matches!(
        action,
        Action::Abort(TransferError::Submission(SubmissionError::StaleBlockhash))
    ));
    assert!(flow.is_done());
}

#[test]
fn an_unreachable_node_gets_the_same_envelope_again() {
    let key = sender();
    let (flow, _) = TransferFlow::start(&key, request(), limits());
    let (flow, _) = flow.advance(Event::BlockhashFetched(Blockhash::from_bytes([1u8; 32])));
    let signature = flow.envelope().unwrap().signature();
    let (flow, action) = flow.advance(Event::SubmitFailed(SubmissionError::NetworkUnavailable));
    assert!(matches!(action, Action::Submit));
    assert_eq!(flow.envelope().unwrap().signature(), signature);
    let (flow, action) = flow.advance(Event::SubmitFailed(SubmissionError::NetworkUnavailable));
    assert!(matches!(action, Action::Submit));
    let (flow, action) = flow.advance(Event::SubmitFailed(SubmissionError::NetworkUnavailable));
    assert!(matches!(
        action,
        Action::Abort(TransferError::Submission(SubmissionError::NetworkUnavailable))
    ));
    assert!(flow.is_done());
}

#[test]
fn insufficient_funds_end_the_transfer_at_once() {
    let key = sender();
    let (flow, _) = TransferFlow::start(&key, request(), limits());
    let (flow, _) = flow.advance(Event::BlockhashFetched(Blockhash::from_bytes([1u8; 32])));
    let (flow, action) = flow.advance(Event::SubmitFailed(SubmissionError::InsufficientFunds));
    assert!(matches!(
        action,
        Action::Abort(TransferError::Submission(SubmissionError::InsufficientFunds))
    ));
    assert!(flow.is_done());
    assert_eq!(flow.retries_left(), 2);
    let (_, action) = flow.advance(Event::BlockhashFetched(Blockhash::from_bytes([2u8; 32])));
    assert!(matches!(action, Action::Idle));
}

#[test]
fn a_block_reference_that_cannot_be_fetched_costs_a_retry() {
    let key = sender();
    let (flow, _) = TransferFlow::start(&key, request(), Limits { retries: 1, polls: 1 });
    let (flow, action) = flow.advance(Event::BlockhashUnavailable);
    assert!(matches!(action, Action::FetchBlockhash));
    let (flow, action) = flow.advance(Event::BlockhashUnavailable);
    assert!(matches!(
        action,
        Action::Abort(TransferError::Submission(SubmissionError::NetworkUnavailable))
    ));
    assert!(flow.is_done());
}

#[test]
fn a_transfer_that_never_reaches_finality_times_out() {
    let key = sender();
    let (flow, _) = TransferFlow::start(&key, request(), Limits { retries: 0, polls: 2 });
    let (flow, _) = flow.advance(Event::BlockhashFetched(Blockhash::from_bytes([1u8; 32])));
    let (flow, _) = flow.advance(Event::Submitted(TransactionSignature::from_bytes([4u8; 64])));
    let (flow, action) = flow.advance(Event::Polled(Observation::Landed(Commitment::Confirmed)));
    assert!(matches!(action, Action::Poll));
    let (flow, action) = flow.advance(Event::Polled(Observation::Unreachable));
    assert!(matches!(action, Action::Poll));
    let (flow, action) = flow.advance(Event::Polled(Observation::Landed(Commitment::Confirmed)));
    assert!(matches!(action, Action::Abort(TransferError::Confirmation(ConfirmationError::TimedOut))));
    assert!(flow.is_done());
}

#[test]
fn a_failure_on_chain_is_reported_with_its_reason() {
    let key = sender();
    let (flow, _) = TransferFlow::start(&key, request(), limits());
    let (flow, _) = flow.advance(Event::BlockhashFetched(Blockhash::from_bytes([1u8; 32])));
    let (flow, _) = flow.advance(Event::Submitted(TransactionSignature::from_bytes([4u8; 64])));
    let (flow, action) =
        flow.advance(Event::Polled(Observation::Rejected(String::from("insufficient funds for rent"))));
    match action {
        Action::Abort(TransferError::Confirmation(ConfirmationError::Failed(FailureReason::OnChain(
            reason,
        )))) => assert_eq!(reason, "insufficient funds for rent"),
        other => panic!("{:?}", other),
    }
    assert!(flow.is_done());
}

#[test]
fn an_expired_transfer_is_reported_as_failed() {
    let key = sender();
    let (flow, _) = TransferFlow::start(&key, request(), limits());
    let (flow, _) = flow.advance(Event::BlockhashFetched(Blockhash::from_bytes([1u8; 32])));
    let (flow, _) = flow.advance(Event::Submitted(TransactionSignature::from_bytes([4u8; 64])));
    let (_, action) = flow.advance(Event::Polled(Observation::Absent { blockhash_valid: false }));
    assert!(matches!(
        action,
        Action::Abort(TransferError::Confirmation(ConfirmationError::Failed(FailureReason::Expired)))
    ));
}

#[test]
fn an_event_that_answers_nothing_changes_nothing() {
    let key = sender();
    let (flow, _) = TransferFlow::start(&key, request(), limits());
    let (flow, action) = flow.advance(Event::Polled(Observation::Landed(Commitment::Finalized)));
    assert!(matches!(action, Action::Idle));
    let (flow, action) = flow.advance(Event::Submitted(TransactionSignature::from_bytes([4u8; 64])));
    assert!(matches!(action, Action::Idle));
    assert!(flow.signature().is_none());
    let (flow, _) = flow.advance(Event::BlockhashFetched(Blockhash::from_bytes([1u8; 32])));
    let (flow, action) = flow.advance(Event::BlockhashFetched(Blockhash::from_bytes([2u8; 32])));
    assert!(matches!(action, Action::Idle));
    assert_eq!(flow.envelope().unwrap().recent_blockhash(), Blockhash::from_bytes([1u8; 32]));
    assert_eq!(flow.retries_left(), 2);
}

#[test]
fn the_signature_of_the_envelope_verifies_under_the_sender() {
    let keypair = keypair_from_seed(&[3u8; 32]).unwrap();
    let key = sender();
    let (flow, _) = TransferFlow::start(&key, request(), limits());
    let (flow, _) = flow.advance(Event::BlockhashFetched(Blockhash::from_bytes([1u8; 32])));
    let envelope = flow.envelope().unwrap();
    let signature = solana_sdk::signature::Signature::from(envelope.signature().to_bytes());
    assert!(signature.verify(keypair.pubkey().as_ref(), envelope.message()));
    assert_eq!(key.sign(envelope.message()), envelope.signature());
    assert_ne!(key.sign(b"other"), envelope.signature());
}

#[test]
fn a_transfer_begins_with_the_typed_lines() {
    let key = sender();
    let begun = TransferFlow::begin(&key, "4fYNw3dojWmQ4dXtSGE9epjRGy9pFSx62YypT7avPYvA\n", "2.5\n", limits());
    let (flow, action) = begun.ok().unwrap();
    assert!(matches!(action, Action::FetchBlockhash));
    assert_eq!(flow.request(), request());
    assert_eq!(flow.retries_left(), 2);
}

#[test]
fn with_a_bad_amount_nothing_is_begun() {
    let key = sender();
    let begun = TransferFlow::begin(&key, RECIPIENT, "abc\n", limits());
    assert_eq!(begun.err(), Some(ValidationError::BadAmount));
}

#[test]
fn with_a_bad_address_nothing_is_begun() {
    let key = sender();
    let begun = TransferFlow::begin(&key, "4fYNw3dojWmQ4dXtSGE9epjRGy9pFSx62YypT7avP?vA\n", "2.5\n", limits());
    assert_eq!(begun.err(), Some(ValidationError::BadAddress));
}

#[test]
fn every_error_has_its_reason_in_words() {
    assert_eq!(
        TransferError::Submission(SubmissionError::StaleBlockhash).reason(),
        "the block reference expired before the node took the transaction"
    );
    assert_eq!(
        TransferError::Submission(SubmissionError::InsufficientFunds).reason(),
        "the balance does not cover amount and fee"
    );
    assert_eq!(
        TransferError::Submission(SubmissionError::NetworkUnavailable).reason(),
        "the node could not be reached"
    );
    assert_eq!(
        TransferError::Confirmation(ConfirmationError::TimedOut).reason(),
        "the transaction did not become final in time"
    );
    assert_eq!(
        TransferError::Confirmation(ConfirmationError::Failed(FailureReason::Expired)).reason(),
        "the transaction expired without landing"
    );
    assert_eq!(
        TransferError::Confirmation(ConfirmationError::Failed(FailureReason::OnChain(String::from(
            "custom program error: 0x1"
        ))))
        .reason(),
        "the transaction failed on chain: custom program error: 0x1"
    );
}

#[test]
fn a_failure_report_names_amount_sender_and_recipient() {
    assert_eq!(format_failure("1.5", "A", "B", "why"), "Transfer of 1.5 SOL from A to B failed: why");
    let key = sender();
    let (flow, _) = TransferFlow::start(&key, request(), limits());
    let report = flow.failure_report(&TransferError::Submission(SubmissionError::InsufficientFunds));
    assert_eq!(
        report,
        format!(
            "Transfer of 2.5 SOL from {} to {} failed: the balance does not cover amount and fee",
            key.address().to_text(),
            RECIPIENT
        )
    );
}

#[test]
fn a_transfer_is_over_within_its_bound_of_steps() {
    let key = sender();
    let (mut flow, _) = TransferFlow::start(&key, request(), Limits { retries: 2, polls: 3 });
    let events = vec![
        Event::BlockhashUnavailable,
        Event::BlockhashFetched(Blockhash::from_bytes([1u8; 32])),
        Event::SubmitFailed(SubmissionError::StaleBlockhash),
        Event::BlockhashFetched(Blockhash::from_bytes([2u8; 32])),
        Event::Submitted(TransactionSignature::from_bytes([4u8; 64])),
        Event::Polled(Observation::Landed(Commitment::Processed)),
        Event::Polled(Observation::Landed(Commitment::Confirmed)),
        Event::Polled(Observation::Absent { blockhash_valid: true }),
        Event::Polled(Observation::Landed(Commitment::Confirmed)),
        Event::Polled(Observation::Landed(Commitment::Finalized)),
    ];
    let bound = 2 * 2 + 3 + 3;
    let mut steps = 0;
    for event in events {
        if flow.is_done() {
            break;
        }
        let (next, action) = flow.advance(event);
        assert!(!matches!(action, Action::Idle));
        flow = next;
        steps += 1;
    }
    assert!(flow.is_done());
    assert_eq!(steps, 9);
    assert!(steps <= bound);
}
