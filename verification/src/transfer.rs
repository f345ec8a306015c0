//! One transfer from request to record: fetch a block reference, build and
//! sign, submit, wait for finality.
//!
//! The flow decides and the caller acts: each call of `advance` takes what
//! the network answered and returns what to do next.

use crate::amount::{amount_text, format_amount};
use crate::confirmation::{
    step, Commitment, ConfirmationError, ConfirmationLoop, ConfirmationState, FailureReason,
    Observation,
};
use crate::envelope::{
    build_and_sign, lemma_transfer_has_one_signer, signed_transfer, TransactionEnvelope,
    TransactionEnvelopeView, REQUIRED_SIGNERS,
};
use crate::identifiers::{pubkey_text, Blockhash, TransactionSignature};
use crate::key::KeyMaterial;
use crate::ledger::{TransferRecord, TransferRecordView};
use crate::request::{
    validate_input, validation, TransferRequest, TransferRequestView, ValidationError,
};
use crate::text::trimmed;
use vstd::prelude::*;
use vstd::string::StringExecFns;

verus! {

/// Why the node did not take a submission.
#[derive(Clone, Copy, Debug, PartialEq, Eq, Structural)]
pub enum SubmissionError {
    /// The block reference of the envelope is no longer valid.
    StaleBlockhash,
    /// The sender cannot pay amount and fee.
    InsufficientFunds,
    /// The node could not be reached.
    NetworkUnavailable,
}

/// Why a transfer was given up.
#[derive(Debug)]
pub enum TransferError {
    Submission(SubmissionError),
    Confirmation(ConfirmationError),
}

impl TransferError {
    /// Why the transfer was given up, in words. An on-chain failure is
    /// reported with the reason that the node gave.
    pub open spec fn spec_reason(self) -> Seq<char> {
        match self {
            TransferError::Submission(SubmissionError::StaleBlockhash) =>
                "the block reference expired before the node took the transaction"@,
            TransferError::Submission(SubmissionError::InsufficientFunds) =>
                "the balance does not cover amount and fee"@,
            TransferError::Submission(SubmissionError::NetworkUnavailable) =>
                "the node could not be reached"@,
            TransferError::Confirmation(ConfirmationError::TimedOut) =>
                "the transaction did not become final in time"@,
            TransferError::Confirmation(ConfirmationError::Failed(FailureReason::Expired)) =>
                "the transaction expired without landing"@,
            TransferError::Confirmation(
                ConfirmationError::Failed(FailureReason::OnChain(reason)),
            ) => "the transaction failed on chain: "@ + reason@,
        }
    }

    /// Why the transfer was given up, in words.
    pub fn reason(&self) -> (text: String)
        ensures
            text@ == self.spec_reason(),
    {
        match self {
            TransferError::Submission(SubmissionError::StaleBlockhash) => String::from_str(
                "the block reference expired before the node took the transaction",
            ),
            TransferError::Submission(SubmissionError::InsufficientFunds) => String::from_str(
                "the balance does not cover amount and fee",
            ),
            TransferError::Submission(SubmissionError::NetworkUnavailable) => String::from_str(
                "the node could not be reached",
            ),
            TransferError::Confirmation(ConfirmationError::TimedOut) => String::from_str(
                "the transaction did not become final in time",
            ),
            TransferError::Confirmation(
                ConfirmationError::Failed(FailureReason::Expired),
            ) => String::from_str("the transaction expired without landing"),
            TransferError::Confirmation(
                ConfirmationError::Failed(FailureReason::OnChain(reason)),
            ) => {
                let mut text = String::from_str("the transaction failed on chain: ");
                text.append(reason.as_str());
                text
            },
        }
    }
}

/// The line that reports a failed transfer: it names the amount in display
/// units, the sender, the recipient, and the reason.
pub open spec fn failure_text(
    amount: Seq<char>,
    from: Seq<char>,
    to: Seq<char>,
    reason: Seq<char>,
) -> Seq<char> {
    "Transfer of "@ + amount + " SOL from "@ + from + " to "@ + to + " failed: "@ + reason
}

/// Writes the line that reports a failed transfer.
pub fn format_failure(amount: &str, from: &str, to: &str, reason: &str) -> (text: String)
    ensures
        text@ == failure_text(amount@, from@, to@, reason@),
{
    let mut text = String::from_str("Transfer of ");
    text.append(amount);
    text.append(" SOL from ");
    text.append(from);
    text.append(" to ");
    text.append(to);
    text.append(" failed: ");
    text.append(reason);
    text
}

/// What the network answered to the last action.
#[derive(Debug)]
pub enum Event {
    /// The node handed out a block reference.
    BlockhashFetched(Blockhash),
    /// The node could not be asked for a block reference.
    BlockhashUnavailable,
    /// The node took the envelope and returned its signature.
    Submitted(TransactionSignature),
    /// The node did not take the envelope.
    SubmitFailed(SubmissionError),
    /// A poll for the status of the transaction showed this.
    Polled(Observation),
}

/// What the caller does next.
#[derive(Debug)]
pub enum Action {
    /// Ask the node for a fresh block reference.
    FetchBlockhash,
    /// Submit the envelope that the flow holds.
    Submit,
    /// Wait, then poll for the status of the submitted transaction.
    Poll,
    /// The transfer is final: append this record to the log.
    Record(TransferRecord),
    /// The transfer is given up: report this error.
    Abort(TransferError),
    /// Nothing: the flow is over, or the event answers no action of it.
    Idle,
}

/// The mathematical content of an `Action`.
pub enum ActionView {
    FetchBlockhash,
    Submit,
    Poll,
    Record(TransferRecordView),
    Abort(TransferError),
    Idle,
}

impl View for Action {
    type V = ActionView;

    open spec fn view(&self) -> ActionView {
        match *self {
            Action::FetchBlockhash => ActionView::FetchBlockhash,
            Action::Submit => ActionView::Submit,
            Action::Poll => ActionView::Poll,
            Action::Record(record) => ActionView::Record(record@),
            Action::Abort(error) => ActionView::Abort(error),
            Action::Idle => ActionView::Idle,
        }
    }
}

/// How often a flow may try again, and how long it may wait.
#[derive(Clone, Copy, Debug, PartialEq, Eq)]
pub struct Limits {
    /// Recoverable failures (stale block reference, unreachable node) that
    /// the flow answers by trying again.
    pub retries: u32,
    /// Inconclusive polls that the flow sits through after a submission.
    pub polls: u32,
}

/// Where a flow stands, with what it holds at that point.
pub enum StageView {
    /// Waiting for a block reference. `stale` is the one that the node has
    /// just refused as expired, if any.
    AwaitingBlockhash { stale: Option<Seq<u8>> },
    /// An envelope is built and on its way to the node.
    AwaitingSubmission { envelope: TransactionEnvelopeView },
    /// The node took the envelope, which was bound to `blockhash`, and
    /// returned `signature`; the flow waits for finality.
    Confirming { signature: Seq<u8>, blockhash: Seq<u8>, state: ConfirmationState, polls_left: nat },
    /// Over: recorded or given up.
    Done,
}

/// The mathematical content of a `TransferFlow`.
pub struct TransferFlowView {
    pub key: Seq<u8>,
    pub request: TransferRequestView,
    pub retries_left: nat,
    pub max_polls: nat,
    pub stage: StageView,
}

impl TransferFlowView {
    /// What holds of every flow: an envelope on its way is the signed
    /// transfer of the request, and a flow that still polls has not seen a
    /// final state.
    pub open spec fn well_formed(self) -> bool {
        match self.stage {
            StageView::AwaitingSubmission { envelope } => envelope == signed_transfer(
                self.key,
                self.request,
                envelope.recent_blockhash,
            ),
            StageView::Confirming { state, .. } => !state.is_settled(),
            _ => true,
        }
    }

    /// The flow gives up.
    pub open spec fn abort(self, error: TransferError) -> (TransferFlowView, ActionView) {
        (TransferFlowView { stage: StageView::Done, ..self }, ActionView::Abort(error))
    }

    /// The record of the transfer, once `signature` is final.
    pub open spec fn record(self, signature: Seq<u8>) -> TransferRecordView {
        TransferRecordView {
            from: self.key.subrange(32, 64),
            to: self.request.recipient,
            lamports: self.request.lamports,
            signature,
        }
    }

    /// An upper bound on the events that the flow can still take before it
    /// is over.
    pub open spec fn remaining_steps(self) -> nat {
        match self.stage {
            StageView::AwaitingBlockhash { .. } => 2 * self.retries_left + self.max_polls + 3,
            StageView::AwaitingSubmission { .. } => 2 * self.retries_left + self.max_polls + 2,
            StageView::Confirming { polls_left, .. } => polls_left + 1,
            StageView::Done => 0,
        }
    }
}

/// A flow at its start: nothing built, nothing sent.
pub open spec fn initial(key: Seq<u8>, request: TransferRequestView, limits: Limits) -> (
    TransferFlowView,
    ActionView,
) {
    (
        TransferFlowView {
            key,
            request,
            retries_left: limits.retries as nat,
            max_polls: limits.polls as nat,
            stage: StageView::AwaitingBlockhash { stale: None },
        },
        ActionView::FetchBlockhash,
    )
}

/// The flow after an event, and the action it asks for.
///
/// - A block reference that is not the stale one is built into a signed
///   envelope, which is submitted. The stale one again, or none, costs a
///   retry.
/// - A submission that was taken starts the polling. A stale block reference
///   drops the envelope and costs a retry; the flow asks for a fresh block
///   reference. An unreachable node costs a retry; the same envelope is
///   submitted again. Insufficient funds end the flow.
/// - A poll goes through the confirmation loop: finality yields the record,
///   a failure or a spent budget ends the flow, anything else polls again.
/// - With no retry left, a recoverable failure ends the flow with its error.
/// - An event that answers no action of the stage changes nothing.
pub open spec fn next(flow: TransferFlowView, event: Event) -> (TransferFlowView, ActionView) {
    match flow.stage {
        StageView::AwaitingBlockhash { stale } => match event {
            Event::BlockhashFetched(blockhash) => if stale == Some(blockhash@) {
                if flow.retries_left == 0 {
                    flow.abort(TransferError::Submission(SubmissionError::StaleBlockhash))
                } else {
                    (
                        TransferFlowView { retries_left: (flow.retries_left - 1) as nat, ..flow },
                        ActionView::FetchBlockhash,
                    )
                }
            } else {
                (
                    TransferFlowView {
                        stage: StageView::AwaitingSubmission {
                            envelope: signed_transfer(flow.key, flow.request, blockhash@),
                        },
                        ..flow
                    },
                    ActionView::Submit,
                )
            },
            Event::BlockhashUnavailable => if flow.retries_left == 0 {
                flow.abort(TransferError::Submission(SubmissionError::NetworkUnavailable))
            } else {
                (
                    TransferFlowView { retries_left: (flow.retries_left - 1) as nat, ..flow },
                    ActionView::FetchBlockhash,
                )
            },
            _ => (flow, ActionView::Idle),
        },
        StageView::AwaitingSubmission { envelope } => match event {
            Event::Submitted(signature) => (
                TransferFlowView {
                    stage: StageView::Confirming {
                        signature: signature@,
                        blockhash: envelope.recent_blockhash,
                        state: ConfirmationState::Unknown,
                        polls_left: flow.max_polls,
                    },
                    ..flow
                },
                ActionView::Poll,
            ),
            Event::SubmitFailed(SubmissionError::InsufficientFunds) => flow.abort(
                TransferError::Submission(SubmissionError::InsufficientFunds),
            ),
            Event::SubmitFailed(error) => if flow.retries_left == 0 {
                flow.abort(TransferError::Submission(error))
            } else if error == SubmissionError::StaleBlockhash {
                (
                    TransferFlowView {
                        retries_left: (flow.retries_left - 1) as nat,
                        stage: StageView::AwaitingBlockhash {
                            stale: Some(envelope.recent_blockhash),
                        },
                        ..flow
                    },
                    ActionView::FetchBlockhash,
                )
            } else {
                (
                    TransferFlowView { retries_left: (flow.retries_left - 1) as nat, ..flow },
                    ActionView::Submit,
                )
            },
            _ => (flow, ActionView::Idle),
        },
        StageView::Confirming { signature, blockhash, state, polls_left } => match event {
            Event::Polled(observation) => {
                let after = step(state, polls_left, observation);
                match after.0.outcome() {
                    None => (
                        TransferFlowView {
                            stage: StageView::Confirming {
                                signature,
                                blockhash,
                                state: after.0,
                                polls_left: after.1,
                            },
                            ..flow
                        },
                        ActionView::Poll,
                    ),
                    Some(Ok(_)) => (
                        TransferFlowView { stage: StageView::Done, ..flow },
                        ActionView::Record(flow.record(signature)),
                    ),
                    Some(Err(error)) => flow.abort(TransferError::Confirmation(error)),
                }
            },
            _ => (flow, ActionView::Idle),
        },
        StageView::Done => (flow, ActionView::Idle),
    }
}

/// Every step keeps a flow well formed.
pub proof fn lemma_next_well_formed(flow: TransferFlowView, event: Event)
    requires
        flow.well_formed(),
    ensures
        next(flow, event).0.well_formed(),
{
}

/// Whenever the flow asks for a submission, it holds an envelope with as
/// many signatures as the transaction has required signers: one.
pub proof fn law_submitted_envelope_is_signed(flow: TransferFlowView, event: Event)
    requires
        flow.well_formed(),
        next(flow, event).1 is Submit,
    ensures
        next(flow, event).0.stage is AwaitingSubmission,
        ({
            let envelope = next(flow, event).0.stage->envelope;
            &&& envelope.signatures.len() == envelope.required_signers().len()
            &&& envelope.signatures.len() == REQUIRED_SIGNERS
        }),
{
    lemma_next_well_formed(flow, event);
    let envelope = next(flow, event).0.stage->envelope;
    lemma_transfer_has_one_signer(flow.key, flow.request, envelope.recent_blockhash);
}

/// A transfer is recorded only on a poll that observed it finalized, and
/// the record names the sender, the recipient and the amount of the request
/// and the signature that the node returned.
pub proof fn law_record_needs_finality(flow: TransferFlowView, event: Event)
    requires
        flow.well_formed(),
        next(flow, event).1 is Record,
    ensures
        event == Event::Polled(Observation::Landed(Commitment::Finalized)),
        flow.stage is Confirming,
        next(flow, event).1 == ActionView::Record(flow.record(flow.stage->signature)),
        next(flow, event).0.stage is Done,
{
}

/// After the node has refused an envelope for its stale block reference,
/// that envelope is gone: the flow asks for a fresh block reference or gives
/// up, and the next envelope it submits is bound to a different block
/// reference, so it is a different envelope.
pub proof fn law_stale_envelope_is_rebuilt(flow: TransferFlowView, fresh: Blockhash)
    requires
        flow.well_formed(),
        flow.stage is AwaitingSubmission,
    ensures
        ({
            let refused = flow.stage->envelope;
            let after = next(flow, Event::SubmitFailed(SubmissionError::StaleBlockhash));
            let again = next(after.0, Event::BlockhashFetched(fresh));
            &&& after.1 is FetchBlockhash || after.1 is Abort
            &&& !(after.0.stage is AwaitingSubmission)
            &&& again.1 is Submit ==> {
                &&& again.0.stage is AwaitingSubmission
                &&& again.0.stage->envelope.recent_blockhash == fresh@
                &&& again.0.stage->envelope.recent_blockhash != refused.recent_blockhash
                &&& again.0.stage->envelope != refused
            }
        }),
{
}

/// Every transfer ends: each event that the flow acts on brings it closer to
/// its end, and a flow started with given limits is over after at most
/// `2 * retries + polls + 3` of them.
pub proof fn law_flow_is_bounded(flow: TransferFlowView, event: Event)
    requires
        flow.well_formed(),
        !(next(flow, event).1 is Idle),
    ensures
        next(flow, event).0.remaining_steps() < flow.remaining_steps(),
        next(flow, event).0.remaining_steps() == 0 <==> next(flow, event).0.stage is Done,
{
}

/// When the node could not be reached, the retry submits the very envelope
/// that was on its way: same message, same signature. Submitting it twice is
/// submitting one transaction.
pub proof fn law_unreachable_node_keeps_envelope(flow: TransferFlowView)
    requires
        flow.stage is AwaitingSubmission,
    ensures
        ({
            let after = next(flow, Event::SubmitFailed(SubmissionError::NetworkUnavailable));
            &&& after.1 is Submit || after.1 is Abort
            &&& after.1 is Submit <==> flow.retries_left > 0
            &&& after.1 is Submit ==> after.0.stage == flow.stage
        }),
{
}

/// After the node has refused an envelope for lack of funds, nothing more is
/// sent: the flow is over.
pub proof fn law_insufficient_funds_is_final(flow: TransferFlowView, later: Event)
    requires
        flow.stage is AwaitingSubmission,
    ensures
        ({
            let after = next(flow, Event::SubmitFailed(SubmissionError::InsufficientFunds));
            &&& after.1 == ActionView::Abort(
                TransferError::Submission(SubmissionError::InsufficientFunds),
            )
            &&& after.0.stage is Done
            &&& next(after.0, later) == (after.0, ActionView::Idle)
        }),
{
}

/// Where a flow stands, with what it holds at that point.
#[derive(Debug)]
enum Stage {
    AwaitingBlockhash { stale: Option<Blockhash> },
    AwaitingSubmission { envelope: TransactionEnvelope },
    Confirming { signature: TransactionSignature, blockhash: Blockhash, watch: ConfirmationLoop },
    Done,
}

impl View for Stage {
    type V = StageView;

    closed spec fn view(&self) -> StageView {
        match *self {
            Stage::AwaitingBlockhash { stale } => StageView::AwaitingBlockhash {
                stale: match stale {
                    Some(blockhash) => Some(blockhash@),
                    None => None,
                },
            },
            Stage::AwaitingSubmission { envelope } => StageView::AwaitingSubmission {
                envelope: envelope@,
            },
            Stage::Confirming { signature, blockhash, watch } => StageView::Confirming {
                signature: signature@,
                blockhash: blockhash@,
                state: watch.spec_state(),
                polls_left: watch.spec_polls_left(),
            },
            Stage::Done => StageView::Done,
        }
    }
}

/// One transfer in flight, for one sender and one request.
pub struct TransferFlow<'a> {
    sender: &'a KeyMaterial,
    request: TransferRequest,
    retries_left: u32,
    max_polls: u32,
    stage: Stage,
}

impl<'a> View for TransferFlow<'a> {
    type V = TransferFlowView;

    closed spec fn view(&self) -> TransferFlowView {
        TransferFlowView {
            key: self.sender@,
            request: self.request@,
            retries_left: self.retries_left as nat,
            max_polls: self.max_polls as nat,
            stage: self.stage@,
        }
    }
}

impl<'a> TransferFlow<'a> {
    #[verifier::type_invariant]
    spec fn well_formed(self) -> bool {
        self@.well_formed()
    }

    /// Starts the transfer that `request` asks for. The first thing to do is
    /// to fetch a block reference.
    pub fn start(sender: &'a KeyMaterial, request: TransferRequest, limits: Limits) -> (begun: (
        TransferFlow<'a>,
        Action,
    ))
        ensures
            (begun.0@, begun.1@) == initial(sender@, request@, limits),
    {
        (
            TransferFlow {
                sender,
                request,
                retries_left: limits.retries,
                max_polls: limits.polls,
                stage: Stage::AwaitingBlockhash { stale: None },
            },
            Action::FetchBlockhash,
        )
    }

    /// Checks the two lines that the operator typed and, if they are in
    /// order, starts the transfer. With a line that is not in order there is
    /// no flow and nothing to do but to report the error: nothing is built,
    /// nothing is sent.
    pub fn begin(
        sender: &'a KeyMaterial,
        recipient_line: &str,
        amount_line: &str,
        limits: Limits,
    ) -> (r: Result<(TransferFlow<'a>, Action), ValidationError>)
        ensures
            match r {
                Ok(begun) => validation(trimmed(recipient_line@), trimmed(amount_line@))
                    matches Ok(request) && (begun.0@, begun.1@) == initial(
                    sender@,
                    request,
                    limits,
                ),
                Err(e) => validation(trimmed(recipient_line@), trimmed(amount_line@)) == Err::<
                    TransferRequestView,
                    ValidationError,
                >(e),
            },
    {
        match validate_input(recipient_line, amount_line) {
            Ok(request) => Ok(TransferFlow::start(sender, request, limits)),
            Err(e) => Err(e),
        }
    }

    /// The line that tells the operator that this transfer failed with
    /// `error`: it names the amount, the sender and the recipient.
    pub fn failure_report(&self, error: &TransferError) -> (text: String)
        ensures
            text@ == failure_text(
                amount_text(self@.request.lamports),
                pubkey_text(self@.key.subrange(32, 64)),
                pubkey_text(self@.request.recipient),
                error.spec_reason(),
            ),
    {
        format_failure(
            format_amount(self.request.lamports()).as_str(),
            self.sender.address().to_text().as_str(),
            self.request.recipient().to_text().as_str(),
            error.reason().as_str(),
        )
    }

    /// The request that the flow carries out.
    pub fn request(&self) -> (request: TransferRequest)
        ensures
            request@ == self@.request,
    {
        self.request
    }

    /// Takes in what the network answered and returns the flow after it,
    /// with the next thing to do.
    pub fn advance(self, event: Event) -> (after: (TransferFlow<'a>, Action))
        ensures
            (after.0@, after.1@) == next(self@, event),
            after.0@.well_formed(),
            after.1@ is Record ==> event == Event::Polled(
                Observation::Landed(Commitment::Finalized),
            ),
    {
        proof {
            use_type_invariant(&self);
            lemma_next_well_formed(self@, event);
            if next(self@, event).1 is Record {
                law_record_needs_finality(self@, event);
            }
        }
        let TransferFlow { sender, request, retries_left, max_polls, stage } = self;
        match stage {
            Stage::AwaitingBlockhash { stale } => match event {
                Event::BlockhashFetched(blockhash) => {
                    let same: bool = match stale {
                        Some(refused) => refused.equals(&blockhash),
                        None => false,
                    };
                    if same {
                        if retries_left == 0 {
                            (
                                TransferFlow {
                                    sender,
                                    request,
                                    retries_left,
                                    max_polls,
                                    stage: Stage::Done,
                                },
                                Action::Abort(
                                    TransferError::Submission(SubmissionError::StaleBlockhash),
                                ),
                            )
                        } else {
                            (
                                TransferFlow {
                                    sender,
                                    request,
                                    retries_left: retries_left - 1,
                                    max_polls,
                                    stage: Stage::AwaitingBlockhash { stale },
                                },
                                Action::FetchBlockhash,
                            )
                        }
                    } else {
                        let envelope = build_and_sign(sender, &request, blockhash);
                        (
                            TransferFlow {
                                sender,
                                request,
                                retries_left,
                                max_polls,
                                stage: Stage::AwaitingSubmission { envelope },
                            },
                            Action::Submit,
                        )
                    }
                },
                Event::BlockhashUnavailable => {
                    if retries_left == 0 {
                        (
                            TransferFlow {
                                sender,
                                request,
                                retries_left,
                                max_polls,
                                stage: Stage::Done,
                            },
                            Action::Abort(
                                TransferError::Submission(SubmissionError::NetworkUnavailable),
                            ),
                        )
                    } else {
                        (
                            TransferFlow {
                                sender,
                                request,
                                retries_left: retries_left - 1,
                                max_polls,
                                stage: Stage::AwaitingBlockhash { stale },
                            },
                            Action::FetchBlockhash,
                        )
                    }
                },
                _ => (
                    TransferFlow {
                        sender,
                        request,
                        retries_left,
                        max_polls,
                        stage: Stage::AwaitingBlockhash { stale },
                    },
                    Action::Idle,
                ),
            },
            Stage::AwaitingSubmission { envelope } => match event {
                Event::Submitted(signature) => (
                    TransferFlow {
                        sender,
                        request,
                        retries_left,
                        max_polls,
                        stage: Stage::Confirming {
                            signature,
                            blockhash: envelope.recent_blockhash(),
                            watch: ConfirmationLoop::new(max_polls),
                        },
                    },
                    Action::Poll,
                ),
                Event::SubmitFailed(SubmissionError::InsufficientFunds) => (
                    TransferFlow { sender, request, retries_left, max_polls, stage: Stage::Done },
                    Action::Abort(TransferError::Submission(SubmissionError::InsufficientFunds)),
                ),
                Event::SubmitFailed(error) => {
                    if retries_left == 0 {
                        (
                            TransferFlow {
                                sender,
                                request,
                                retries_left,
                                max_polls,
                                stage: Stage::Done,
                            },
                            Action::Abort(TransferError::Submission(error)),
                        )
                    } else if error == SubmissionError::StaleBlockhash {
                        (
                            TransferFlow {
                                sender,
                                request,
                                retries_left: retries_left - 1,
                                max_polls,
                                stage: Stage::AwaitingBlockhash {
                                    stale: Some(envelope.recent_blockhash()),
                                },
                            },
                            Action::FetchBlockhash,
                        )
                    } else {
                        (
                            TransferFlow {
                                sender,
                                request,
                                retries_left: retries_left - 1,
                                max_polls,
                                stage: Stage::AwaitingSubmission { envelope },
                            },
                            Action::Submit,
                        )
                    }
                },
                _ => (
                    TransferFlow {
                        sender,
                        request,
                        retries_left,
                        max_polls,
                        stage: Stage::AwaitingSubmission { envelope },
                    },
                    Action::Idle,
                ),
            },
            Stage::Confirming { signature, blockhash, watch } => match event {
                Event::Polled(observation) => {
                    let (watch, again) = watch.observe(observation);
                    if again {
                        (
                            TransferFlow {
                                sender,
                                request,
                                retries_left,
                                max_polls,
                                stage: Stage::Confirming { signature, blockhash, watch },
                            },
                            Action::Poll,
                        )
                    } else {
                        let action = match watch.into_outcome() {
                            Some(Ok(_)) => Action::Record(
                                TransferRecord {
                                    from: sender.address(),
                                    to: request.recipient(),
                                    lamports: request.lamports(),
                                    signature,
                                },
                            ),
                            Some(Err(error)) => Action::Abort(TransferError::Confirmation(error)),
                            None => Action::Idle,
                        };
                        (
                            TransferFlow {
                                sender,
                                request,
                                retries_left,
                                max_polls,
                                stage: Stage::Done,
                            },
                            action,
                        )
                    }
                },
                _ => (
                    TransferFlow {
                        sender,
                        request,
                        retries_left,
                        max_polls,
                        stage: Stage::Confirming { signature, blockhash, watch },
                    },
                    Action::Idle,
                ),
            },
            Stage::Done => (
                TransferFlow { sender, request, retries_left, max_polls, stage: Stage::Done },
                Action::Idle,
            ),
        }
    }

    /// The envelope to submit, while one is on its way.
    pub fn envelope(&self) -> (envelope: Option<&TransactionEnvelope>)
        ensures
            match envelope {
                Some(e) => self@.stage == (StageView::AwaitingSubmission { envelope: e@ }) && e@
                    == signed_transfer(self@.key, self@.request, e@.recent_blockhash),
                None => !(self@.stage is AwaitingSubmission),
            },
    {
        proof {
            use_type_invariant(self);
        }
        match &self.stage {
            Stage::AwaitingSubmission { envelope } => Some(envelope),
            _ => None,
        }
    }

    /// The signature to poll for, once the node has taken the envelope.
    pub fn signature(&self) -> (signature: Option<TransactionSignature>)
        ensures
            match signature {
                Some(s) => self@.stage is Confirming && self@.stage->signature == s@,
                None => !(self@.stage is Confirming),
            },
    {
        match &self.stage {
            Stage::Confirming { signature, .. } => Some(*signature),
            _ => None,
        }
    }

    /// The block reference of the envelope that the node has taken: a poll
    /// that finds no status asks the node whether it is still valid.
    pub fn submitted_blockhash(&self) -> (blockhash: Option<Blockhash>)
        ensures
            match blockhash {
                Some(b) => self@.stage is Confirming && self@.stage->blockhash == b@,
                None => !(self@.stage is Confirming),
            },
    {
        match &self.stage {
            Stage::Confirming { blockhash, .. } => Some(*blockhash),
            _ => None,
        }
    }

    /// Tells whether the flow is over.
    pub fn is_done(&self) -> (done: bool)
        ensures
            done == (self@.stage is Done),
    {
        match &self.stage {
            Stage::Done => true,
            _ => false,
        }
    }

    /// The recoverable failures that the flow may still answer by trying
    /// again.
    pub fn retries_left(&self) -> (retries: u32)
        ensures
            retries == self@.retries_left,
    {
        self.retries_left
    }
}

} // verus!
