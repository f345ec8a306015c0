//! Waiting for a submitted transaction to become final.
//!
//! The loop is a state machine that is fed one observation per poll. It
//! reports success only on an observation of finality, fails on an on-chain
//! error or an expired block reference, and gives up when its budget of
//! polls is spent.

use vstd::prelude::*;

verus! {

/// How irreversible an observed state is.
#[derive(Clone, Copy, Debug, PartialEq, Eq, Structural)]
pub enum Commitment {
    Processed,
    Confirmed,
    Finalized,
}

/// What one poll of the node showed.
#[derive(Debug)]
pub enum Observation {
    /// The node knows no status for the transaction. `blockhash_valid` tells
    /// whether the block reference it was bound to can still be used.
    Absent { blockhash_valid: bool },
    /// The transaction has landed and reached the given level.
    Landed(Commitment),
    /// The transaction failed on chain, for the reason the node gives.
    Rejected(String),
    /// The node could not be reached.
    Unreachable,
}

/// Why a transaction failed for good.
#[derive(Debug)]
pub enum FailureReason {
    /// Its block reference expired before it landed.
    Expired,
    /// It was rejected on chain, for the reason the node gave.
    OnChain(String),
}

/// Where the loop stands.
#[derive(Debug)]
pub enum ConfirmationState {
    /// Submitted; no status has been observed yet.
    Unknown,
    /// Last seen processed.
    Processed,
    /// Last seen confirmed.
    Confirmed,
    /// Seen finalized: success.
    Finalized,
    /// Failed for good.
    Failed(FailureReason),
    /// The budget of polls was spent before a final state was seen.
    TimedOut,
}

/// How a confirmation loop ends when it does not end in success.
#[derive(Debug)]
pub enum ConfirmationError {
    /// The transaction failed for good, for the given reason.
    Failed(FailureReason),
    /// No final state was seen within the budget of polls.
    TimedOut,
}

impl ConfirmationState {
    /// A final state: polling has stopped.
    pub open spec fn is_settled(self) -> bool {
        self is Finalized || self is Failed || self is TimedOut
    }

    /// What a state means for the caller: nothing yet, success, or an error.
    pub open spec fn outcome(self) -> Option<Result<(), ConfirmationError>> {
        match self {
            ConfirmationState::Finalized => Some(Ok(())),
            ConfirmationState::Failed(reason) => Some(Err(ConfirmationError::Failed(reason))),
            ConfirmationState::TimedOut => Some(Err(ConfirmationError::TimedOut)),
            _ => None,
        }
    }
}

/// The state after one observation, and the polls that are left. A settled
/// state stays as it is. Otherwise finality, rejection and expiry settle the
/// matter at once; anything else costs one poll of the budget, and times out
/// when none is left.
pub open spec fn step(state: ConfirmationState, polls_left: nat, observation: Observation) -> (
    ConfirmationState,
    nat,
) {
    if state.is_settled() {
        (state, polls_left)
    } else {
        match observation {
            Observation::Landed(Commitment::Finalized) => (ConfirmationState::Finalized, polls_left),
            Observation::Rejected(reason) => (
                ConfirmationState::Failed(FailureReason::OnChain(reason)),
                polls_left,
            ),
            Observation::Absent { blockhash_valid: false } => (
                ConfirmationState::Failed(FailureReason::Expired),
                polls_left,
            ),
            _ => if polls_left == 0 {
                (ConfirmationState::TimedOut, polls_left)
            } else {
                match observation {
                    Observation::Landed(Commitment::Processed) => (
                        ConfirmationState::Processed,
                        (polls_left - 1) as nat,
                    ),
                    Observation::Landed(Commitment::Confirmed) => (
                        ConfirmationState::Confirmed,
                        (polls_left - 1) as nat,
                    ),
                    _ => (state, (polls_left - 1) as nat),
                }
            },
        }
    }
}

/// The state after a series of observations, and the polls that are left.
pub open spec fn run(state: ConfirmationState, polls_left: nat, observations: Seq<Observation>) -> (
    ConfirmationState,
    nat,
)
    decreases observations.len(),
{
    if observations.len() == 0 {
        (state, polls_left)
    } else {
        let before = run(state, polls_left, observations.drop_last());
        step(before.0, before.1, observations.last())
    }
}

/// Success is never reported on an observation below finality: a loop that
/// was not already finalized is finalized after a step only if that step
/// observed the transaction finalized.
pub proof fn law_success_needs_finality(
    state: ConfirmationState,
    polls_left: nat,
    observation: Observation,
)
    requires
        !(state is Finalized),
        step(state, polls_left, observation).0 is Finalized,
    ensures
        observation == Observation::Landed(Commitment::Finalized),
{
}

/// A loop that ends finalized has seen an observation of finality.
pub proof fn law_finalized_was_observed(polls_left: nat, observations: Seq<Observation>)
    requires
        run(ConfirmationState::Unknown, polls_left, observations).0 is Finalized,
    ensures
        exists|i: int|
            0 <= i < observations.len() && #[trigger] observations[i] == Observation::Landed(
                Commitment::Finalized,
            ),
    decreases observations.len(),
{
    if observations.len() > 0 {
        let before = run(ConfirmationState::Unknown, polls_left, observations.drop_last());
        if before.0 is Finalized {
            law_finalized_was_observed(polls_left, observations.drop_last());
            let i = choose|i: int|
                0 <= i < observations.drop_last().len() && #[trigger] observations.drop_last()[i]
                    == Observation::Landed(Commitment::Finalized);
            assert(observations[i] == observations.drop_last()[i]);
        } else {
            law_success_needs_finality(before.0, before.1, observations.last());
            assert(observations[observations.len() - 1] == observations.last());
        }
    }
}

/// A settled state is final: further observations change nothing.
pub proof fn law_settled_is_absorbing(
    state: ConfirmationState,
    polls_left: nat,
    observations: Seq<Observation>,
)
    requires
        state.is_settled(),
    ensures
        run(state, polls_left, observations) == (state, polls_left),
    decreases observations.len(),
{
    if observations.len() > 0 {
        law_settled_is_absorbing(state, polls_left, observations.drop_last());
    }
}

/// The loop is bounded: while it is not settled, each observation has cost
/// one poll, so more observations than the budget always settle it.
pub proof fn law_loop_is_bounded(polls_left: nat, observations: Seq<Observation>)
    ensures
        ({
            let end = run(ConfirmationState::Unknown, polls_left, observations);
            &&& !end.0.is_settled() ==> end.1 + observations.len() == polls_left
            &&& observations.len() > polls_left ==> end.0.is_settled()
        }),
    decreases observations.len(),
{
    if observations.len() > 0 {
        law_loop_is_bounded(polls_left, observations.drop_last());
    }
}

/// The confirmation loop of one submitted transaction.
#[derive(Debug)]
pub struct ConfirmationLoop {
    state: ConfirmationState,
    polls_left: u32,
}

impl ConfirmationLoop {
    /// Where the loop stands.
    pub closed spec fn spec_state(&self) -> ConfirmationState {
        self.state
    }

    /// The polls that the loop may still spend.
    pub closed spec fn spec_polls_left(&self) -> nat {
        self.polls_left as nat
    }

    /// A loop for a transaction that was just submitted, with a budget of
    /// `max_polls` inconclusive polls.
    pub fn new(max_polls: u32) -> (fresh: ConfirmationLoop)
        ensures
            fresh.spec_state() == ConfirmationState::Unknown,
            fresh.spec_polls_left() == max_polls,
    {
        ConfirmationLoop { state: ConfirmationState::Unknown, polls_left: max_polls }
    }

    /// Where the loop stands.
    pub fn state(&self) -> (state: &ConfirmationState)
        ensures
            *state == self.spec_state(),
    {
        &self.state
    }

    /// The polls that the loop may still spend.
    pub fn polls_left(&self) -> (polls: u32)
        ensures
            polls == self.spec_polls_left(),
    {
        self.polls_left
    }

    /// Tells whether polling has stopped.
    pub fn is_settled(&self) -> (settled: bool)
        ensures
            settled == self.spec_state().is_settled(),
    {
        match self.state {
            ConfirmationState::Finalized => true,
            ConfirmationState::Failed(_) => true,
            ConfirmationState::TimedOut => true,
            _ => false,
        }
    }

    /// Tells whether the transaction was seen finalized.
    pub fn is_finalized(&self) -> (finalized: bool)
        ensures
            finalized == (self.spec_state() is Finalized),
    {
        match self.state {
            ConfirmationState::Finalized => true,
            _ => false,
        }
    }

    /// Ends the loop and hands out what it came to: `None` while it is not
    /// settled, success when the transaction was seen finalized, else the
    /// error.
    pub fn into_outcome(self) -> (outcome: Option<Result<(), ConfirmationError>>)
        ensures
            outcome == self.spec_state().outcome(),
    {
        match self.state {
            ConfirmationState::Finalized => Some(Ok(())),
            ConfirmationState::Failed(reason) => Some(Err(ConfirmationError::Failed(reason))),
            ConfirmationState::TimedOut => Some(Err(ConfirmationError::TimedOut)),
            _ => None,
        }
    }

    /// Takes in what a poll showed. Returns the loop after it, and whether
    /// to poll again.
    pub fn observe(self, observation: Observation) -> (next: (ConfirmationLoop, bool))
        ensures
            (next.0.spec_state(), next.0.spec_polls_left()) == step(
                self.spec_state(),
                self.spec_polls_left(),
                observation,
            ),
            next.1 == !next.0.spec_state().is_settled(),
            next.0.spec_state() is Finalized ==> self.spec_state() is Finalized || observation
                == Observation::Landed(Commitment::Finalized),
    {
        if self.is_settled() {
            return (self, false);
        }
        let polls_left: u32 = self.polls_left;
        match observation {
            Observation::Landed(Commitment::Finalized) => (
                ConfirmationLoop { state: ConfirmationState::Finalized, polls_left },
                false,
            ),
            Observation::Rejected(reason) => (
                ConfirmationLoop {
                    state: ConfirmationState::Failed(FailureReason::OnChain(reason)),
                    polls_left,
                },
                false,
            ),
            Observation::Absent { blockhash_valid: false } => (
                ConfirmationLoop {
                    state: ConfirmationState::Failed(FailureReason::Expired),
                    polls_left,
                },
                false,
            ),
            other => {
                if polls_left == 0 {
                    (ConfirmationLoop { state: ConfirmationState::TimedOut, polls_left }, false)
                } else {
                    let state = match other {
                        Observation::Landed(Commitment::Processed) => ConfirmationState::Processed,
                        Observation::Landed(Commitment::Confirmed) => ConfirmationState::Confirmed,
                        _ => self.state,
                    };
                    (ConfirmationLoop { state, polls_left: polls_left - 1 }, true)
                }
            },
        }
    }
}

} // verus!
