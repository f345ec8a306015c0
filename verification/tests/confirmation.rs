use sol_wallet::confirmation::{
    Commitment, ConfirmationError, ConfirmationLoop, ConfirmationState, FailureReason, Observation,
};

fn feed(max_polls: u32, observations: Vec<Observation>) -> (ConfirmationLoop, usize) {
    let mut watch = ConfirmationLoop::new(max_polls);
    let mut taken: usize = 0;
    for observation in observations {
        let (next, again) = watch.observe(observation);
        watch = next;
        taken += 1;
        if !again {
            break;
        }
    }
    (watch, taken)
}

#[test]
fn a_fresh_loop_knows_nothing() {
    let watch = ConfirmationLoop::new(3);
    assert!(matches!(watch.state(), ConfirmationState::Unknown));
    assert_eq!(watch.polls_left(), 3);
    assert!(!watch.is_settled());
    assert!(!watch.is_finalized());
    assert!(watch.into_outcome().is_none());
}

#[test]
fn finality_is_success() {
    let (watch, again) = ConfirmationLoop::new(3).observe(Observation::Landed(Commitment::Finalized));
    assert!(!again);
    assert!(watch.is_finalized());
    assert!(watch.is_settled());
    assert_eq!(watch.polls_left(), 3);
    assert!(matches!(watch.into_outcome(), Some(Ok(()))));
}

#[test]
fn levels_below_finality_are_never_success() {
    let (watch, taken) = feed(
        10,
        vec![
            Observation::Landed(Commitment::Processed),
            Observation::Landed(Commitment::Confirmed),
            Observation::Landed(Commitment::Confirmed),
            Observation::Landed(Commitment::Processed),
        ],
    );
    assert_eq!(taken, 4);
    assert!(!watch.is_finalized());
    assert!(!watch.is_settled());
    assert!(matches!(watch.state(), ConfirmationState::Processed));
    assert_eq!(watch.polls_left(), 6);
}

#[test]
fn levels_may_be_skipped() {
    let (watch, taken) = feed(
        5,
        vec![Observation::Absent { blockhash_valid: true }, Observation::Landed(Commitment::Finalized)],
    );
    assert_eq!(taken, 2);
    assert!(watch.is_finalized());
    assert_eq!(watch.polls_left(), 4);
}

#[test]
fn an_on_chain_error_fails_with_its_reason() {
    let (watch, again) =
        ConfirmationLoop::new(3).observe(Observation::Rejected(String::from("custom program error: 0x1")));
    assert!(!again);
    assert!(watch.is_settled());
    assert!(!watch.is_finalized());
    match watch.into_outcome() {
        Some(Err(ConfirmationError::Failed(FailureReason::OnChain(reason)))) => {
            assert_eq!(reason, "custom program error: 0x1")
        }
        other => panic!("{:?}", other),
    }
}

#[test]
fn an_expired_block_reference_without_status_fails() {
    let (watch, taken) = feed(
        5,
        vec![
            Observation::Absent { blockhash_valid: true },
            Observation::Absent { blockhash_valid: false },
            Observation::Landed(Commitment::Finalized),
        ],
    );
    assert_eq!(taken, 2);
    assert!(matches!(
        watch.into_outcome(),
        Some(Err(ConfirmationError::Failed(FailureReason::Expired)))
    ));
}

#[test]
fn the_budget_of_polls_bounds_the_loop() {
    let (watch, taken) = feed(
        2,
        vec![
            Observation::Absent { blockhash_valid: true },
            Observation::Unreachable,
            Observation::Landed(Commitment::Confirmed),
            Observation::Landed(Commitment::Finalized),
        ],
    );
    assert_eq!(taken, 3);
    assert!(matches!(watch.into_outcome(), Some(Err(ConfirmationError::TimedOut))));
}

#[test]
fn with_no_budget_the_first_inconclusive_poll_times_out() {
    let (watch, again) = ConfirmationLoop::new(0).observe(Observation::Landed(Commitment::Confirmed));
    assert!(!again);
    assert!(matches!(watch.state(), ConfirmationState::TimedOut));
    let (watch, again) = ConfirmationLoop::new(0).observe(Observation::Landed(Commitment::Finalized));
    assert!(!again);
    assert!(watch.is_finalized());
}

#[test]
fn a_settled_loop_stays_as_it_is() {
    let (watch, _) = ConfirmationLoop::new(1).observe(Observation::Absent { blockhash_valid: false });
    let (watch, again) = watch.observe(Observation::Landed(Commitment::Finalized));
    assert!(!again);
    assert!(!watch.is_finalized());
    assert!(matches!(watch.state(), ConfirmationState::Failed(FailureReason::Expired)));

    let (watch, _) = ConfirmationLoop::new(1).observe(Observation::Landed(Commitment::Finalized));
    let (watch, again) = watch.observe(Observation::Rejected(String::from("late")));
    assert!(!again);
    assert!(watch.is_finalized());

    let (watch, _) = ConfirmationLoop::new(0).observe(Observation::Unreachable);
    let (watch, again) = watch.observe(Observation::Landed(Commitment::Finalized));
    assert!(!again);
    assert!(matches!(watch.state(), ConfirmationState::TimedOut));
}
