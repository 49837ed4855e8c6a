use vote_relay::poller::{nns_vote_from_ballot, record_ballots, Ballot};
use vote_relay::state::State;
use vote_relay::{InitArgs, NnsVote, PrincipalId, VoteToProcess};

fn fresh_state() -> State {
    State::new(InitArgs {
        nns_governance_canister_id: None,
        wtn_governance_canister_id: None,
        wtn_protocol_canister_id: None,
    })
}

#[test]
fn ballot_conversion() {
    assert_eq!(
        nns_vote_from_ballot(&Ballot { vote: 1, proposal_id: Some(42) }),
        Some(NnsVote { proposal_id: 42, adopt: true })
    );
    // any decision other than 1 converts to a rejection
    assert_eq!(
        nns_vote_from_ballot(&Ballot { vote: 2, proposal_id: Some(42) }),
        Some(NnsVote { proposal_id: 42, adopt: false })
    );
    assert_eq!(
        nns_vote_from_ballot(&Ballot { vote: 0, proposal_id: Some(7) }),
        Some(NnsVote { proposal_id: 7, adopt: false })
    );
    // a ballot without a proposal reference cannot be relayed
    assert_eq!(nns_vote_from_ballot(&Ballot { vote: 1, proposal_id: None }), None);
}

#[test]
fn ballots_run_through_the_dedup_filter_in_order() {
    let mut state = fresh_state();
    let id = state
        .register_neuron_pair(
            PrincipalId { bytes: vec![1] },
            "a".to_string(),
            5,
            [9u8; 32],
        )
        .unwrap();
    let ballots = vec![
        Ballot { vote: 1, proposal_id: Some(42) },
        Ballot { vote: 2, proposal_id: None },
        Ballot { vote: 2, proposal_id: Some(43) },
        Ballot { vote: 1, proposal_id: Some(42) },
    ];
    record_ballots(&mut state, id, &ballots);
    let queued = state.votes_to_process();
    assert_eq!(
        queued,
        vec![
            VoteToProcess::NnsVote(id, NnsVote { proposal_id: 42, adopt: true }),
            VoteToProcess::NnsVote(id, NnsVote { proposal_id: 43, adopt: false }),
        ]
    );
    // a later poll returning the same ballots enqueues nothing new
    record_ballots(&mut state, id, &ballots);
    assert_eq!(state.votes_to_process_count(), 2);
}

#[test]
fn ballots_for_unknown_pair_change_nothing() {
    let mut state = fresh_state();
    record_ballots(&mut state, 77, &vec![Ballot { vote: 1, proposal_id: Some(42) }]);
    assert_eq!(state.votes_to_process_count(), 0);
}
