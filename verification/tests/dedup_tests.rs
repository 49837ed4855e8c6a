use vote_relay::seen_votes::SeenVotes;
use vote_relay::state::State;
use vote_relay::{InitArgs, NnsVote, PrincipalId};

fn fresh_state() -> State {
    State::new(InitArgs {
        nns_governance_canister_id: None,
        wtn_governance_canister_id: None,
        wtn_protocol_canister_id: None,
    })
}

#[test]
fn same_vote_twice_enqueues_once() {
    let mut state = fresh_state();
    let id = state
        .register_neuron_pair(
            PrincipalId { bytes: vec![1] },
            "a".to_string(),
            5,
            [9u8; 32],
        )
        .unwrap();
    let vote = NnsVote { proposal_id: 42, adopt: true };
    state.record_nns_vote(id, vote);
    state.record_nns_vote(id, vote);
    assert_eq!(state.votes_to_process_count(), 1);
    let queued = state.votes_to_process();
    assert_eq!(queued[0].pair_id(), id);
}

#[test]
fn vote_for_unknown_pair_is_dropped() {
    let mut state = fresh_state();
    state.record_nns_vote(123, NnsVote { proposal_id: 42, adopt: true });
    assert_eq!(state.votes_to_process_count(), 0);
}

#[test]
fn seen_set_keeps_the_thousand_largest() {
    let mut seen = SeenVotes::new();
    for id in 1..=1500u64 {
        assert!(seen.insert(id));
    }
    assert_eq!(seen.len(), 1000);
    // exactly the 1000 largest inserted ids remain
    for id in 1..=500u64 {
        assert!(!seen.contains(id));
    }
    for id in 501..=1500u64 {
        assert!(seen.contains(id));
    }
    // re-inserting a retained id is not new
    assert!(!seen.insert(1500));
    // an evicted id counts as new again
    assert!(seen.insert(1));
}

#[test]
fn seen_set_insertion_order_does_not_matter_for_dedup() {
    let mut seen = SeenVotes::new();
    assert!(seen.insert(10));
    assert!(seen.insert(3));
    assert!(seen.insert(7));
    assert!(!seen.insert(10));
    assert!(!seen.insert(3));
    assert!(!seen.insert(7));
    assert_eq!(seen.len(), 3);
}
