use vote_relay::state::State;
use vote_relay::{InitArgs, NnsVote, PrincipalId, VoteToProcess, WtnVote};

fn fresh_state() -> State {
    State::new(InitArgs {
        nns_governance_canister_id: None,
        wtn_governance_canister_id: None,
        wtn_protocol_canister_id: None,
    })
}

#[test]
fn snapshot_round_trip_restores_everything() {
    let mut state = fresh_state();
    let id_a = state
        .register_neuron_pair(
            PrincipalId { bytes: vec![1] },
            "a".to_string(),
            5,
            [9u8; 32],
        )
        .unwrap();
    let id_b = state
        .register_neuron_pair(
            PrincipalId { bytes: vec![2] },
            "b".to_string(),
            6,
            [8u8; 32],
        )
        .unwrap();
    state.record_nns_vote(id_a, NnsVote { proposal_id: 42, adopt: true });
    state.record_nns_vote(id_a, NnsVote { proposal_id: 43, adopt: false });
    state.record_wtn_vote_registered(
        id_b,
        WtnVote { nns_proposal_id: 1, wtn_proposal_id: 2, adopt: true },
    );
    state.record_wtn_proposal_for_nns_proposal(42, Some(4200));
    state.record_wtn_proposal_for_nns_proposal(44, None);

    let restored = State::from_snapshot(state.to_snapshot());

    assert_eq!(
        restored.nns_governance_canister_id().bytes,
        state.nns_governance_canister_id().bytes
    );
    assert_eq!(restored.votes_to_process(), state.votes_to_process());
    assert_eq!(restored.neuron_pairs().len(), 2);
    for (restored_pair, pair) in restored.neuron_pairs().iter().zip(state.neuron_pairs().iter()) {
        assert_eq!(restored_pair.id(), pair.id());
        assert_eq!(restored_pair.admin().bytes, pair.admin().bytes);
        assert_eq!(restored_pair.nns_neuron_id(), pair.nns_neuron_id());
        assert_eq!(restored_pair.wtn_neuron_id(), pair.wtn_neuron_id());
        assert_eq!(restored_pair.wtn_votes(), pair.wtn_votes());
    }
    // the dedup record survives the restart: the same votes enqueue nothing
    let mut restored = restored;
    restored.record_nns_vote(id_a, NnsVote { proposal_id: 42, adopt: true });
    restored.record_nns_vote(id_a, NnsVote { proposal_id: 43, adopt: false });
    assert_eq!(restored.votes_to_process_count(), 2);
    // the cache survives the restart
    assert_eq!(restored.get_cached_wtn_proposal_for_nns_proposal(42), Some(Some(4200)));
    assert_eq!(restored.get_cached_wtn_proposal_for_nns_proposal(44), Some(None));
    // a snapshot holding the same triple twice restores one pair
    let mut snapshot = state.to_snapshot();
    let duplicate = snapshot.neuron_pairs[0].already_seen_nns_votes.clone();
    assert_eq!(duplicate, vec![42, 43]);
    let first = state.neuron_pairs()[0].to_snapshot();
    snapshot.neuron_pairs.push(first);
    let deduplicated = State::from_snapshot(snapshot);
    assert_eq!(deduplicated.neuron_pairs().len(), 2);
}
