use vote_relay::engine::{
    apply_mapping_outcome, apply_relay_outcome, handle_nns_vote, prepare_relay, MappingOutcome,
    RelayOutcome,
};
use vote_relay::state::State;
use vote_relay::{InitArgs, NnsVote, PrincipalId, VoteToProcess, WtnVote};

fn fresh_state() -> State {
    State::new(InitArgs {
        nns_governance_canister_id: None,
        wtn_governance_canister_id: None,
        wtn_protocol_canister_id: None,
    })
}

fn register(state: &mut State, admin: u8, nns: u64, wtn: [u8; 32]) -> u64 {
    state
        .register_neuron_pair(
            PrincipalId { bytes: vec![admin] },
            "p".to_string(),
            nns,
            wtn,
        )
        .unwrap()
}

#[test]
fn cached_mapping_translates_and_enqueues() {
    let mut state = fresh_state();
    let id = register(&mut state, 1, 5, [9u8; 32]);
    state.record_wtn_proposal_for_nns_proposal(42, Some(4200));
    let vote = NnsVote { proposal_id: 42, adopt: true };
    let needs_resolution = handle_nns_vote(&mut state, id, vote);
    assert!(!needs_resolution);
    let queued = state.votes_to_process();
    assert_eq!(queued.len(), 1);
    assert_eq!(
        queued[0],
        VoteToProcess::PendingWtnVote(
            id,
            WtnVote { nns_proposal_id: 42, wtn_proposal_id: 4200, adopt: true }
        )
    );
}

#[test]
fn negative_cache_entry_drops_the_item() {
    let mut state = fresh_state();
    let id = register(&mut state, 1, 5, [9u8; 32]);
    state.record_wtn_proposal_for_nns_proposal(42, None);
    let needs_resolution = handle_nns_vote(&mut state, id, NnsVote { proposal_id: 42, adopt: true });
    assert!(!needs_resolution);
    assert_eq!(state.votes_to_process_count(), 0);
}

#[test]
fn cache_miss_asks_for_resolution_without_changing_state() {
    let mut state = fresh_state();
    let id = register(&mut state, 1, 5, [9u8; 32]);
    let needs_resolution = handle_nns_vote(&mut state, id, NnsVote { proposal_id: 42, adopt: true });
    assert!(needs_resolution);
    assert_eq!(state.votes_to_process_count(), 0);
    assert_eq!(state.get_cached_wtn_proposal_for_nns_proposal(42), None);
}

#[test]
fn mapping_not_caught_up_retries_without_caching() {
    let mut state = fresh_state();
    let id = register(&mut state, 1, 5, [9u8; 32]);
    let vote = NnsVote { proposal_id: 42, adopt: true };
    // several passes where the resolver lags behind, or the call fails:
    // the item is re-enqueued unchanged every time and nothing is cached
    for _pass in 0..5 {
        let popped = match state.votes_to_process_count() {
            0 => vote, // first pass: the item arrives from the poller
            _ => match state.pop_next_vote_to_process().unwrap() {
                VoteToProcess::NnsVote(pair_id, v) => {
                    assert_eq!(pair_id, id);
                    v
                }
                other => panic!("unexpected item {other:?}"),
            },
        };
        assert_eq!(popped, vote);
        let outcome = if _pass % 2 == 0 {
            MappingOutcome::NotCaughtUp(41)
        } else {
            MappingOutcome::RemoteError
        };
        apply_mapping_outcome(&mut state, id, popped, outcome);
        assert_eq!(state.votes_to_process_count(), 1);
        assert_eq!(state.get_cached_wtn_proposal_for_nns_proposal(42), None);
    }
    // the first definitive answer resolves it for good
    let popped = match state.pop_next_vote_to_process().unwrap() {
        VoteToProcess::NnsVote(_, v) => v,
        other => panic!("unexpected item {other:?}"),
    };
    apply_mapping_outcome(&mut state, id, popped, MappingOutcome::Resolved(4200));
    assert_eq!(state.get_cached_wtn_proposal_for_nns_proposal(42), Some(Some(4200)));
    let queued = state.votes_to_process();
    assert_eq!(queued.len(), 1);
    assert_eq!(
        queued[0],
        VoteToProcess::PendingWtnVote(
            id,
            WtnVote { nns_proposal_id: 42, wtn_proposal_id: 4200, adopt: true }
        )
    );
}

#[test]
fn mapping_caught_up_without_match_caches_absence() {
    let mut state = fresh_state();
    let id = register(&mut state, 1, 5, [9u8; 32]);
    let vote = NnsVote { proposal_id: 42, adopt: false };
    apply_mapping_outcome(&mut state, id, vote, MappingOutcome::NotCaughtUp(42));
    assert_eq!(state.votes_to_process_count(), 0);
    assert_eq!(state.get_cached_wtn_proposal_for_nns_proposal(42), Some(None));
}

#[test]
fn prepare_relay_encodes_the_decision() {
    let mut state = fresh_state();
    let id = register(&mut state, 1, 5, [9u8; 32]);
    let adopt = WtnVote { nns_proposal_id: 42, wtn_proposal_id: 4200, adopt: true };
    let req = prepare_relay(&state, id, &adopt).unwrap();
    assert_eq!(req.subaccount, vec![9u8; 32]);
    assert_eq!(req.wtn_proposal_id, 4200);
    assert_eq!(req.vote, 1);
    let reject = WtnVote { adopt: false, ..adopt };
    let req = prepare_relay(&state, id, &reject).unwrap();
    assert_eq!(req.vote, 2);
}

#[test]
fn relay_for_deregistered_pair_is_dropped() {
    let mut state = fresh_state();
    let id = register(&mut state, 1, 5, [9u8; 32]);
    assert!(state.deregister_neuron_pair(PrincipalId { bytes: vec![1] }, id));
    let vote = WtnVote { nns_proposal_id: 42, wtn_proposal_id: 4200, adopt: true };
    assert!(prepare_relay(&state, id, &vote).is_none());
}

#[test]
fn relay_fails_twice_then_succeeds_once() {
    let mut state = fresh_state();
    let id = register(&mut state, 1, 5, [9u8; 32]);
    let vote = WtnVote { nns_proposal_id: 42, wtn_proposal_id: 4200, adopt: true };
    state.push_vote_to_process(VoteToProcess::PendingWtnVote(id, vote));

    let outcomes = [
        RelayOutcome::Rejected(13, "wrong state".to_string()),
        RelayOutcome::RemoteError,
        RelayOutcome::Ack,
    ];
    for outcome in outcomes {
        let popped = match state.pop_next_vote_to_process().unwrap() {
            VoteToProcess::PendingWtnVote(pair_id, v) => {
                assert_eq!(pair_id, id);
                v
            }
            other => panic!("unexpected item {other:?}"),
        };
        assert_eq!(popped, vote);
        apply_relay_outcome(&mut state, id, popped, outcome);
    }
    // exactly one history entry, nothing left in the queue
    assert_eq!(state.votes_to_process_count(), 0);
    let pairs = state.neuron_pairs();
    assert_eq!(pairs[0].wtn_votes().as_slice(), &[vote]);
}

#[test]
fn ack_for_deregistered_pair_records_nothing() {
    let mut state = fresh_state();
    let id = register(&mut state, 1, 5, [9u8; 32]);
    assert!(state.deregister_neuron_pair(PrincipalId { bytes: vec![1] }, id));
    let vote = WtnVote { nns_proposal_id: 42, wtn_proposal_id: 4200, adopt: true };
    apply_relay_outcome(&mut state, id, vote, RelayOutcome::Ack);
    assert_eq!(state.neuron_pairs().len(), 0);
    assert_eq!(state.votes_to_process_count(), 0);
}
