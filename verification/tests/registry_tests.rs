use vote_relay::neuron_pair::NeuronPair;
use vote_relay::pair_id::compute_pair_id;
use vote_relay::state::State;
use vote_relay::{InitArgs, NnsVote, PrincipalId, VoteToProcess, WtnVote};

fn fresh_state() -> State {
    State::new(InitArgs {
        nns_governance_canister_id: None,
        wtn_governance_canister_id: None,
        wtn_protocol_canister_id: None,
    })
}

fn principal(bytes: &[u8]) -> PrincipalId {
    PrincipalId { bytes: bytes.to_vec() }
}

#[test]
fn pair_id_is_deterministic_chunk_sum() {
    // bytes = [1] ++ be(2) ++ [0; 32]: two non-zero 8-byte chunks,
    // 0x0100000000000000 and 0x0200000000000000.
    let id = compute_pair_id(&vec![1u8], 2, &[0u8; 32]);
    assert_eq!(id, 0x0300000000000000);
}

#[test]
fn pair_id_with_empty_admin_bytes() {
    // bytes = be(1) ++ [0; 32]: the first chunk reads 1, the rest are zero.
    let id = compute_pair_id(&Vec::new(), 1, &[0u8; 32]);
    assert_eq!(id, 1);
}

#[test]
fn pair_id_sum_wraps_on_overflow() {
    // six chunks of 0xFFFFFFFFFFFFFFFF: the sum wraps modulo 2^64.
    let id = compute_pair_id(&vec![255u8; 8], u64::MAX, &[255u8; 32]);
    assert_eq!(id, u64::MAX - 5);
}

#[test]
fn registering_same_triple_twice_is_rejected() {
    let mut state = fresh_state();
    let first = state.register_neuron_pair(principal(&[7, 7]), "a".to_string(), 5, [9u8; 32]);
    let id = first.expect("first registration must yield an id");
    assert_eq!(id, compute_pair_id(&vec![7u8, 7u8], 5, &[9u8; 32]));
    let second = state.register_neuron_pair(principal(&[7, 7]), "b".to_string(), 5, [9u8; 32]);
    assert!(second.is_none());
    assert_eq!(state.neuron_pairs().len(), 1);
}

#[test]
fn deregister_requires_admin() {
    let mut state = fresh_state();
    let id = state
        .register_neuron_pair(principal(&[1]), "a".to_string(), 5, [9u8; 32])
        .unwrap();
    assert!(!state.deregister_neuron_pair(principal(&[2]), id));
    assert_eq!(state.neuron_pairs().len(), 1);
    assert!(state.deregister_neuron_pair(principal(&[1]), id));
    assert_eq!(state.neuron_pairs().len(), 0);
    // deregistering a missing pair fails
    assert!(!state.deregister_neuron_pair(principal(&[1]), id));
}

#[test]
fn deregistration_purges_queued_items_of_that_pair() {
    let mut state = fresh_state();
    let id_a = state
        .register_neuron_pair(principal(&[1]), "a".to_string(), 5, [9u8; 32])
        .unwrap();
    let id_b = state
        .register_neuron_pair(principal(&[2]), "b".to_string(), 6, [8u8; 32])
        .unwrap();
    state.push_vote_to_process(VoteToProcess::NnsVote(
        id_a,
        NnsVote { proposal_id: 1, adopt: true },
    ));
    state.push_vote_to_process(VoteToProcess::PendingWtnVote(
        id_b,
        WtnVote { nns_proposal_id: 1, wtn_proposal_id: 2, adopt: true },
    ));
    state.push_vote_to_process(VoteToProcess::PendingWtnVote(
        id_a,
        WtnVote { nns_proposal_id: 3, wtn_proposal_id: 4, adopt: false },
    ));
    assert!(state.deregister_neuron_pair(principal(&[1]), id_a));
    let remaining = state.votes_to_process();
    assert_eq!(remaining.len(), 1);
    assert_eq!(remaining[0].pair_id(), id_b);
}

#[test]
fn pair_getters_and_public_conversion() {
    let pair = NeuronPair::new("pair name".to_string(), principal(&[3, 4]), 42, [5u8; 32]);
    assert_eq!(pair.id(), compute_pair_id(&vec![3u8, 4u8], 42, &[5u8; 32]));
    assert_eq!(pair.admin().bytes, vec![3u8, 4u8]);
    assert_eq!(pair.nns_neuron_id(), 42);
    assert_eq!(pair.wtn_neuron_id(), [5u8; 32]);
    let public = pair.to_public();
    assert_eq!(public.id, pair.id());
    assert_eq!(public.name, "pair name");
    assert_eq!(public.admin.bytes, vec![3u8, 4u8]);
    assert_eq!(public.nns_neuron_id, 42);
    assert_eq!(public.wtn_neuron_id, [5u8; 32]);
}

#[test]
fn queue_is_fifo() {
    let mut state = fresh_state();
    let a = VoteToProcess::NnsVote(1, NnsVote { proposal_id: 10, adopt: true });
    let b = VoteToProcess::NnsVote(2, NnsVote { proposal_id: 11, adopt: false });
    assert!(state.pop_next_vote_to_process().is_none());
    state.push_vote_to_process(a);
    state.push_vote_to_process(b);
    assert_eq!(state.votes_to_process_count(), 2);
    assert_eq!(state.pop_next_vote_to_process(), Some(a));
    assert_eq!(state.pop_next_vote_to_process(), Some(b));
    assert_eq!(state.pop_next_vote_to_process(), None);
}
