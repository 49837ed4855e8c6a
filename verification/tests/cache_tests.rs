use vote_relay::proposal_cache::ProposalCache;
use vote_relay::state::State;
use vote_relay::InitArgs;

fn fresh_state() -> State {
    State::new(InitArgs {
        nns_governance_canister_id: None,
        wtn_governance_canister_id: None,
        wtn_protocol_canister_id: None,
    })
}

#[test]
fn cache_hit_miss_and_negative_entry() {
    let mut cache = ProposalCache::new();
    assert_eq!(cache.get(1), None);
    cache.insert(1, Some(100));
    cache.insert(2, None);
    assert_eq!(cache.get(1), Some(Some(100)));
    assert_eq!(cache.get(2), Some(None));
    assert_eq!(cache.get(3), None);
    // a later record for the same key replaces the old one
    cache.insert(1, Some(200));
    assert_eq!(cache.get(1), Some(Some(200)));
    assert_eq!(cache.len(), 2);
}

#[test]
fn cache_holds_five_hundred_and_evicts_smallest() {
    let mut cache = ProposalCache::new();
    for id in 1..=501u64 {
        // mix positive and negative records
        let mapping = if id % 2 == 0 { Some(id * 10) } else { None };
        cache.insert(id, mapping);
    }
    assert_eq!(cache.len(), 500);
    // the smallest of the 501 keys was evicted, the rest are present
    assert_eq!(cache.get(1), None);
    for id in 2..=501u64 {
        let expected = if id % 2 == 0 { Some(id * 10) } else { None };
        assert_eq!(cache.get(id), Some(expected));
    }
}

#[test]
fn state_level_mapping_cache_round_trip() {
    let mut state = fresh_state();
    assert_eq!(state.get_cached_wtn_proposal_for_nns_proposal(7), None);
    state.record_wtn_proposal_for_nns_proposal(7, Some(70));
    state.record_wtn_proposal_for_nns_proposal(8, None);
    assert_eq!(state.get_cached_wtn_proposal_for_nns_proposal(7), Some(Some(70)));
    assert_eq!(state.get_cached_wtn_proposal_for_nns_proposal(8), Some(None));
}
