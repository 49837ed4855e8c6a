use ic_principal::Principal;
use vote_relay::state::State;
use vote_relay::InitArgs;

#[test]
fn canister_ids() {
    let state = State::new(InitArgs {
        nns_governance_canister_id: None,
        wtn_governance_canister_id: None,
        wtn_protocol_canister_id: None,
    });
    assert_eq!(
        state.nns_governance_canister_id().bytes,
        Principal::from_text("rrkah-fqaaa-aaaaa-aaaaq-cai").unwrap().as_slice()
    );
    assert_eq!(
        state.wtn_governance_canister_id().bytes,
        Principal::from_text("jfnic-kaaaa-aaaaq-aadla-cai").unwrap().as_slice()
    );
    assert_eq!(
        state.wtn_protocol_canister_id().bytes,
        Principal::from_text("tsbvt-pyaaa-aaaar-qafva-cai").unwrap().as_slice()
    );
}

#[test]
fn configured_ids_override_the_defaults() {
    let custom = Principal::from_text("rrkah-fqaaa-aaaaa-aaaaq-cai").unwrap();
    let state = State::new(InitArgs {
        nns_governance_canister_id: None,
        wtn_governance_canister_id: Some(vote_relay::PrincipalId {
            bytes: custom.as_slice().to_vec(),
        }),
        wtn_protocol_canister_id: None,
    });
    assert_eq!(state.wtn_governance_canister_id().bytes, custom.as_slice());
}
