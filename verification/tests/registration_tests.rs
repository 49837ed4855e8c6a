use vote_relay::pair_id::compute_pair_id;
use vote_relay::registration::{
    has_vote_permission, register_neuron_pair, GetNeuronOutcome, NeuronPermission,
    REGISTER_VOTE_PERMISSION,
};
use vote_relay::state::State;
use vote_relay::{InitArgs, PrincipalId, RegisterNeuronPairError};

fn fresh_state() -> State {
    State::new(InitArgs {
        nns_governance_canister_id: None,
        wtn_governance_canister_id: None,
        wtn_protocol_canister_id: None,
    })
}

fn this_canister() -> PrincipalId {
    PrincipalId { bytes: vec![11, 12] }
}

fn granting_permissions() -> Vec<NeuronPermission> {
    vec![
        NeuronPermission { principal: None, permission_type: vec![REGISTER_VOTE_PERMISSION] },
        NeuronPermission {
            principal: Some(this_canister()),
            permission_type: vec![1, REGISTER_VOTE_PERMISSION, 3],
        },
    ]
}

#[test]
fn permission_check_needs_this_canister_and_vote_type() {
    assert!(has_vote_permission(&granting_permissions(), &this_canister()));
    // right principal, wrong permission type
    let wrong_type = vec![NeuronPermission {
        principal: Some(this_canister()),
        permission_type: vec![1, 2, 3],
    }];
    assert!(!has_vote_permission(&wrong_type, &this_canister()));
    // right permission type on some other principal
    let wrong_principal = vec![NeuronPermission {
        principal: Some(PrincipalId { bytes: vec![99] }),
        permission_type: vec![REGISTER_VOTE_PERMISSION],
    }];
    assert!(!has_vote_permission(&wrong_principal, &this_canister()));
    assert!(!has_vote_permission(&Vec::new(), &this_canister()));
}

#[test]
fn registration_succeeds_with_authority() {
    let mut state = fresh_state();
    let result = register_neuron_pair(
        &mut state,
        PrincipalId { bytes: vec![1] },
        "a".to_string(),
        5,
        [9u8; 32],
        GetNeuronOutcome::Neuron(granting_permissions()),
        &this_canister(),
    );
    assert_eq!(result.unwrap(), compute_pair_id(&vec![1u8], 5, &[9u8; 32]));
    assert_eq!(state.neuron_pairs().len(), 1);
}

#[test]
fn registration_without_authority_registers_nothing() {
    let mut state = fresh_state();
    let result = register_neuron_pair(
        &mut state,
        PrincipalId { bytes: vec![1] },
        "a".to_string(),
        5,
        [9u8; 32],
        GetNeuronOutcome::Neuron(Vec::new()),
        &this_canister(),
    );
    assert!(matches!(result, Err(RegisterNeuronPairError::NotPermittedToVote)));
    assert_eq!(state.neuron_pairs().len(), 0);
}

#[test]
fn registration_surfaces_governance_error() {
    let mut state = fresh_state();
    let result = register_neuron_pair(
        &mut state,
        PrincipalId { bytes: vec![1] },
        "a".to_string(),
        5,
        [9u8; 32],
        GetNeuronOutcome::GovernanceError(3, "no such neuron".to_string()),
        &this_canister(),
    );
    match result {
        Err(RegisterNeuronPairError::GovernanceError(code, message)) => {
            assert_eq!(code, 3);
            assert_eq!(message, "no such neuron");
        }
        other => panic!("unexpected result {other:?}"),
    }
    assert_eq!(state.neuron_pairs().len(), 0);
}

#[test]
fn registration_surfaces_transport_error() {
    let mut state = fresh_state();
    let result = register_neuron_pair(
        &mut state,
        PrincipalId { bytes: vec![1] },
        "a".to_string(),
        5,
        [9u8; 32],
        GetNeuronOutcome::CallFailed(2, "unreachable".to_string()),
        &this_canister(),
    );
    match result {
        Err(RegisterNeuronPairError::ErrorCallingGovernanceCanister(code, message)) => {
            assert_eq!(code, 2);
            assert_eq!(message, "unreachable");
        }
        other => panic!("unexpected result {other:?}"),
    }
    assert_eq!(state.neuron_pairs().len(), 0);
}

#[test]
fn duplicate_registration_is_already_registered() {
    let mut state = fresh_state();
    let first = register_neuron_pair(
        &mut state,
        PrincipalId { bytes: vec![1] },
        "a".to_string(),
        5,
        [9u8; 32],
        GetNeuronOutcome::Neuron(granting_permissions()),
        &this_canister(),
    );
    assert!(first.is_ok());
    let second = register_neuron_pair(
        &mut state,
        PrincipalId { bytes: vec![1] },
        "another name".to_string(),
        5,
        [9u8; 32],
        GetNeuronOutcome::Neuron(granting_permissions()),
        &this_canister(),
    );
    assert!(matches!(second, Err(RegisterNeuronPairError::AlreadyRegistered)));
    assert_eq!(state.neuron_pairs().len(), 1);
}
