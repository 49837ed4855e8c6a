//! The registration decision: before a pair is committed, the caller-facing
//! operation verifies — via a remote lookup of the target neuron — that this
//! process holds vote-casting authority over the target neuron. The remote
//! call is issued by the surrounding runtime; this module takes its outcome
//! as a value and decides, for every possible outcome, whether and how the
//! pair is registered.

use crate::state::{register_spec, State, StateView};
use crate::{PrincipalId, RegisterNeuronPairError};
use vstd::prelude::*;

verus! {

/// The permission type that grants vote registration on the target system.
pub const REGISTER_VOTE_PERMISSION: i32 = 4;

/// One permission record of the target neuron.
#[derive(Debug)]
pub struct NeuronPermission {
    pub principal: Option<PrincipalId>,
    pub permission_type: Vec<i32>,
}

/// What the target governance service answered when asked for the neuron.
#[derive(Debug)]
pub enum GetNeuronOutcome {
    /// The neuron, with its permission records.
    Neuron(Vec<NeuronPermission>),
    /// The service answered with a governance error.
    GovernanceError(i32, String),
    /// The call itself failed (transport error).
    CallFailed(i32, String),
}

/// Whether one permission record grants this process the right to register
/// votes: it names this process and carries the vote permission type.
pub open spec fn grants_vote(p: NeuronPermission, this_canister: Seq<u8>) -> bool {
    &&& p.principal is Some
    &&& p.principal.unwrap()@ == this_canister
    &&& exists|k: int|
        0 <= k < p.permission_type@.len() && p.permission_type@[k] == REGISTER_VOTE_PERMISSION
}

/// Whether any permission record grants this process the right.
pub open spec fn any_grants_vote(ps: Seq<NeuronPermission>, this_canister: Seq<u8>) -> bool {
    exists|i: int| 0 <= i < ps.len() && grants_vote(#[trigger] ps[i], this_canister)
}

/// The state and result of a registration request, given the neuron lookup's
/// outcome: an error surfaces as such and registers nothing; with authority
/// verified, the pair is created unless its derived id already exists.
pub open spec fn register_decision_spec(
    s: StateView,
    caller: Seq<u8>,
    name: Seq<char>,
    nns_neuron_id: u64,
    wtn_neuron_id: Seq<u8>,
    lookup: GetNeuronOutcome,
    this_canister: Seq<u8>,
) -> (StateView, Result<u64, RegisterNeuronPairError>) {
    match lookup {
        GetNeuronOutcome::Neuron(permissions) => if !any_grants_vote(permissions@, this_canister) {
            (s, Err(RegisterNeuronPairError::NotPermittedToVote))
        } else {
            let (s1, registered) = register_spec(s, caller, name, nns_neuron_id, wtn_neuron_id);
            match registered {
                Some(id) => (s1, Ok(id)),
                None => (s1, Err(RegisterNeuronPairError::AlreadyRegistered)),
            }
        },
        GetNeuronOutcome::GovernanceError(code, message) => (
            s,
            Err(RegisterNeuronPairError::GovernanceError(code, message)),
        ),
        GetNeuronOutcome::CallFailed(code, message) => (
            s,
            Err(RegisterNeuronPairError::ErrorCallingGovernanceCanister(code, message)),
        ),
    }
}

/// Whether the neuron's permission records grant this process the right to
/// register votes on its behalf.
pub fn has_vote_permission(permissions: &Vec<NeuronPermission>, this_canister: &PrincipalId) -> (r:
    bool)
    ensures
        r == any_grants_vote(permissions@, this_canister@),
{
    let n = permissions.len();
    let mut i: usize = 0;
    while i < n
        invariant
            n == permissions@.len(),
            0 <= i <= n,
            forall|j: int| 0 <= j < i ==> !grants_vote(#[trigger] permissions@[j], this_canister@),
        decreases n - i,
    {
        let p = &permissions[i];
        let named_here = match &p.principal {
            Some(principal) => principal.matches(this_canister),
            None => false,
        };
        if named_here {
            assert(permissions@[i as int].principal is Some);
            assert(permissions@[i as int].principal.unwrap()@ == this_canister@);
            let types = &p.permission_type;
            let m = types.len();
            let mut k: usize = 0;
            while k < m
                invariant
                    0 <= i < permissions@.len(),
                    types@ == permissions@[i as int].permission_type@,
                    permissions@[i as int].principal is Some,
                    permissions@[i as int].principal.unwrap()@ == this_canister@,
                    m == types@.len(),
                    0 <= k <= m,
                    forall|t: int| 0 <= t < k ==> types@[t] != REGISTER_VOTE_PERMISSION,
                decreases m - k,
            {
                if types[k] == REGISTER_VOTE_PERMISSION {
                    assert(grants_vote(permissions@[i as int], this_canister@));
                    return true;
                }
                k = k + 1;
            }
        }
        assert(!grants_vote(permissions@[i as int], this_canister@));
        i = i + 1;
    }
    false
}

/// Completes a registration request once the target neuron has been looked
/// up: verifies vote-casting authority from the lookup's outcome, then
/// registers the pair. Exactly the errors of
/// [`register_decision_spec`] are surfaced, and nothing is registered on an
/// error.
pub fn register_neuron_pair(
    state: &mut State,
    caller: PrincipalId,
    name: String,
    nns_neuron_id: u64,
    wtn_neuron_id: [u8; 32],
    neuron_lookup: GetNeuronOutcome,
    this_canister_id: &PrincipalId,
) -> (r: Result<u64, RegisterNeuronPairError>)
    requires
        old(state).wf(),
    ensures
        final(state).wf(),
        final(state)@ == register_decision_spec(
            old(state)@,
            caller@,
            name@,
            nns_neuron_id,
            wtn_neuron_id@,
            neuron_lookup,
            this_canister_id@,
        ).0,
        r == register_decision_spec(
            old(state)@,
            caller@,
            name@,
            nns_neuron_id,
            wtn_neuron_id@,
            neuron_lookup,
            this_canister_id@,
        ).1,
{
    match neuron_lookup {
        GetNeuronOutcome::Neuron(permissions) => {
            if !has_vote_permission(&permissions, this_canister_id) {
                return Err(RegisterNeuronPairError::NotPermittedToVote);
            }
            match state.register_neuron_pair(caller, name, nns_neuron_id, wtn_neuron_id) {
                Some(id) => Ok(id),
                None => Err(RegisterNeuronPairError::AlreadyRegistered),
            }
        },
        GetNeuronOutcome::GovernanceError(code, message) => Err(
            RegisterNeuronPairError::GovernanceError(code, message),
        ),
        GetNeuronOutcome::CallFailed(code, message) => Err(
            RegisterNeuronPairError::ErrorCallingGovernanceCanister(code, message),
        ),
    }
}

} // verus!
