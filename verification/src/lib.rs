//! Core of a vote-relay pipeline: votes observed on a source governance
//! system (the NNS) are deduplicated per registered neuron pair, translated
//! to the paired proposal on a target governance system (WTN), and queued
//! for delivery with retry on failure. All state is plain data, bounded
//! where the design demands it, and every operation carries a contract.

use vstd::prelude::*;

pub mod engine;
pub mod logs;
pub mod neuron_pair;
pub mod pair_id;
pub mod poller;
pub mod registration;
pub mod proposal_cache;
pub mod scheduler;
pub mod seen_votes;
pub mod state;

verus! {

/// A caller or canister identity, held as its raw bytes.
#[derive(Debug)]
pub struct PrincipalId {
    pub bytes: Vec<u8>,
}

impl View for PrincipalId {
    type V = Seq<u8>;

    open spec fn view(&self) -> Seq<u8> {
        self.bytes@
    }
}

impl Clone for PrincipalId {
    fn clone(&self) -> (r: Self)
        ensures
            r@ == self@,
    {
        let bytes = self.bytes.clone();
        proof {
            assert(bytes@ =~= self.bytes@);
        }
        PrincipalId { bytes }
    }
}

impl PrincipalId {
    /// Byte-for-byte equality of two identities.
    pub fn matches(&self, other: &PrincipalId) -> (r: bool)
        ensures
            r == (self@ == other@),
    {
        if self.bytes.len() != other.bytes.len() {
            assert(self@.len() != other@.len());
            return false;
        }
        let n: usize = self.bytes.len();
        let mut i: usize = 0;
        while i < n
            invariant
                n == self.bytes@.len(),
                n == other.bytes@.len(),
                0 <= i <= n,
                forall|j: int| 0 <= j < i ==> self.bytes@[j] == other.bytes@[j],
            decreases n - i,
        {
            if self.bytes[i] != other.bytes[i] {
                return false;
            }
            i = i + 1;
        }
        proof {
            assert(self@ =~= other@);
        }
        true
    }
}

/// One vote observed on the source (NNS) governance system.
#[derive(Clone, Copy, PartialEq, Eq, Structural, Debug)]
pub struct NnsVote {
    pub proposal_id: u64,
    pub adopt: bool,
}

/// A vote ready to be relayed to the target (WTN) governance system.
#[derive(Clone, Copy, PartialEq, Eq, Structural, Debug)]
pub struct WtnVote {
    pub nns_proposal_id: u64,
    pub wtn_proposal_id: u64,
    pub adopt: bool,
}

/// The unit of work in the processing queue.
#[derive(Clone, Copy, PartialEq, Eq, Structural, Debug)]
pub enum VoteToProcess {
    NnsVote(u64, NnsVote),
    PendingWtnVote(u64, WtnVote),
}

impl VoteToProcess {
    /// The id of the neuron pair this work item belongs to.
    pub open spec fn spec_pair_id(&self) -> u64 {
        match *self {
            VoteToProcess::NnsVote(pair_id, _) => pair_id,
            VoteToProcess::PendingWtnVote(pair_id, _) => pair_id,
        }
    }

    pub fn pair_id(&self) -> (r: u64)
        ensures
            r == self.spec_pair_id(),
    {
        match *self {
            VoteToProcess::NnsVote(pair_id, _) => pair_id,
            VoteToProcess::PendingWtnVote(pair_id, _) => pair_id,
        }
    }
}

/// Configuration supplied when the process starts; absent ids fall back to
/// the well-known defaults.
pub struct InitArgs {
    pub nns_governance_canister_id: Option<PrincipalId>,
    pub wtn_governance_canister_id: Option<PrincipalId>,
    pub wtn_protocol_canister_id: Option<PrincipalId>,
}

/// The caller-facing description of one registered pair.
#[derive(Debug)]
pub struct NeuronPairPublic {
    pub id: u64,
    pub name: String,
    pub admin: PrincipalId,
    pub nns_neuron_id: u64,
    pub wtn_neuron_id: [u8; 32],
}

/// Why a registration request was refused.
#[derive(Clone, Debug)]
pub enum RegisterNeuronPairError {
    AlreadyRegistered,
    NotPermittedToVote,
    RegistrationLimitExceeded(u32),
    GovernanceError(i32, String),
    ErrorCallingGovernanceCanister(i32, String),
}

} // verus!
