//! One registered neuron pair: an admin-owned linkage between a source
//! (NNS) neuron and a target (WTN) neuron, together with the pair's dedup
//! record of seen source proposals and its history of relayed votes.

use crate::pair_id::{compute_pair_id, spec_pair_id};
use crate::seen_votes::{seen_after_insert, seen_restore, sorted_strict, SeenVotes, SEEN_VOTES_CAP};
use crate::{NeuronPairPublic, PrincipalId, WtnVote};
use vstd::prelude::*;

verus! {

/// The plain data one pair contributes to a persisted snapshot. The id is
/// not stored: it is re-derived from the triple on restore.
#[derive(Debug)]
pub struct PairSnapshot {
    pub name: String,
    pub admin: PrincipalId,
    pub nns_neuron_id: u64,
    pub wtn_neuron_id: [u8; 32],
    pub already_seen_nns_votes: Vec<u64>,
    pub wtn_votes: Vec<WtnVote>,
}

/// The pair a snapshot restores to: the id re-derived, the seen-set rebuilt
/// by recording the stored ids in order.
pub open spec fn snapshot_pair_view(p: PairSnapshot) -> PairView {
    PairView {
        id: spec_pair_id(p.admin@, p.nns_neuron_id, p.wtn_neuron_id@),
        name: p.name@,
        admin: p.admin@,
        nns_neuron_id: p.nns_neuron_id,
        wtn_neuron_id: p.wtn_neuron_id@,
        seen: seen_restore(Seq::<u64>::empty(), p.already_seen_nns_votes@),
        wtn_votes: p.wtn_votes@,
    }
}

/// The abstract value of a [`NeuronPair`].
#[verifier::ext_equal]
pub struct PairView {
    pub id: u64,
    pub name: Seq<char>,
    pub admin: Seq<u8>,
    pub nns_neuron_id: u64,
    pub wtn_neuron_id: Seq<u8>,
    pub seen: Seq<u64>,
    pub wtn_votes: Seq<WtnVote>,
}

/// A pair is well formed when its id is the one derived from its triple and
/// its dedup record is a bounded sorted set.
pub open spec fn pair_view_wf(p: PairView) -> bool {
    &&& p.id == spec_pair_id(p.admin, p.nns_neuron_id, p.wtn_neuron_id)
    &&& sorted_strict(p.seen)
    &&& p.seen.len() <= SEEN_VOTES_CAP
}

#[derive(Debug)]
pub struct NeuronPair {
    id: u64,
    name: String,
    admin: PrincipalId,
    nns_neuron_id: u64,
    wtn_neuron_id: [u8; 32],
    already_seen_nns_votes: SeenVotes,
    wtn_votes: Vec<WtnVote>,
}

impl View for NeuronPair {
    type V = PairView;

    closed spec fn view(&self) -> PairView {
        PairView {
            id: self.id,
            name: self.name@,
            admin: self.admin@,
            nns_neuron_id: self.nns_neuron_id,
            wtn_neuron_id: self.wtn_neuron_id@,
            seen: self.already_seen_nns_votes@,
            wtn_votes: self.wtn_votes@,
        }
    }
}

impl NeuronPair {
    pub open spec fn wf(&self) -> bool {
        pair_view_wf(self@)
    }

    /// Creates the pair for the given triple; its id is derived
    /// deterministically, so the same triple always yields the same id.
    pub fn new(name: String, admin: PrincipalId, nns_neuron_id: u64, wtn_neuron_id: [u8; 32]) -> (r:
        NeuronPair)
        ensures
            r.wf(),
            r@ == (PairView {
                id: spec_pair_id(admin@, nns_neuron_id, wtn_neuron_id@),
                name: name@,
                admin: admin@,
                nns_neuron_id: nns_neuron_id,
                wtn_neuron_id: wtn_neuron_id@,
                seen: Seq::<u64>::empty(),
                wtn_votes: Seq::<WtnVote>::empty(),
            }),
    {
        let id = compute_pair_id(&admin.bytes, nns_neuron_id, &wtn_neuron_id);
        let r = NeuronPair {
            id,
            name,
            admin,
            nns_neuron_id,
            wtn_neuron_id,
            already_seen_nns_votes: SeenVotes::new(),
            wtn_votes: Vec::new(),
        };
        proof {
            assert(r.wtn_votes@ =~= Seq::<WtnVote>::empty());
        }
        r
    }

    pub fn id(&self) -> (r: u64)
        ensures
            r == self@.id,
    {
        self.id
    }

    pub fn admin(&self) -> (r: PrincipalId)
        ensures
            r@ == self@.admin,
    {
        self.admin.clone()
    }

    pub fn nns_neuron_id(&self) -> (r: u64)
        ensures
            r == self@.nns_neuron_id,
    {
        self.nns_neuron_id
    }

    pub fn wtn_neuron_id(&self) -> (r: [u8; 32])
        ensures
            r@ == self@.wtn_neuron_id,
    {
        self.wtn_neuron_id
    }

    /// Records a source proposal id in the pair's dedup record; returns
    /// whether it had not been seen before. The record keeps at most the
    /// 1000 largest ids recorded.
    pub fn is_newly_seen_nns_vote(&mut self, proposal_id: u64) -> (is_new: bool)
        requires
            old(self).wf(),
        ensures
            final(self).wf(),
            final(self)@ == (PairView {
                seen: seen_after_insert(old(self)@.seen, proposal_id),
                ..old(self)@
            }),
            is_new == !old(self)@.seen.contains(proposal_id),
    {
        self.already_seen_nns_votes.insert(proposal_id)
    }

    /// Appends a successfully relayed vote to the pair's history.
    pub fn record_wtn_vote_registered(&mut self, vote: WtnVote)
        requires
            old(self).wf(),
        ensures
            final(self).wf(),
            final(self)@ == (PairView { wtn_votes: old(self)@.wtn_votes.push(vote), ..old(self)@ }),
    {
        self.wtn_votes.push(vote);
    }

    /// How many source proposal ids the pair currently remembers.
    pub fn seen_nns_votes_count(&self) -> (r: usize)
        ensures
            r == self@.seen.len(),
    {
        self.already_seen_nns_votes.len()
    }

    /// Whether a source proposal id is currently remembered.
    pub fn has_seen_nns_vote(&self, proposal_id: u64) -> (r: bool)
        requires
            self.wf(),
        ensures
            r == self@.seen.contains(proposal_id),
    {
        self.already_seen_nns_votes.contains(proposal_id)
    }

    /// The votes successfully relayed on behalf of this pair, oldest first.
    pub fn wtn_votes(&self) -> (r: &Vec<WtnVote>)
        ensures
            r@ == self@.wtn_votes,
    {
        &self.wtn_votes
    }

    /// The plain data this pair contributes to a persisted snapshot.
    pub fn to_snapshot(&self) -> (r: PairSnapshot)
        ensures
            r.name@ == self@.name,
            r.admin@ == self@.admin,
            r.nns_neuron_id == self@.nns_neuron_id,
            r.wtn_neuron_id@ == self@.wtn_neuron_id,
            r.already_seen_nns_votes@ == self@.seen,
            r.wtn_votes@ == self@.wtn_votes,
    {
        let mut wtn_votes: Vec<WtnVote> = Vec::new();
        let n = self.wtn_votes.len();
        let mut i: usize = 0;
        while i < n
            invariant
                n == self.wtn_votes@.len(),
                0 <= i <= n,
                wtn_votes@ == self.wtn_votes@.take(i as int),
            decreases n - i,
        {
            wtn_votes.push(self.wtn_votes[i]);
            assert(wtn_votes@ =~= self.wtn_votes@.take(i + 1));
            i = i + 1;
        }
        proof {
            assert(self.wtn_votes@.take(n as int) =~= self.wtn_votes@);
        }
        PairSnapshot {
            name: self.name.clone(),
            admin: self.admin.clone(),
            nns_neuron_id: self.nns_neuron_id,
            wtn_neuron_id: self.wtn_neuron_id,
            already_seen_nns_votes: self.already_seen_nns_votes.to_vec(),
            wtn_votes,
        }
    }

    /// Restores one pair from its snapshot: the id is re-derived from the
    /// triple and the seen-set rebuilt by recording the stored ids in
    /// order.
    pub fn from_snapshot(snapshot: PairSnapshot) -> (r: NeuronPair)
        ensures
            r.wf(),
            r@ == snapshot_pair_view(snapshot),
    {
        let PairSnapshot {
            name,
            admin,
            nns_neuron_id,
            wtn_neuron_id,
            already_seen_nns_votes,
            wtn_votes,
        } = snapshot;
        let mut r = NeuronPair::new(name, admin, nns_neuron_id, wtn_neuron_id);
        let n = already_seen_nns_votes.len();
        let mut i: usize = 0;
        proof {
            assert(already_seen_nns_votes@.skip(0) =~= already_seen_nns_votes@);
        }
        while i < n
            invariant
                r.wf(),
                n == already_seen_nns_votes@.len(),
                0 <= i <= n,
                seen_restore(Seq::<u64>::empty(), already_seen_nns_votes@) == seen_restore(
                    r@.seen,
                    already_seen_nns_votes@.skip(i as int),
                ),
                r@.name == snapshot.name@,
                r@.admin == snapshot.admin@,
                r@.id == spec_pair_id(snapshot.admin@, snapshot.nns_neuron_id, snapshot.wtn_neuron_id@),
                r@.nns_neuron_id == snapshot.nns_neuron_id,
                r@.wtn_neuron_id == snapshot.wtn_neuron_id@,
                r@.wtn_votes == Seq::<WtnVote>::empty(),
            decreases n - i,
        {
            proof {
                assert(already_seen_nns_votes@.skip(i as int).drop_first()
                    =~= already_seen_nns_votes@.skip(i + 1));
                assert(already_seen_nns_votes@.skip(i as int)[0] == already_seen_nns_votes@[i as int]);
            }
            let _ = r.is_newly_seen_nns_vote(already_seen_nns_votes[i]);
            i = i + 1;
        }
        proof {
            assert(already_seen_nns_votes@.skip(n as int) =~= Seq::<u64>::empty());
        }
        r.wtn_votes = wtn_votes;
        proof {
            assert(r@ =~= snapshot_pair_view(snapshot));
        }
        r
    }

    /// The caller-facing description of this pair.
    pub fn to_public(&self) -> (r: NeuronPairPublic)
        ensures
            r.id == self@.id,
            r.name@ == self@.name,
            r.admin@ == self@.admin,
            r.nns_neuron_id == self@.nns_neuron_id,
            r.wtn_neuron_id@ == self@.wtn_neuron_id,
    {
        NeuronPairPublic {
            id: self.id,
            name: self.name.clone(),
            admin: self.admin.clone(),
            nns_neuron_id: self.nns_neuron_id,
            wtn_neuron_id: self.wtn_neuron_id,
        }
    }
}

} // verus!
