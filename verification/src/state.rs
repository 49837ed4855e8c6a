//! The process state container: the registry of neuron pairs, the FIFO
//! queue of votes awaiting processing, and the proposal mapping cache.
//! This is the single root of truth of the relay pipeline and the exact
//! unit persisted across restarts. Every operation is specified as a pure
//! transition on [`StateView`], so laws relating several operations can be
//! stated and proved over those transitions.

use crate::neuron_pair::{
    pair_view_wf, snapshot_pair_view, NeuronPair, PairSnapshot, PairView,
};
use crate::pair_id::spec_pair_id;
use crate::proposal_cache::{
    cache_after_insert, cache_lookup, cache_restore, cache_sorted, lemma_cache_restore_sorted,
    CacheEntry, ProposalCache, PROPOSAL_CACHE_CAP,
};
use crate::seen_votes::{lemma_seen_restore_sorted, seen_after_insert, SEEN_VOTES_CAP};
use crate::{InitArgs, NnsVote, PrincipalId, VoteToProcess, WtnVote};
use vstd::prelude::*;

verus! {

/// The abstract value of a [`State`].
#[verifier::ext_equal]
pub struct StateView {
    pub nns_governance_canister_id: Seq<u8>,
    pub wtn_governance_canister_id: Seq<u8>,
    pub wtn_protocol_canister_id: Seq<u8>,
    pub pairs: Seq<PairView>,
    pub queue: Seq<VoteToProcess>,
    pub cache: Seq<CacheEntry>,
}

/// Whether some registered pair carries the id.
pub open spec fn has_pair(pairs: Seq<PairView>, id: u64) -> bool {
    exists|i: int| 0 <= i < pairs.len() && pairs[i].id == id
}

/// The position of the pair with the given id (ids are unique in a
/// well-formed state).
pub open spec fn pair_index(pairs: Seq<PairView>, id: u64) -> int {
    choose|i: int| 0 <= i < pairs.len() && pairs[i].id == id
}

/// The registered pair with the given id.
pub open spec fn pair_at(pairs: Seq<PairView>, id: u64) -> PairView {
    pairs[pair_index(pairs, id)]
}

/// Pair ids are unique, each pair is well formed, and the cache is a
/// bounded sorted store.
pub open spec fn state_wf(s: StateView) -> bool {
    &&& forall|i: int, j: int| 0 <= i < j < s.pairs.len() ==> s.pairs[i].id != s.pairs[j].id
    &&& forall|i: int| 0 <= i < s.pairs.len() ==> pair_view_wf(#[trigger] s.pairs[i])
    &&& cache_sorted(s.cache)
    &&& s.cache.len() <= PROPOSAL_CACHE_CAP
}

/// The state after a registration request, with the outcome: the derived id
/// when the pair was created, `None` when the id already existed.
pub open spec fn register_spec(
    s: StateView,
    admin: Seq<u8>,
    name: Seq<char>,
    nns_neuron_id: u64,
    wtn_neuron_id: Seq<u8>,
) -> (StateView, Option<u64>) {
    let id = spec_pair_id(admin, nns_neuron_id, wtn_neuron_id);
    if has_pair(s.pairs, id) {
        (s, None)
    } else {
        let p = PairView {
            id,
            name,
            admin,
            nns_neuron_id,
            wtn_neuron_id,
            seen: Seq::<u64>::empty(),
            wtn_votes: Seq::<WtnVote>::empty(),
        };
        (StateView { pairs: s.pairs.push(p), ..s }, Some(id))
    }
}

/// The state after a deregistration request, with its success: the pair is
/// removed, and with it every queued work item that references it.
pub open spec fn deregister_spec(s: StateView, caller: Seq<u8>, pair_id: u64) -> (
    StateView,
    bool,
) {
    if has_pair(s.pairs, pair_id) && pair_at(s.pairs, pair_id).admin == caller {
        (
            StateView {
                pairs: s.pairs.remove(pair_index(s.pairs, pair_id)),
                queue: s.queue.filter(|v: VoteToProcess| v.spec_pair_id() != pair_id),
                ..s
            },
            true,
        )
    } else {
        (s, false)
    }
}

/// The state after one source vote is offered to a pair's dedup filter: the
/// id is recorded as seen, and only a newly seen vote is enqueued for
/// mapping. A vote for an unknown pair changes nothing.
pub open spec fn record_nns_vote_spec(s: StateView, pair_id: u64, vote: NnsVote) -> StateView {
    if !has_pair(s.pairs, pair_id) {
        s
    } else {
        let i = pair_index(s.pairs, pair_id);
        let p = s.pairs[i];
        let p2 = PairView { seen: seen_after_insert(p.seen, vote.proposal_id), ..p };
        StateView {
            pairs: s.pairs.update(i, p2),
            queue: if !p.seen.contains(vote.proposal_id) {
                s.queue.push(VoteToProcess::NnsVote(pair_id, vote))
            } else {
                s.queue
            },
            ..s
        }
    }
}

/// The state after a successful relay is recorded on its pair's history; a
/// no-op if the pair was deregistered meanwhile.
pub open spec fn record_wtn_vote_registered_spec(
    s: StateView,
    pair_id: u64,
    vote: WtnVote,
) -> StateView {
    if !has_pair(s.pairs, pair_id) {
        s
    } else {
        let i = pair_index(s.pairs, pair_id);
        let p = s.pairs[i];
        StateView { pairs: s.pairs.update(i, PairView { wtn_votes: p.wtn_votes.push(vote), ..p }), ..s }
    }
}

/// The state after a work item is appended to the processing queue.
pub open spec fn push_vote_spec(s: StateView, vote: VoteToProcess) -> StateView {
    StateView { queue: s.queue.push(vote), ..s }
}

/// The state after the head of the processing queue is removed.
pub open spec fn pop_vote_spec(s: StateView) -> StateView {
    StateView { queue: s.queue.drop_first(), ..s }
}

/// The state after a proposal mapping (or its confirmed absence) is cached.
pub open spec fn record_mapping_spec(
    s: StateView,
    nns_proposal_id: u64,
    wtn_proposal_id: Option<u64>,
) -> StateView {
    StateView {
        cache: cache_after_insert(s.cache, CacheEntry { nns_proposal_id, wtn_proposal_id }),
        ..s
    }
}

/// The registry, processing queue and mapping cache, exclusively owned by
/// the running process.
#[derive(Debug)]
pub struct State {
    nns_governance_canister_id: PrincipalId,
    wtn_governance_canister_id: PrincipalId,
    wtn_protocol_canister_id: PrincipalId,
    neuron_pairs: Vec<NeuronPair>,
    votes_to_process: Vec<VoteToProcess>,
    cached_wtn_proposals_per_nns_proposal: ProposalCache,
}

impl View for State {
    type V = StateView;

    closed spec fn view(&self) -> StateView {
        StateView {
            nns_governance_canister_id: self.nns_governance_canister_id@,
            wtn_governance_canister_id: self.wtn_governance_canister_id@,
            wtn_protocol_canister_id: self.wtn_protocol_canister_id@,
            pairs: self.neuron_pairs@.map_values(|p: NeuronPair| p@),
            queue: self.votes_to_process@,
            cache: self.cached_wtn_proposals_per_nns_proposal@,
        }
    }
}

/// The default source governance canister id.
pub open spec fn default_nns_governance_id() -> Seq<u8> {
    seq![0u8, 0u8, 0u8, 0u8, 0u8, 0u8, 0u8, 1u8, 1u8, 1u8]
}

/// The default target governance canister id.
pub open spec fn default_wtn_governance_id() -> Seq<u8> {
    seq![0u8, 0u8, 0u8, 0u8, 2u8, 0u8, 0u8, 214u8, 1u8, 1u8]
}

/// The default target protocol (mapping resolver) canister id.
pub open spec fn default_wtn_protocol_id() -> Seq<u8> {
    seq![0u8, 0u8, 0u8, 0u8, 2u8, 48u8, 1u8, 106u8, 1u8, 1u8]
}

fn default_principal(b0: u8, b1: u8, b2: u8, b3: u8, b4: u8, b5: u8, b6: u8, b7: u8, b8: u8, b9: u8) -> (r:
    PrincipalId)
    ensures
        r@ == seq![b0, b1, b2, b3, b4, b5, b6, b7, b8, b9],
{
    let bytes: Vec<u8> = vec![b0, b1, b2, b3, b4, b5, b6, b7, b8, b9];
    proof {
        assert(bytes@ =~= seq![b0, b1, b2, b3, b4, b5, b6, b7, b8, b9]);
    }
    PrincipalId { bytes }
}

impl State {
    pub open spec fn wf(&self) -> bool {
        state_wf(self@)
    }

    /// A fresh state: configured canister ids (or the defaults), no pairs,
    /// an empty queue, an empty cache.
    pub fn new(args: InitArgs) -> (r: State)
        ensures
            r.wf(),
            r@.nns_governance_canister_id == (match args.nns_governance_canister_id {
                Some(p) => p@,
                None => default_nns_governance_id(),
            }),
            r@.wtn_governance_canister_id == (match args.wtn_governance_canister_id {
                Some(p) => p@,
                None => default_wtn_governance_id(),
            }),
            r@.wtn_protocol_canister_id == (match args.wtn_protocol_canister_id {
                Some(p) => p@,
                None => default_wtn_protocol_id(),
            }),
            r@.pairs == Seq::<PairView>::empty(),
            r@.queue == Seq::<VoteToProcess>::empty(),
            r@.cache == Seq::<CacheEntry>::empty(),
    {
        let nns_governance_canister_id = match args.nns_governance_canister_id {
            Some(p) => p,
            None => default_principal(0, 0, 0, 0, 0, 0, 0, 1, 1, 1),
        };
        let wtn_governance_canister_id = match args.wtn_governance_canister_id {
            Some(p) => p,
            None => default_principal(0, 0, 0, 0, 2, 0, 0, 214, 1, 1),
        };
        let wtn_protocol_canister_id = match args.wtn_protocol_canister_id {
            Some(p) => p,
            None => default_principal(0, 0, 0, 0, 2, 48, 1, 106, 1, 1),
        };
        let r = State {
            nns_governance_canister_id,
            wtn_governance_canister_id,
            wtn_protocol_canister_id,
            neuron_pairs: Vec::new(),
            votes_to_process: Vec::new(),
            cached_wtn_proposals_per_nns_proposal: ProposalCache::new(),
        };
        proof {
            assert(r@.pairs =~= Seq::<PairView>::empty());
            assert(r@.queue =~= Seq::<VoteToProcess>::empty());
        }
        r
    }

    pub fn nns_governance_canister_id(&self) -> (r: PrincipalId)
        ensures
            r@ == self@.nns_governance_canister_id,
    {
        self.nns_governance_canister_id.clone()
    }

    pub fn wtn_governance_canister_id(&self) -> (r: PrincipalId)
        ensures
            r@ == self@.wtn_governance_canister_id,
    {
        self.wtn_governance_canister_id.clone()
    }

    pub fn wtn_protocol_canister_id(&self) -> (r: PrincipalId)
        ensures
            r@ == self@.wtn_protocol_canister_id,
    {
        self.wtn_protocol_canister_id.clone()
    }

    /// Finds the position of the pair with the given id.
    pub(crate) fn find_pair(&self, pair_id: u64) -> (r: Option<usize>)
        requires
            self.wf(),
        ensures
            r is Some <==> has_pair(self@.pairs, pair_id),
            r is Some ==> r.unwrap() == pair_index(self@.pairs, pair_id)
                && 0 <= r.unwrap() < self@.pairs.len(),
    {
        let n = self.neuron_pairs.len();
        assert(n == self@.pairs.len());
        let mut i: usize = 0;
        while i < n
            invariant
                self.wf(),
                n == self@.pairs.len(),
                n == self.neuron_pairs@.len(),
                0 <= i <= n,
                forall|j: int| 0 <= j < i ==> self@.pairs[j].id != pair_id,
            decreases n - i,
        {
            assert(self@.pairs[i as int] == self.neuron_pairs@[i as int]@);
            if self.neuron_pairs[i].id() == pair_id {
                proof {
                    lemma_unique_pair_index(self@.pairs, pair_id, i as int);
                }
                return Some(i);
            }
            i = i + 1;
        }
        None
    }

    /// Registers a pair for the triple; returns its id, or `None` when the
    /// derived id already exists (re-registration is rejected, never
    /// overwrites).
    pub fn register_neuron_pair(
        &mut self,
        caller: PrincipalId,
        name: String,
        nns_neuron_id: u64,
        wtn_neuron_id: [u8; 32],
    ) -> (r: Option<u64>)
        requires
            old(self).wf(),
        ensures
            final(self).wf(),
            final(self)@ == register_spec(
                old(self)@,
                caller@,
                name@,
                nns_neuron_id,
                wtn_neuron_id@,
            ).0,
            r == register_spec(old(self)@, caller@, name@, nns_neuron_id, wtn_neuron_id@).1,
    {
        let pair = NeuronPair::new(name, caller, nns_neuron_id, wtn_neuron_id);
        let id = pair.id();
        if let Some(_i) = self.find_pair(id) {
            return None;
        }
        self.neuron_pairs.push(pair);
        proof {
            assert(self@.pairs =~= old(self)@.pairs.push(pair@));
            assert(self@ =~= register_spec(
                old(self)@,
                pair@.admin,
                pair@.name,
                nns_neuron_id,
                wtn_neuron_id@,
            ).0);
            assert forall|i: int, j: int| 0 <= i < j < self@.pairs.len() implies self@.pairs[i].id
                != self@.pairs[j].id by {
                if j == self@.pairs.len() - 1 {
                    assert(!has_pair(old(self)@.pairs, id));
                    assert(old(self)@.pairs[i].id != id);
                }
            }
        }
        Some(id)
    }

    /// Deregisters the pair when the caller is its admin; on success the
    /// pair and every queued work item referencing it are removed.
    pub fn deregister_neuron_pair(&mut self, caller: PrincipalId, pair_id: u64) -> (r: bool)
        requires
            old(self).wf(),
        ensures
            final(self).wf(),
            final(self)@ == deregister_spec(old(self)@, caller@, pair_id).0,
            r == deregister_spec(old(self)@, caller@, pair_id).1,
    {
        let i = match self.find_pair(pair_id) {
            Some(i) => i,
            None => {
                return false;
            },
        };
        let admin = self.neuron_pairs[i].admin();
        assert(admin@ == pair_at(self@.pairs, pair_id).admin) by {
            assert(self@.pairs[i as int] == self.neuron_pairs@[i as int]@);
        }
        if !caller.matches(&admin) {
            return false;
        }
        self.neuron_pairs.remove(i);
        let ghost q0 = self.votes_to_process@;
        let ghost pred = |v: VoteToProcess| v.spec_pair_id() != pair_id;
        let mut kept: Vec<VoteToProcess> = Vec::new();
        let n = self.votes_to_process.len();
        let mut k: usize = 0;
        proof {
            assert(q0.take(0) =~= Seq::<VoteToProcess>::empty());
            reveal(Seq::filter);
        }
        while k < n
            invariant
                n == q0.len(),
                self.votes_to_process@ == q0,
                0 <= k <= n,
                kept@ == q0.take(k as int).filter(pred),
                pred == (|v: VoteToProcess| v.spec_pair_id() != pair_id),
            decreases n - k,
        {
            let v = self.votes_to_process[k];
            proof {
                reveal(Seq::filter);
                assert(q0.take(k + 1).drop_last() =~= q0.take(k as int));
                assert(q0.take(k + 1).last() == q0[k as int]);
            }
            if v.pair_id() != pair_id {
                kept.push(v);
            }
            k = k + 1;
        }
        proof {
            assert(q0.take(n as int) =~= q0);
        }
        self.votes_to_process = kept;
        proof {
            assert(self@.pairs =~= old(self)@.pairs.remove(pair_index(old(self)@.pairs, pair_id)));
            assert(self@ =~= deregister_spec(old(self)@, caller@, pair_id).0);
            lemma_remove_preserves_wf(old(self)@.pairs, pair_index(old(self)@.pairs, pair_id));
        }
        true
    }

    /// The registered pairs, in registration order.
    pub fn neuron_pairs(&self) -> (r: &Vec<NeuronPair>)
        ensures
            r@.len() == self@.pairs.len(),
            forall|i: int| 0 <= i < r@.len() ==> r@[i]@ == self@.pairs[i],
    {
        &self.neuron_pairs
    }

    /// Offers one observed source vote to the pair's dedup filter,
    /// enqueuing it for mapping only when newly seen.
    pub fn record_nns_vote(&mut self, pair_id: u64, vote: NnsVote)
        requires
            old(self).wf(),
        ensures
            final(self).wf(),
            final(self)@ == record_nns_vote_spec(old(self)@, pair_id, vote),
    {
        let i = match self.find_pair(pair_id) {
            Some(i) => i,
            None => {
                return ;
            },
        };
        let ghost s0 = self@;
        let pair = vec_element_mut(&mut self.neuron_pairs, i);
        assert(pair.wf()) by {
            assert(s0.pairs[i as int] == old(self).neuron_pairs@[i as int]@);
        }
        let is_new = pair.is_newly_seen_nns_vote(vote.proposal_id);
        if is_new {
            self.votes_to_process.push(VoteToProcess::NnsVote(pair_id, vote));
        }
        proof {
            let p = s0.pairs[i as int];
            let p2 = PairView { seen: seen_after_insert(p.seen, vote.proposal_id), ..p };
            assert(self@.pairs =~= s0.pairs.update(i as int, p2));
            assert(self@ =~= record_nns_vote_spec(s0, pair_id, vote));
            lemma_update_same_id_preserves_wf(s0, i as int, p2);
        }
    }

    /// Records a successful relay on the pair's history; a no-op when the
    /// pair was deregistered meanwhile.
    pub fn record_wtn_vote_registered(&mut self, pair_id: u64, vote: WtnVote)
        requires
            old(self).wf(),
        ensures
            final(self).wf(),
            final(self)@ == record_wtn_vote_registered_spec(old(self)@, pair_id, vote),
    {
        let i = match self.find_pair(pair_id) {
            Some(i) => i,
            None => {
                return ;
            },
        };
        let ghost s0 = self@;
        let pair = vec_element_mut(&mut self.neuron_pairs, i);
        assert(pair.wf()) by {
            assert(s0.pairs[i as int] == old(self).neuron_pairs@[i as int]@);
        }
        pair.record_wtn_vote_registered(vote);
        proof {
            let p = s0.pairs[i as int];
            let p2 = PairView { wtn_votes: p.wtn_votes.push(vote), ..p };
            assert(self@.pairs =~= s0.pairs.update(i as int, p2));
            assert(self@ =~= record_wtn_vote_registered_spec(s0, pair_id, vote));
            lemma_update_same_id_preserves_wf(s0, i as int, p2);
        }
    }

    /// Appends a work item at the tail of the processing queue.
    pub fn push_vote_to_process(&mut self, vote: VoteToProcess)
        requires
            old(self).wf(),
        ensures
            final(self).wf(),
            final(self)@ == push_vote_spec(old(self)@, vote),
    {
        self.votes_to_process.push(vote);
        proof {
            assert(self@ =~= push_vote_spec(old(self)@, vote));
        }
    }

    /// Removes and returns the head of the processing queue.
    pub fn pop_next_vote_to_process(&mut self) -> (r: Option<VoteToProcess>)
        requires
            old(self).wf(),
        ensures
            final(self).wf(),
            old(self)@.queue.len() == 0 ==> r is None && final(self)@ == old(self)@,
            old(self)@.queue.len() > 0 ==> r == Some(old(self)@.queue[0]) && final(self)@
                == pop_vote_spec(old(self)@),
    {
        if self.votes_to_process.len() == 0 {
            return None;
        }
        let v = self.votes_to_process.remove(0);
        proof {
            assert(self@.queue =~= old(self)@.queue.drop_first());
            assert(self@ =~= pop_vote_spec(old(self)@));
        }
        Some(v)
    }

    /// A copy of the queued work items, head first.
    pub fn votes_to_process(&self) -> (r: Vec<VoteToProcess>)
        ensures
            r@ == self@.queue,
    {
        let n = self.votes_to_process.len();
        let mut r: Vec<VoteToProcess> = Vec::new();
        let mut i: usize = 0;
        while i < n
            invariant
                n == self@.queue.len(),
                n == self.votes_to_process@.len(),
                0 <= i <= n,
                r@ == self@.queue.take(i as int),
            decreases n - i,
        {
            r.push(self.votes_to_process[i]);
            proof {
                assert(r@ =~= self@.queue.take(i + 1));
            }
            i = i + 1;
        }
        proof {
            assert(self@.queue.take(n as int) =~= self@.queue);
        }
        r
    }

    pub fn votes_to_process_count(&self) -> (r: usize)
        ensures
            r == self@.queue.len(),
    {
        self.votes_to_process.len()
    }

    /// Caches the mapping resolved for a source proposal (`None` records
    /// its confirmed absence), evicting the smallest keys over capacity.
    pub fn record_wtn_proposal_for_nns_proposal(
        &mut self,
        nns_proposal_id: u64,
        wtn_proposal_id: Option<u64>,
    )
        requires
            old(self).wf(),
        ensures
            final(self).wf(),
            final(self)@ == record_mapping_spec(old(self)@, nns_proposal_id, wtn_proposal_id),
    {
        self.cached_wtn_proposals_per_nns_proposal.insert(nns_proposal_id, wtn_proposal_id);
        proof {
            assert(self@ =~= record_mapping_spec(old(self)@, nns_proposal_id, wtn_proposal_id));
        }
    }

    /// What the cache knows of a source proposal: `None` on a miss,
    /// `Some(mapping)` on a hit (where a mapping of `None` records
    /// confirmed absence).
    pub fn get_cached_wtn_proposal_for_nns_proposal(&self, nns_proposal_id: u64) -> (r: Option<
        Option<u64>,
    >)
        ensures
            r == cache_lookup(self@.cache, nns_proposal_id),
    {
        self.cached_wtn_proposals_per_nns_proposal.get(nns_proposal_id)
    }
}

/// The plain data of a whole persisted snapshot: everything the process
/// must carry across a restart. The byte encoding of this data is the
/// runtime's business.
#[derive(Debug)]
pub struct StateSnapshot {
    pub nns_governance_canister_id: PrincipalId,
    pub wtn_governance_canister_id: PrincipalId,
    pub wtn_protocol_canister_id: PrincipalId,
    pub neuron_pairs: Vec<PairSnapshot>,
    pub votes_to_process: Vec<VoteToProcess>,
    pub cached_wtn_proposals: Vec<CacheEntry>,
}

/// The registry rebuilt from snapshot pairs, oldest first; a pair whose
/// re-derived id collides with an already restored one is skipped, as a
/// duplicate registration would be.
pub open spec fn restore_pairs_spec(acc: Seq<PairView>, snaps: Seq<PairSnapshot>) -> Seq<PairView>
    decreases snaps.len(),
{
    if snaps.len() == 0 {
        acc
    } else {
        let p = snapshot_pair_view(snaps[0]);
        let acc2 = if has_pair(acc, p.id) {
            acc
        } else {
            acc.push(p)
        };
        restore_pairs_spec(acc2, snaps.drop_first())
    }
}

impl State {
    /// The plain data to persist before shutdown.
    pub fn to_snapshot(&self) -> (r: StateSnapshot)
        ensures
            r.nns_governance_canister_id@ == self@.nns_governance_canister_id,
            r.wtn_governance_canister_id@ == self@.wtn_governance_canister_id,
            r.wtn_protocol_canister_id@ == self@.wtn_protocol_canister_id,
            r.votes_to_process@ == self@.queue,
            r.cached_wtn_proposals@ == self@.cache,
            snapshot_matches_pairs(r.neuron_pairs@, self@.pairs),
    {
        let mut neuron_pairs: Vec<PairSnapshot> = Vec::new();
        let n = self.neuron_pairs.len();
        let mut i: usize = 0;
        while i < n
            invariant
                n == self.neuron_pairs@.len(),
                0 <= i <= n,
                neuron_pairs@.len() == i,
                forall|j: int|
                    0 <= j < i ==> {
                        let p = #[trigger] neuron_pairs@[j];
                        &&& p.name@ == self.neuron_pairs@[j]@.name
                        &&& p.admin@ == self.neuron_pairs@[j]@.admin
                        &&& p.nns_neuron_id == self.neuron_pairs@[j]@.nns_neuron_id
                        &&& p.wtn_neuron_id@ == self.neuron_pairs@[j]@.wtn_neuron_id
                        &&& p.already_seen_nns_votes@ == self.neuron_pairs@[j]@.seen
                        &&& p.wtn_votes@ == self.neuron_pairs@[j]@.wtn_votes
                    },
            decreases n - i,
        {
            neuron_pairs.push(self.neuron_pairs[i].to_snapshot());
            i = i + 1;
        }
        StateSnapshot {
            nns_governance_canister_id: self.nns_governance_canister_id.clone(),
            wtn_governance_canister_id: self.wtn_governance_canister_id.clone(),
            wtn_protocol_canister_id: self.wtn_protocol_canister_id.clone(),
            neuron_pairs,
            votes_to_process: self.votes_to_process(),
            cached_wtn_proposals: self.cached_wtn_proposals_per_nns_proposal.to_entries(),
        }
    }

    /// Restores the state from a persisted snapshot, re-establishing every
    /// invariant: pair ids are re-derived from their triples, duplicate
    /// triples are dropped, the seen-sets and the cache are rebuilt by
    /// recording the stored runs in order.
    pub fn from_snapshot(snapshot: StateSnapshot) -> (r: State)
        ensures
            r.wf(),
            r@.nns_governance_canister_id == snapshot.nns_governance_canister_id@,
            r@.wtn_governance_canister_id == snapshot.wtn_governance_canister_id@,
            r@.wtn_protocol_canister_id == snapshot.wtn_protocol_canister_id@,
            r@.pairs == restore_pairs_spec(Seq::<PairView>::empty(), snapshot.neuron_pairs@),
            r@.queue == snapshot.votes_to_process@,
            r@.cache == cache_restore(Seq::<CacheEntry>::empty(), snapshot.cached_wtn_proposals@),
    {
        let StateSnapshot {
            nns_governance_canister_id,
            wtn_governance_canister_id,
            wtn_protocol_canister_id,
            neuron_pairs: mut snaps,
            votes_to_process,
            cached_wtn_proposals,
        } = snapshot;
        let mut neuron_pairs: Vec<NeuronPair> = Vec::new();
        proof {
            assert(neuron_pairs@.map_values(|p: NeuronPair| p@) =~= Seq::<PairView>::empty());
            assert(snaps@ == snapshot.neuron_pairs@);
        }
        while snaps.len() > 0
            invariant
                forall|a: int, b: int|
                    0 <= a < b < neuron_pairs@.len() ==> (#[trigger] neuron_pairs@[a])@.id != (
                    #[trigger] neuron_pairs@[b])@.id,
                forall|a: int| 0 <= a < neuron_pairs@.len() ==> (#[trigger] neuron_pairs@[a]).wf(),
                restore_pairs_spec(Seq::<PairView>::empty(), snapshot.neuron_pairs@)
                    == restore_pairs_spec(neuron_pairs@.map_values(|p: NeuronPair| p@), snaps@),
            decreases snaps@.len(),
        {
            let ghost pairs0 = neuron_pairs@.map_values(|p: NeuronPair| p@);
            proof {
                assert(snaps@.drop_first() =~= snaps@.skip(1));
            }
            let snap = snaps.remove(0);
            let pair = NeuronPair::from_snapshot(snap);
            let id = pair.id();
            let mut found = false;
            let m = neuron_pairs.len();
            let mut k: usize = 0;
            while k < m
                invariant
                    m == neuron_pairs@.len(),
                    0 <= k <= m,
                    pairs0 == neuron_pairs@.map_values(|p: NeuronPair| p@),
                    found == exists|j: int| 0 <= j < k && pairs0[j].id == id,
                decreases m - k,
            {
                assert(pairs0[k as int] == neuron_pairs@[k as int]@);
                if neuron_pairs[k].id() == id {
                    found = true;
                }
                k = k + 1;
            }
            assert(found == has_pair(pairs0, id));
            if !found {
                neuron_pairs.push(pair);
                proof {
                    assert(neuron_pairs@.map_values(|p: NeuronPair| p@) =~= pairs0.push(pair@));
                    assert forall|a: int, b: int| 0 <= a < b < neuron_pairs@.len() implies (
                    #[trigger] neuron_pairs@[a])@.id != (#[trigger] neuron_pairs@[b])@.id by {
                        if b == neuron_pairs@.len() - 1 {
                            assert(neuron_pairs@[b]@ == pair@);
                            assert(pairs0[a] == neuron_pairs@[a]@);
                            assert(!has_pair(pairs0, id));
                        }
                    }
                }
            }
        }
        proof {
            assert(snaps@ =~= Seq::<PairSnapshot>::empty());
        }
        let r = State {
            nns_governance_canister_id,
            wtn_governance_canister_id,
            wtn_protocol_canister_id,
            neuron_pairs,
            votes_to_process,
            cached_wtn_proposals_per_nns_proposal: ProposalCache::from_entries(
                &cached_wtn_proposals,
            ),
        };
        proof {
            assert(r@.pairs =~= restore_pairs_spec(
                Seq::<PairView>::empty(),
                snapshot.neuron_pairs@,
            ));
        }
        r
    }

    /// A copy of the cached proposal mappings, smallest key first.
    pub fn cached_wtn_proposals(&self) -> (r: Vec<CacheEntry>)
        ensures
            r@ == self@.cache,
    {
        self.cached_wtn_proposals_per_nns_proposal.to_entries()
    }
}

/// The field-for-field correspondence between a snapshot's pairs and a
/// state's pairs, as [`State::to_snapshot`] establishes it.
pub open spec fn snapshot_matches_pairs(snaps: Seq<PairSnapshot>, pairs: Seq<PairView>) -> bool {
    &&& snaps.len() == pairs.len()
    &&& forall|i: int|
        0 <= i < pairs.len() ==> {
            let p = #[trigger] snaps[i];
            &&& p.name@ == pairs[i].name
            &&& p.admin@ == pairs[i].admin
            &&& p.nns_neuron_id == pairs[i].nns_neuron_id
            &&& p.wtn_neuron_id@ == pairs[i].wtn_neuron_id
            &&& p.already_seen_nns_votes@ == pairs[i].seen
            &&& p.wtn_votes@ == pairs[i].wtn_votes
        }
}

/// Restart-durability law: restoring a snapshot taken of a well-formed
/// state rebuilds exactly that state — every pair with its id, dedup record
/// and history, the queue, and the cache — so a planned restart loses
/// nothing and re-derives every invariant from the plain stored data.
pub proof fn lemma_snapshot_round_trip(snap: StateSnapshot, sv: StateView)
    requires
        state_wf(sv),
        snap.votes_to_process@ == sv.queue,
        snap.cached_wtn_proposals@ == sv.cache,
        snapshot_matches_pairs(snap.neuron_pairs@, sv.pairs),
    ensures
        restore_pairs_spec(Seq::<PairView>::empty(), snap.neuron_pairs@) == sv.pairs,
        cache_restore(Seq::<CacheEntry>::empty(), snap.cached_wtn_proposals@) == sv.cache,
{
    lemma_cache_restore_sorted(Seq::<CacheEntry>::empty(), sv.cache);
    assert(Seq::<CacheEntry>::empty() + sv.cache =~= sv.cache);
    assert(sv.pairs.take(0) =~= Seq::<PairView>::empty());
    assert(snap.neuron_pairs@.skip(0) =~= snap.neuron_pairs@);
    lemma_restore_pairs_prefix(snap.neuron_pairs@, sv, 0);
}

proof fn lemma_restore_pairs_prefix(snaps_all: Seq<PairSnapshot>, sv: StateView, k: int)
    requires
        state_wf(sv),
        snapshot_matches_pairs(snaps_all, sv.pairs),
        0 <= k <= sv.pairs.len(),
    ensures
        restore_pairs_spec(sv.pairs.take(k), snaps_all.skip(k)) == sv.pairs,
    decreases sv.pairs.len() - k,
{
    let snaps = snaps_all.skip(k);
    if k == sv.pairs.len() {
        assert(snaps =~= Seq::<PairSnapshot>::empty());
        assert(sv.pairs.take(k) =~= sv.pairs);
    } else {
        let ps = snaps_all[k];
        assert(snaps[0] == ps);
        let p = snapshot_pair_view(ps);
        assert(p.seen == sv.pairs[k].seen) by {
            lemma_seen_restore_sorted(Seq::<u64>::empty(), ps.already_seen_nns_votes@);
            assert(Seq::<u64>::empty() + ps.already_seen_nns_votes@
                =~= ps.already_seen_nns_votes@);
        }
        assert(p =~= sv.pairs[k]);
        assert(!has_pair(sv.pairs.take(k), p.id)) by {
            if has_pair(sv.pairs.take(k), p.id) {
                let j = choose|j: int|
                    0 <= j < sv.pairs.take(k).len() && sv.pairs.take(k)[j].id == p.id;
                assert(sv.pairs[j].id == sv.pairs[k].id);
            }
        }
        assert(snaps.drop_first() =~= snaps_all.skip(k + 1));
        assert(sv.pairs.take(k).push(p) =~= sv.pairs.take(k + 1));
        lemma_restore_pairs_prefix(snaps_all, sv, k + 1);
    }
}

/// A mutable borrow of one vector element.
fn vec_element_mut<T>(v: &mut Vec<T>, i: usize) -> (element: &mut T)
    requires
        0 <= i < old(v).len(),
    ensures
        *element == old(v)@[i as int],
        final(v)@ == old(v)@.update(i as int, *final(element)),
{
    &mut v[i]
}

/// In a registry with unique ids, any position holding the id is the
/// pair's index.
pub proof fn lemma_unique_pair_index(pairs: Seq<PairView>, id: u64, i: int)
    requires
        forall|a: int, b: int| 0 <= a < b < pairs.len() ==> pairs[a].id != pairs[b].id,
        0 <= i < pairs.len(),
        pairs[i].id == id,
    ensures
        has_pair(pairs, id),
        pair_index(pairs, id) == i,
{
    assert(has_pair(pairs, id));
    let c = pair_index(pairs, id);
    if c != i {
        if c < i {
            assert(pairs[c].id != pairs[i].id);
        } else {
            assert(pairs[i].id != pairs[c].id);
        }
    }
}

/// Removing a pair keeps ids unique and pairs well formed.
proof fn lemma_remove_preserves_wf(pairs: Seq<PairView>, i: int)
    requires
        0 <= i < pairs.len(),
        forall|a: int, b: int| 0 <= a < b < pairs.len() ==> pairs[a].id != pairs[b].id,
        forall|a: int| 0 <= a < pairs.len() ==> pair_view_wf(#[trigger] pairs[a]),
    ensures
        forall|a: int, b: int|
            0 <= a < b < pairs.remove(i).len() ==> pairs.remove(i)[a].id != pairs.remove(i)[b].id,
        forall|a: int| 0 <= a < pairs.remove(i).len() ==> pair_view_wf(#[trigger] pairs.remove(i)[a]),
{
    let r = pairs.remove(i);
    assert forall|a: int, b: int| 0 <= a < b < r.len() implies r[a].id != r[b].id by {
        let oa = if a < i {
            a
        } else {
            a + 1
        };
        let ob = if b < i {
            b
        } else {
            b + 1
        };
        assert(r[a] == pairs[oa] && r[b] == pairs[ob]);
    }
    assert forall|a: int| 0 <= a < r.len() implies pair_view_wf(#[trigger] r[a]) by {
        let oa = if a < i {
            a
        } else {
            a + 1
        };
        assert(r[a] == pairs[oa]);
    }
}

/// Updating a pair in place, keeping its id, preserves well-formedness of
/// the registry provided the new pair is well formed.
proof fn lemma_update_same_id_preserves_wf(s: StateView, i: int, p2: PairView)
    requires
        state_wf(s),
        0 <= i < s.pairs.len(),
        p2.id == s.pairs[i].id,
        pair_view_wf(p2),
    ensures
        forall|a: int, b: int|
            0 <= a < b < s.pairs.update(i, p2).len() ==> s.pairs.update(i, p2)[a].id != s.pairs.update(
                i,
                p2,
            )[b].id,
        forall|a: int|
            0 <= a < s.pairs.update(i, p2).len() ==> pair_view_wf(#[trigger] s.pairs.update(i, p2)[a]),
{
    let r = s.pairs.update(i, p2);
    assert forall|a: int, b: int| 0 <= a < b < r.len() implies r[a].id != r[b].id by {
        assert(s.pairs[a].id != s.pairs[b].id);
    }
    assert forall|a: int| 0 <= a < r.len() implies pair_view_wf(#[trigger] r[a]) by {
        if a != i {
            assert(r[a] == s.pairs[a]);
        }
    }
}

/// Idempotent-registration law: registering a triple yields its derived
/// id; immediately re-registering the same triple is rejected and leaves
/// the state exactly as it was after the first call.
pub proof fn lemma_registration_idempotent(
    s: StateView,
    admin: Seq<u8>,
    name: Seq<char>,
    nns_neuron_id: u64,
    wtn_neuron_id: Seq<u8>,
)
    requires
        state_wf(s),
    ensures
        ({
            let id = spec_pair_id(admin, nns_neuron_id, wtn_neuron_id);
            let (s1, r1) = register_spec(s, admin, name, nns_neuron_id, wtn_neuron_id);
            let (s2, r2) = register_spec(s1, admin, name, nns_neuron_id, wtn_neuron_id);
            &&& (!has_pair(s.pairs, id) ==> r1 == Some(id))
            &&& r2 is None
            &&& s2 == s1
        }),
{
    let id = spec_pair_id(admin, nns_neuron_id, wtn_neuron_id);
    let (s1, r1) = register_spec(s, admin, name, nns_neuron_id, wtn_neuron_id);
    if !has_pair(s.pairs, id) {
        let n = s.pairs.len() as int;
        assert(s1.pairs[n].id == id);
        assert(has_pair(s1.pairs, id));
    }
}

/// Everything a filter keeps was in the original sequence.
proof fn lemma_filter_subset(s: Seq<VoteToProcess>, pred: spec_fn(VoteToProcess) -> bool)
    ensures
        forall|i: int| 0 <= i < s.filter(pred).len() ==> s.contains(#[trigger] s.filter(pred)[i]),
    decreases s.len(),
{
    reveal(Seq::filter);
    if s.len() > 0 {
        lemma_filter_subset(s.drop_last(), pred);
        let f = s.filter(pred);
        let fd = s.drop_last().filter(pred);
        assert forall|i: int| 0 <= i < f.len() implies s.contains(f[i]) by {
            if pred(s.last()) && i == f.len() - 1 {
                assert(f[i] == s.last());
                assert(s[s.len() - 1] == s.last());
            } else {
                assert(f[i] == fd[i]);
                assert(s.drop_last().contains(fd[i]));
                let j = choose|j: int| 0 <= j < s.drop_last().len() && s.drop_last()[j] == fd[i];
                assert(s[j] == fd[i]);
            }
        }
    }
}

/// Deregistration-purge law: a successful deregistration removes the pair,
/// and the queue afterwards holds exactly the items of other pairs, in
/// their old order — every item referencing the deregistered pair is gone,
/// nothing else is touched.
pub proof fn lemma_deregistration_purge(s: StateView, caller: Seq<u8>, pair_id: u64)
    requires
        state_wf(s),
    ensures
        ({
            let (s1, ok) = deregister_spec(s, caller, pair_id);
            &&& (ok ==> !has_pair(s1.pairs, pair_id))
            &&& (ok ==> forall|i: int|
                0 <= i < s1.queue.len() ==> (#[trigger] s1.queue[i]).spec_pair_id() != pair_id)
            &&& (ok ==> forall|i: int|
                0 <= i < s1.queue.len() ==> s.queue.contains(#[trigger] s1.queue[i]))
            &&& (ok ==> forall|i: int|
                0 <= i < s.queue.len() && (#[trigger] s.queue[i]).spec_pair_id() != pair_id
                    ==> s1.queue.contains(s.queue[i]))
        }),
{
    broadcast use vstd::prelude::Seq::lemma_filter_pred;
    broadcast use vstd::prelude::Seq::lemma_filter_contains;

    let (s1, ok) = deregister_spec(s, caller, pair_id);
    if ok {
        let idx = pair_index(s.pairs, pair_id);
        assert(!has_pair(s1.pairs, pair_id)) by {
            if has_pair(s1.pairs, pair_id) {
                let k = choose|k: int| 0 <= k < s1.pairs.len() && s1.pairs[k].id == pair_id;
                let ok_idx = if k < idx {
                    k
                } else {
                    k + 1
                };
                assert(s1.pairs[k] == s.pairs[ok_idx]);
                assert(s.pairs[idx].id == pair_id);
                assert(ok_idx != idx);
            }
        }
        let pred = |v: VoteToProcess| v.spec_pair_id() != pair_id;
        assert(s1.queue == s.queue.filter(pred));
        lemma_filter_subset(s.queue, pred);
        assert forall|i: int| 0 <= i < s1.queue.len() implies (#[trigger] s1.queue[i]).spec_pair_id()
            != pair_id by {
            assert(pred(s1.queue[i]));
        }
    }
}

/// Dedup law: offering the same source vote to the same pair twice
/// enqueues exactly one work item — the first offer enqueues it only when
/// newly seen, and the second offer never does. (When the pair's seen-set
/// is full, an id smaller than all retained ids may be evicted at once and
/// would be treated as new again; the law therefore speaks of a seen-set
/// below its cap.)
pub proof fn lemma_vote_dedup(s: StateView, pair_id: u64, vote: NnsVote)
    requires
        state_wf(s),
        has_pair(s.pairs, pair_id),
        pair_at(s.pairs, pair_id).seen.len() < SEEN_VOTES_CAP,
    ensures
        ({
            let s1 = record_nns_vote_spec(s, pair_id, vote);
            let s2 = record_nns_vote_spec(s1, pair_id, vote);
            &&& (!pair_at(s.pairs, pair_id).seen.contains(vote.proposal_id) ==> s1.queue
                == s.queue.push(VoteToProcess::NnsVote(pair_id, vote)))
            &&& (pair_at(s.pairs, pair_id).seen.contains(vote.proposal_id) ==> s1.queue == s.queue)
            &&& s2.queue == s1.queue
        }),
{
    let i = pair_index(s.pairs, pair_id);
    let p = s.pairs[i];
    let p2 = PairView { seen: seen_after_insert(p.seen, vote.proposal_id), ..p };
    let s1 = record_nns_vote_spec(s, pair_id, vote);
    crate::seen_votes::lemma_insert_sorted_props(p.seen, vote.proposal_id);
    assert(crate::seen_votes::insert_sorted(p.seen, vote.proposal_id).len() <= SEEN_VOTES_CAP);
    assert(p2.seen == crate::seen_votes::insert_sorted(p.seen, vote.proposal_id));
    assert(p2.seen.contains(vote.proposal_id));
    assert(s1.pairs == s.pairs.update(i, p2));
    lemma_unique_pair_index(s1.pairs, pair_id, i);
    assert(pair_index(s1.pairs, pair_id) == i);
    assert(s1.pairs[i] == p2);
}

} // verus!
