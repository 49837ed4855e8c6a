//! The vote processing engine's decision logic: one queued work item at a
//! time is translated (source vote → target vote, through the mapping
//! cache and, on a miss, a remote resolution call) or relayed (target vote
//! → remote relay call). The remote calls themselves are issued by the
//! surrounding runtime; this module takes their outcomes as values and is
//! verified for every possible outcome. Every failure path ends in either
//! "retry by re-enqueue" or "drop as terminal", so a failing item never
//! halts the queue.

use crate::proposal_cache::cache_lookup;
use crate::state::{
    has_pair, pair_at, pair_index, pop_vote_spec, push_vote_spec, record_mapping_spec,
    record_wtn_vote_registered_spec, state_wf, State, StateView,
};
use crate::{NnsVote, VoteToProcess, WtnVote};
use vstd::prelude::*;

verus! {

/// What the mapping resolver answered for a source proposal id.
#[derive(Clone, Copy, Debug)]
pub enum MappingOutcome {
    /// The id of the corresponding target proposal.
    Resolved(u64),
    /// No mapping yet; the resolver's highest fully processed source
    /// proposal id is carried so the engine can tell "not yet available"
    /// (watermark below the requested id) from "definitively absent".
    NotCaughtUp(u64),
    /// The call itself failed (transport error).
    RemoteError,
}

/// What the relay call to the target governance service answered.
#[derive(Debug)]
pub enum RelayOutcome {
    /// The vote was registered.
    Ack,
    /// The service explicitly rejected the relay.
    Rejected(i32, String),
    /// The call itself failed (transport error).
    RemoteError,
}

/// The plain contents of a relay request, ready to be addressed to the
/// target governance service.
#[derive(Debug)]
pub struct RelayRequest {
    /// The pair's target neuron, as the request's subaccount bytes.
    pub subaccount: Vec<u8>,
    /// The target proposal being voted on.
    pub wtn_proposal_id: u64,
    /// The decision encoding the service expects: 1 to adopt, 2 to reject.
    pub vote: i32,
}

/// The target vote a source vote translates to, once its proposal mapping
/// is known.
pub open spec fn translated_vote(vote: NnsVote, wtn_proposal_id: u64) -> WtnVote {
    WtnVote { nns_proposal_id: vote.proposal_id, wtn_proposal_id, adopt: vote.adopt }
}

/// The state after a dequeued source vote consulted the cache, with
/// whether a remote resolution call is still needed: a positive hit
/// enqueues the translated vote, a negative hit drops the item for good,
/// and a miss leaves the state alone and asks for resolution.
pub open spec fn handle_nns_vote_spec(s: StateView, pair_id: u64, vote: NnsVote) -> (
    StateView,
    bool,
) {
    match cache_lookup(s.cache, vote.proposal_id) {
        Some(Some(wtn_id)) => (
            push_vote_spec(
                s,
                VoteToProcess::PendingWtnVote(pair_id, translated_vote(vote, wtn_id)),
            ),
            false,
        ),
        Some(None) => (s, false),
        None => (s, true),
    }
}

/// The state after the resolver's answer for a dequeued source vote is
/// applied: a resolution caches the mapping and enqueues the translated
/// vote; a caught-up resolver without a match caches the confirmed absence
/// and drops the item; an answer that is merely not yet available, like a
/// failed call, re-enqueues the item unchanged and caches nothing.
pub open spec fn apply_mapping_outcome_spec(
    s: StateView,
    pair_id: u64,
    vote: NnsVote,
    outcome: MappingOutcome,
) -> StateView {
    match outcome {
        MappingOutcome::Resolved(wtn_id) => push_vote_spec(
            record_mapping_spec(s, vote.proposal_id, Some(wtn_id)),
            VoteToProcess::PendingWtnVote(pair_id, translated_vote(vote, wtn_id)),
        ),
        MappingOutcome::NotCaughtUp(watermark) => if watermark >= vote.proposal_id {
            record_mapping_spec(s, vote.proposal_id, None)
        } else {
            push_vote_spec(s, VoteToProcess::NnsVote(pair_id, vote))
        },
        MappingOutcome::RemoteError => push_vote_spec(s, VoteToProcess::NnsVote(pair_id, vote)),
    }
}

/// The state after the relay call's outcome for a dequeued target vote is
/// applied: an acknowledgement records the vote on the pair's history; a
/// rejection or a failed call re-enqueues the item unchanged for a later
/// retry.
pub open spec fn apply_relay_outcome_spec(
    s: StateView,
    pair_id: u64,
    vote: WtnVote,
    outcome: RelayOutcome,
) -> StateView {
    match outcome {
        RelayOutcome::Ack => record_wtn_vote_registered_spec(s, pair_id, vote),
        RelayOutcome::Rejected(_, _) => push_vote_spec(
            s,
            VoteToProcess::PendingWtnVote(pair_id, vote),
        ),
        RelayOutcome::RemoteError => push_vote_spec(s, VoteToProcess::PendingWtnVote(pair_id, vote)),
    }
}

/// Consults the mapping cache for a dequeued source vote; returns whether
/// the caller must issue a remote resolution call (and then apply its
/// outcome through [`apply_mapping_outcome`]).
pub fn handle_nns_vote(state: &mut State, pair_id: u64, vote: NnsVote) -> (needs_resolution: bool)
    requires
        old(state).wf(),
    ensures
        final(state).wf(),
        final(state)@ == handle_nns_vote_spec(old(state)@, pair_id, vote).0,
        needs_resolution == handle_nns_vote_spec(old(state)@, pair_id, vote).1,
{
    match state.get_cached_wtn_proposal_for_nns_proposal(vote.proposal_id) {
        Some(Some(wtn_proposal_id)) => {
            let translated = WtnVote {
                nns_proposal_id: vote.proposal_id,
                wtn_proposal_id,
                adopt: vote.adopt,
            };
            state.push_vote_to_process(VoteToProcess::PendingWtnVote(pair_id, translated));
            false
        },
        Some(None) => false,
        None => true,
    }
}

/// Applies the resolver's answer for a dequeued source vote.
pub fn apply_mapping_outcome(state: &mut State, pair_id: u64, vote: NnsVote, outcome: MappingOutcome)
    requires
        old(state).wf(),
    ensures
        final(state).wf(),
        final(state)@ == apply_mapping_outcome_spec(old(state)@, pair_id, vote, outcome),
{
    match outcome {
        MappingOutcome::Resolved(wtn_proposal_id) => {
            state.record_wtn_proposal_for_nns_proposal(vote.proposal_id, Some(wtn_proposal_id));
            let translated = WtnVote {
                nns_proposal_id: vote.proposal_id,
                wtn_proposal_id,
                adopt: vote.adopt,
            };
            state.push_vote_to_process(VoteToProcess::PendingWtnVote(pair_id, translated));
        },
        MappingOutcome::NotCaughtUp(watermark) => {
            if watermark >= vote.proposal_id {
                state.record_wtn_proposal_for_nns_proposal(vote.proposal_id, None);
            } else {
                state.push_vote_to_process(VoteToProcess::NnsVote(pair_id, vote));
            }
        },
        MappingOutcome::RemoteError => {
            state.push_vote_to_process(VoteToProcess::NnsVote(pair_id, vote));
        },
    }
}

/// Builds the relay request for a dequeued target vote: the pair's target
/// neuron as the subaccount and the decision encoded as the service
/// expects. Returns `None` exactly when the pair no longer exists (it was
/// deregistered while the item was queued); the item is then dropped
/// silently.
pub fn prepare_relay(state: &State, pair_id: u64, vote: &WtnVote) -> (r: Option<RelayRequest>)
    requires
        state.wf(),
    ensures
        r is Some <==> has_pair(state@.pairs, pair_id),
        r is Some ==> ({
            let req = r.unwrap();
            &&& req.subaccount@ == pair_at(state@.pairs, pair_id).wtn_neuron_id
            &&& req.wtn_proposal_id == vote.wtn_proposal_id
            &&& req.vote == (if vote.adopt {
                1i32
            } else {
                2i32
            })
        }),
{
    let i = match state.find_pair(pair_id) {
        Some(i) => i,
        None => {
            return None;
        },
    };
    let pairs = state.neuron_pairs();
    let neuron_id: [u8; 32] = pairs[i].wtn_neuron_id();
    assert(neuron_id@ == pair_at(state@.pairs, pair_id).wtn_neuron_id) by {
        assert(pairs@[i as int]@ == state@.pairs[i as int]);
    }
    let mut subaccount: Vec<u8> = Vec::new();
    let mut k: usize = 0;
    while k < 32
        invariant
            0 <= k <= 32,
            subaccount@ == neuron_id@.take(k as int),
        decreases 32 - k,
    {
        subaccount.push(neuron_id[k]);
        assert(subaccount@ =~= neuron_id@.take(k + 1));
        k = k + 1;
    }
    assert(neuron_id@.take(32) =~= neuron_id@);
    Some(
        RelayRequest {
            subaccount,
            wtn_proposal_id: vote.wtn_proposal_id,
            vote: if vote.adopt {
                1
            } else {
                2
            },
        },
    )
}

/// Applies the relay call's outcome for a dequeued target vote.
pub fn apply_relay_outcome(state: &mut State, pair_id: u64, vote: WtnVote, outcome: RelayOutcome)
    requires
        old(state).wf(),
    ensures
        final(state).wf(),
        final(state)@ == apply_relay_outcome_spec(old(state)@, pair_id, vote, outcome),
{
    match outcome {
        RelayOutcome::Ack => {
            state.record_wtn_vote_registered(pair_id, vote);
        },
        RelayOutcome::Rejected(_, _) => {
            state.push_vote_to_process(VoteToProcess::PendingWtnVote(pair_id, vote));
        },
        RelayOutcome::RemoteError => {
            state.push_vote_to_process(VoteToProcess::PendingWtnVote(pair_id, vote));
        },
    }
}

/// An answer that neither resolves the mapping nor confirms its absence:
/// the resolver has not caught up to the requested id, or the call failed.
pub open spec fn non_definitive(vote: NnsVote, outcome: MappingOutcome) -> bool {
    match outcome {
        MappingOutcome::Resolved(_) => false,
        MappingOutcome::NotCaughtUp(watermark) => watermark < vote.proposal_id,
        MappingOutcome::RemoteError => true,
    }
}

/// The state after a run of drain passes over a queue holding only this
/// source vote, each pass popping the item, asking the resolver, and
/// applying one of the given outcomes in turn.
pub open spec fn mapping_retry_trace(
    s: StateView,
    pair_id: u64,
    vote: NnsVote,
    outcomes: Seq<MappingOutcome>,
) -> StateView
    decreases outcomes.len(),
{
    if outcomes.len() == 0 {
        s
    } else {
        mapping_retry_trace(
            apply_mapping_outcome_spec(pop_vote_spec(s), pair_id, vote, outcomes[0]),
            pair_id,
            vote,
            outcomes.drop_first(),
        )
    }
}

/// Mapping-retry law: as long as every resolver answer is non-definitive,
/// any number of drain passes leaves the item queued and the cache and
/// registry untouched — the item is never dropped and never cached.
pub proof fn lemma_mapping_retry_loop(
    s: StateView,
    pair_id: u64,
    vote: NnsVote,
    outcomes: Seq<MappingOutcome>,
)
    requires
        s.queue == seq![VoteToProcess::NnsVote(pair_id, vote)],
        forall|k: int| 0 <= k < outcomes.len() ==> non_definitive(vote, #[trigger] outcomes[k]),
    ensures
        mapping_retry_trace(s, pair_id, vote, outcomes).queue == seq![
            VoteToProcess::NnsVote(pair_id, vote),
        ],
        mapping_retry_trace(s, pair_id, vote, outcomes).cache == s.cache,
        mapping_retry_trace(s, pair_id, vote, outcomes).pairs == s.pairs,
    decreases outcomes.len(),
{
    if outcomes.len() > 0 {
        let s1 = apply_mapping_outcome_spec(pop_vote_spec(s), pair_id, vote, outcomes[0]);
        assert(pop_vote_spec(s).queue =~= Seq::<VoteToProcess>::empty());
        assert(s1.queue =~= seq![VoteToProcess::NnsVote(pair_id, vote)]);
        lemma_mapping_retry_loop(s1, pair_id, vote, outcomes.drop_first());
    }
}

/// Mapping-resolution law: on the first pass where the resolver returns a
/// definitive mapping, the item leaves the mapping stage for good — the
/// translated target vote is the only queued item and the mapping is
/// cached.
pub proof fn lemma_mapping_resolved(s: StateView, pair_id: u64, vote: NnsVote, wtn_id: u64)
    requires
        s.queue == seq![VoteToProcess::NnsVote(pair_id, vote)],
    ensures
        ({
            let s1 = apply_mapping_outcome_spec(
                pop_vote_spec(s),
                pair_id,
                vote,
                MappingOutcome::Resolved(wtn_id),
            );
            &&& s1.queue == seq![
                VoteToProcess::PendingWtnVote(pair_id, translated_vote(vote, wtn_id)),
            ]
            &&& s1.cache == crate::proposal_cache::cache_after_insert(
                s.cache,
                crate::proposal_cache::CacheEntry {
                    nns_proposal_id: vote.proposal_id,
                    wtn_proposal_id: Some(wtn_id),
                },
            )
            &&& s1.pairs == s.pairs
        }),
{
    let s1 = apply_mapping_outcome_spec(
        pop_vote_spec(s),
        pair_id,
        vote,
        MappingOutcome::Resolved(wtn_id),
    );
    assert(pop_vote_spec(s).queue =~= Seq::<VoteToProcess>::empty());
    assert(s1.queue =~= seq![VoteToProcess::PendingWtnVote(pair_id, translated_vote(vote, wtn_id))]);
}

/// Relay-retry law: a target vote whose relay fails twice (rejection or
/// transport error, in any combination) and is acknowledged on the third
/// attempt ends with exactly one new entry on its pair's history and an
/// empty queue.
pub proof fn lemma_relay_retry_then_success(
    s: StateView,
    pair_id: u64,
    vote: WtnVote,
    first: RelayOutcome,
    second: RelayOutcome,
)
    requires
        state_wf(s),
        has_pair(s.pairs, pair_id),
        s.queue == seq![VoteToProcess::PendingWtnVote(pair_id, vote)],
        !(first is Ack),
        !(second is Ack),
    ensures
        ({
            let s1 = apply_relay_outcome_spec(pop_vote_spec(s), pair_id, vote, first);
            let s2 = apply_relay_outcome_spec(pop_vote_spec(s1), pair_id, vote, second);
            let s3 = apply_relay_outcome_spec(pop_vote_spec(s2), pair_id, vote, RelayOutcome::Ack);
            &&& s3.queue.len() == 0
            &&& pair_at(s3.pairs, pair_id).wtn_votes == pair_at(s.pairs, pair_id).wtn_votes.push(
                vote,
            )
            &&& forall|id: u64| id != pair_id ==> (has_pair(s3.pairs, id) <==> has_pair(s.pairs, id))
            &&& forall|id: u64|
                id != pair_id && has_pair(s.pairs, id) ==> pair_at(s3.pairs, id) == pair_at(
                    s.pairs,
                    id,
                )
        }),
{
    let item = VoteToProcess::PendingWtnVote(pair_id, vote);
    let s1 = apply_relay_outcome_spec(pop_vote_spec(s), pair_id, vote, first);
    assert(pop_vote_spec(s).queue =~= Seq::<VoteToProcess>::empty());
    assert(s1.queue =~= seq![item]);
    assert(s1.pairs == s.pairs);
    let s2 = apply_relay_outcome_spec(pop_vote_spec(s1), pair_id, vote, second);
    assert(pop_vote_spec(s1).queue =~= Seq::<VoteToProcess>::empty());
    assert(s2.queue =~= seq![item]);
    assert(s2.pairs == s.pairs);
    let s3 = apply_relay_outcome_spec(pop_vote_spec(s2), pair_id, vote, RelayOutcome::Ack);
    assert(pop_vote_spec(s2).queue =~= Seq::<VoteToProcess>::empty());
    let i = pair_index(s.pairs, pair_id);
    let p = s.pairs[i];
    let p2 = pair_with_history(p, vote);
    assert(s3.pairs == s.pairs.update(i, p2));
    crate::state::lemma_unique_pair_index(s.pairs, pair_id, i);
    crate::state::lemma_unique_pair_index(s3.pairs, pair_id, i);
    assert(pair_at(s3.pairs, pair_id) == p2);
    assert forall|id: u64| id != pair_id implies (has_pair(s3.pairs, id) <==> has_pair(
        s.pairs,
        id,
    )) by {
        if has_pair(s3.pairs, id) {
            let k = choose|k: int| 0 <= k < s3.pairs.len() && s3.pairs[k].id == id;
            assert(s.pairs[k].id == id);
        }
        if has_pair(s.pairs, id) {
            let k = choose|k: int| 0 <= k < s.pairs.len() && s.pairs[k].id == id;
            assert(s3.pairs[k].id == id);
        }
    }
    assert forall|id: u64| id != pair_id && has_pair(s.pairs, id) implies pair_at(s3.pairs, id)
        == pair_at(s.pairs, id) by {
        let k = pair_index(s.pairs, id);
        assert(k != i);
        assert(s3.pairs[k] == s.pairs[k]);
        crate::state::lemma_unique_pair_index(s3.pairs, id, k);
    }
}

/// The pair with one more relayed vote on its history.
spec fn pair_with_history(p: crate::neuron_pair::PairView, vote: WtnVote) -> crate::neuron_pair::PairView {
    crate::neuron_pair::PairView { wtn_votes: p.wtn_votes.push(vote), ..p }
}

} // verus!
