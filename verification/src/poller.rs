//! The poller's ingestion logic. On a fixed interval the runtime asks the
//! source governance service, per registered pair, for the recent ballots
//! of the pair's source neuron; this module turns the returned ballots into
//! source votes (ballots without a proposal reference cannot be relayed and
//! are discarded) and offers each to the pair's dedup filter, enqueuing
//! only the newly seen ones.

use crate::state::{record_nns_vote_spec, State, StateView};
use crate::NnsVote;
use vstd::prelude::*;

verus! {

/// One ballot as reported by the source governance service: the decision
/// encoding (1 means adopt) and, when present, the proposal voted on.
#[derive(Clone, Copy, Debug)]
pub struct Ballot {
    pub vote: i32,
    pub proposal_id: Option<u64>,
}

/// The source vote a ballot converts to: `None` exactly when the ballot
/// carries no proposal reference.
pub open spec fn spec_nns_vote_from_ballot(ballot: Ballot) -> Option<NnsVote> {
    match ballot.proposal_id {
        Some(id) => Some(NnsVote { proposal_id: id, adopt: ballot.vote == 1 }),
        None => None,
    }
}

/// Converts one ballot into a source vote, discarding ballots that carry no
/// proposal reference.
pub fn nns_vote_from_ballot(ballot: &Ballot) -> (r: Option<NnsVote>)
    ensures
        r == spec_nns_vote_from_ballot(*ballot),
{
    match ballot.proposal_id {
        Some(proposal_id) => Some(NnsVote { proposal_id, adopt: ballot.vote == 1 }),
        None => None,
    }
}

/// The state after a pair's returned ballots ran through conversion and the
/// dedup filter, in order.
pub open spec fn ingest_ballots_spec(s: StateView, pair_id: u64, ballots: Seq<Ballot>) -> StateView
    decreases ballots.len(),
{
    if ballots.len() == 0 {
        s
    } else {
        let s1 = match spec_nns_vote_from_ballot(ballots[0]) {
            Some(vote) => record_nns_vote_spec(s, pair_id, vote),
            None => s,
        };
        ingest_ballots_spec(s1, pair_id, ballots.drop_first())
    }
}

/// Offers each convertible ballot, in order, to the pair's dedup filter.
pub fn record_ballots(state: &mut State, pair_id: u64, ballots: &Vec<Ballot>)
    requires
        old(state).wf(),
    ensures
        final(state).wf(),
        final(state)@ == ingest_ballots_spec(old(state)@, pair_id, ballots@),
{
    let ghost s0 = old(state)@;
    let n = ballots.len();
    let mut i: usize = 0;
    proof {
        assert(ballots@.skip(0) =~= ballots@);
    }
    while i < n
        invariant
            state.wf(),
            n == ballots@.len(),
            0 <= i <= n,
            ingest_ballots_spec(s0, pair_id, ballots@) == ingest_ballots_spec(
                state@,
                pair_id,
                ballots@.skip(i as int),
            ),
        decreases n - i,
    {
        proof {
            assert(ballots@.skip(i as int).drop_first() =~= ballots@.skip(i + 1));
            assert(ballots@.skip(i as int)[0] == ballots@[i as int]);
        }
        if let Some(vote) = nns_vote_from_ballot(&ballots[i]) {
            state.record_nns_vote(pair_id, vote);
        }
        i = i + 1;
    }
    proof {
        assert(ballots@.skip(n as int) =~= Seq::<Ballot>::empty());
    }
}

} // verus!
