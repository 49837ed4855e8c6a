//! The single-flight drain discipline, as an explicit transition system.
//!
//! The runtime schedules at most one drain task at a time, governed by a
//! single holder flag: queuing a work item arms the task when none is
//! armed, and a drain pass first clears the flag and then pops exactly the
//! head item before processing it. [`State::push_vote_to_process`] and
//! [`State::pop_next_vote_to_process`] realize the queue effects of the two
//! transitions, per their contracts; the flag itself is one cell owned by
//! the runtime, so the model's single boolean is exact.
//!
//! The law proved here is conservation: under every interleaving of queuing
//! and drain passes, the items processed so far plus the items still queued
//! are exactly the items ever queued. In particular no interleaving of
//! drain passes can pop — and therefore process — any queue item more often
//! than it was enqueued: with the upstream dedup filter admitting each vote
//! once, no vote is processed twice.
//!
//! [`State::push_vote_to_process`]: crate::state::State::push_vote_to_process
//! [`State::pop_next_vote_to_process`]: crate::state::State::pop_next_vote_to_process

use crate::VoteToProcess;
use vstd::multiset::Multiset;
use vstd::prelude::*;

verus! {

/// Whether a drain task must be armed now: exactly when none is armed and
/// work is queued.
pub fn should_schedule_drain(drain_scheduled: bool, queued: usize) -> (r: bool)
    ensures
        r == (!drain_scheduled && queued > 0),
{
    !drain_scheduled && queued > 0
}

/// The scheduler-visible state: the queue, the holder flag, and the
/// history of items ever queued and ever popped for processing.
pub struct DrainModel {
    pub queue: Seq<VoteToProcess>,
    pub drain_scheduled: bool,
    pub pushed: Multiset<VoteToProcess>,
    pub processed: Multiset<VoteToProcess>,
}

/// One scheduling-relevant event.
pub enum DrainStep {
    /// A work item is appended (by the poller or by a retry path); the
    /// drain task is armed if it was not.
    Push(VoteToProcess),
    /// The armed drain task starts: it clears the flag, then pops the head
    /// item and processes it.
    RunStart,
}

/// A starting point: nothing processed yet, the queued items (perhaps
/// restored from a snapshot) being exactly the items ever queued.
pub open spec fn drain_init(m: DrainModel) -> bool {
    &&& m.pushed == m.queue.to_multiset()
    &&& m.processed == Multiset::<VoteToProcess>::empty()
}

/// A drain pass can only start while one is armed.
pub open spec fn step_enabled(m: DrainModel, step: DrainStep) -> bool {
    match step {
        DrainStep::Push(_) => true,
        DrainStep::RunStart => m.drain_scheduled,
    }
}

/// The effect of one event.
pub open spec fn drain_step(m: DrainModel, step: DrainStep) -> DrainModel {
    match step {
        DrainStep::Push(v) => DrainModel {
            queue: m.queue.push(v),
            drain_scheduled: true,
            pushed: m.pushed.insert(v),
            ..m
        },
        DrainStep::RunStart => if m.queue.len() == 0 {
            DrainModel { drain_scheduled: false, ..m }
        } else {
            DrainModel {
                queue: m.queue.drop_first(),
                drain_scheduled: false,
                processed: m.processed.insert(m.queue[0]),
                ..m
            }
        },
    }
}

/// The state after a whole interleaving of events.
pub open spec fn drain_trace(m: DrainModel, steps: Seq<DrainStep>) -> DrainModel
    decreases steps.len(),
{
    if steps.len() == 0 {
        m
    } else {
        drain_trace(drain_step(m, steps[0]), steps.drop_first())
    }
}

/// Every event of the interleaving is enabled when it fires.
pub open spec fn trace_enabled(m: DrainModel, steps: Seq<DrainStep>) -> bool
    decreases steps.len(),
{
    if steps.len() == 0 {
        true
    } else {
        step_enabled(m, steps[0]) && trace_enabled(drain_step(m, steps[0]), steps.drop_first())
    }
}

/// Conservation: processed plus still-queued is exactly ever-queued.
pub open spec fn conserved(m: DrainModel) -> bool {
    m.processed.add(m.queue.to_multiset()) == m.pushed
}

proof fn lemma_step_preserves_conservation(m: DrainModel, step: DrainStep)
    requires
        conserved(m),
        step_enabled(m, step),
    ensures
        conserved(drain_step(m, step)),
{
    broadcast use vstd::multiset::group_multiset_axioms;

    m.queue.to_multiset_ensures();
    match step {
        DrainStep::Push(v) => {
            let m2 = drain_step(m, step);
            assert(m2.queue.to_multiset() =~= m.queue.to_multiset().insert(v));
            assert(m2.processed.add(m2.queue.to_multiset()) =~= m2.pushed);
        },
        DrainStep::RunStart => {
            if m.queue.len() > 0 {
                let h = m.queue[0];
                let m2 = drain_step(m, step);
                assert(m.queue.drop_first() =~= m.queue.remove(0));
                assert(m2.queue.to_multiset() =~= m.queue.to_multiset().remove(h));
                assert(m.queue.contains(h));
                assert(m.queue.to_multiset().count(h) > 0);
                assert(m2.processed.add(m2.queue.to_multiset()) =~= m2.pushed);
            }
        },
    }
}

proof fn lemma_trace_preserves_conservation(m: DrainModel, steps: Seq<DrainStep>)
    requires
        conserved(m),
        trace_enabled(m, steps),
    ensures
        conserved(drain_trace(m, steps)),
    decreases steps.len(),
{
    if steps.len() > 0 {
        lemma_step_preserves_conservation(m, steps[0]);
        lemma_trace_preserves_conservation(drain_step(m, steps[0]), steps.drop_first());
    }
}

/// Single-flight law: from any starting point, under any interleaving of
/// queuing and drain passes, the items processed so far plus the items
/// still queued are exactly the items ever queued — so no queue item is
/// ever processed more often than it was enqueued.
pub proof fn lemma_single_flight_conservation(m: DrainModel, steps: Seq<DrainStep>)
    requires
        drain_init(m),
        trace_enabled(m, steps),
    ensures
        conserved(drain_trace(m, steps)),
        forall|v: VoteToProcess|
            drain_trace(m, steps).processed.count(v) <= drain_trace(m, steps).pushed.count(v),
{
    broadcast use vstd::multiset::group_multiset_axioms;

    assert(conserved(m)) by {
        assert(m.processed.add(m.queue.to_multiset()) =~= m.pushed);
    }
    lemma_trace_preserves_conservation(m, steps);
    let end = drain_trace(m, steps);
    assert forall|v: VoteToProcess| end.processed.count(v) <= end.pushed.count(v) by {
        assert(end.processed.add(end.queue.to_multiset()).count(v) == end.processed.count(v)
            + end.queue.to_multiset().count(v));
    }
}

} // verus!
