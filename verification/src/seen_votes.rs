//! The per-pair record of source proposal ids already observed, used purely
//! for deduplication. It is a sorted set of ids capped at 1000 entries;
//! when the cap is exceeded the numerically smallest ids are evicted first.
//! Proposal ids grow monotonically on the source system, so evicting the
//! smallest approximates evicting the oldest.

use vstd::prelude::*;

verus! {

/// Upper bound on how many seen proposal ids one pair retains.
pub const SEEN_VOTES_CAP: usize = 1000;

/// A sequence of ids in strictly increasing order.
pub open spec fn sorted_strict(s: Seq<u64>) -> bool {
    forall|i: int, j: int| 0 <= i < j < s.len() ==> s[i] < s[j]
}

/// Insertion into a sorted sequence; inserting a present id is a no-op.
pub open spec fn insert_sorted(s: Seq<u64>, v: u64) -> Seq<u64>
    decreases s.len(),
{
    if s.len() == 0 {
        seq![v]
    } else if v < s[0] {
        seq![v] + s
    } else if v == s[0] {
        s
    } else {
        seq![s[0]] + insert_sorted(s.drop_first(), v)
    }
}

/// Drops the smallest elements of a sorted sequence until at most `cap`
/// remain.
pub open spec fn prune_smallest(s: Seq<u64>, cap: int) -> Seq<u64> {
    if s.len() <= cap {
        s
    } else {
        s.skip(s.len() - cap)
    }
}

/// The seen-set after recording one id: sorted insertion followed by
/// eviction of the smallest ids down to the cap.
pub open spec fn seen_after_insert(s: Seq<u64>, v: u64) -> Seq<u64> {
    prune_smallest(insert_sorted(s, v), SEEN_VOTES_CAP as int)
}

/// The ordered set of proposal ids a pair has already seen.
#[derive(Debug)]
pub struct SeenVotes {
    ids: Vec<u64>,
}

impl View for SeenVotes {
    type V = Seq<u64>;

    closed spec fn view(&self) -> Seq<u64> {
        self.ids@
    }
}

impl SeenVotes {
    /// Ids are strictly increasing and no more than the cap are held.
    pub open spec fn wf(&self) -> bool {
        &&& sorted_strict(self@)
        &&& self@.len() <= SEEN_VOTES_CAP
    }

    pub fn new() -> (r: SeenVotes)
        ensures
            r.wf(),
            r@ == Seq::<u64>::empty(),
    {
        let r = SeenVotes { ids: Vec::new() };
        proof {
            assert(r@ =~= Seq::<u64>::empty());
        }
        r
    }

    pub fn len(&self) -> (r: usize)
        ensures
            r == self@.len(),
    {
        self.ids.len()
    }

    pub fn contains(&self, v: u64) -> (r: bool)
        requires
            self.wf(),
        ensures
            r == self@.contains(v),
    {
        let n = self.ids.len();
        let mut i: usize = 0;
        while i < n
            invariant
                n == self@.len(),
                0 <= i <= n,
                forall|j: int| 0 <= j < i ==> self@[j] != v,
            decreases n - i,
        {
            if self.ids[i] == v {
                return true;
            }
            i = i + 1;
        }
        false
    }

    /// Records `v`; returns whether it had not been seen before. Inserting
    /// may evict the smallest ids so that at most the cap remain.
    pub fn insert(&mut self, v: u64) -> (is_new: bool)
        requires
            old(self).wf(),
        ensures
            final(self).wf(),
            final(self)@ == seen_after_insert(old(self)@, v),
            is_new == !old(self)@.contains(v),
    {
        let ghost s0 = self@;
        let n = self.ids.len();
        let mut i: usize = 0;
        while i < n && self.ids[i] < v
            invariant
                n == self.ids@.len(),
                0 <= i <= n,
                self@ == s0,
                sorted_strict(s0),
                forall|j: int| 0 <= j < i ==> s0[j] < v,
            decreases n - i,
        {
            i = i + 1;
        }
        assert(i < s0.len() ==> s0[i as int] >= v);
        proof {
            lemma_insert_sorted_at(s0, v, i as int);
        }
        if i < n && self.ids[i] == v {
            proof {
                assert(insert_sorted(s0, v) == s0);
                assert(prune_smallest(s0, SEEN_VOTES_CAP as int) == s0);
                assert(s0.contains(v));
            }
            return false;
        }
        assert(!s0.contains(v)) by {
            if s0.contains(v) {
                let k = choose|k: int| 0 <= k < s0.len() && s0[k] == v;
                assert(k >= i);
                assert(i < s0.len() && k > i ==> s0[i as int] < s0[k]);
            }
        }
        self.ids.insert(i, v);
        let ghost t = insert_sorted(s0, v);
        proof {
            assert(self.ids@ =~= t);
            lemma_insert_sorted_props(s0, v);
        }
        while self.ids.len() > SEEN_VOTES_CAP
            invariant
                sorted_strict(t),
                t.len() <= SEEN_VOTES_CAP + 1,
                self.ids@ == t.skip(t.len() - self.ids@.len()),
                self.ids@.len() <= t.len(),
                self.ids@.len() >= SEEN_VOTES_CAP || self.ids@.len() == t.len(),
            decreases self.ids@.len(),
        {
            let ghost k = t.len() - self.ids@.len();
            self.ids.remove(0);
            proof {
                assert(t.skip(k).drop_first() =~= t.skip(k + 1));
                assert(self.ids@ =~= t.skip(k + 1));
            }
        }
        proof {
            if t.len() <= SEEN_VOTES_CAP {
                assert(t.skip(0) =~= t);
                assert(self.ids@ == t);
            }
            assert(self.ids@ =~= prune_smallest(t, SEEN_VOTES_CAP as int));
            assert(sorted_strict(self.ids@)) by {
                lemma_suffix_sorted(t, t.len() - self.ids@.len());
            }
        }
        true
    }
}

/// The seen-set rebuilt by recording a run of ids, oldest first.
pub open spec fn seen_restore(acc: Seq<u64>, ids: Seq<u64>) -> Seq<u64>
    decreases ids.len(),
{
    if ids.len() == 0 {
        acc
    } else {
        seen_restore(seen_after_insert(acc, ids[0]), ids.drop_first())
    }
}

impl SeenVotes {
    /// A copy of the retained ids, smallest first.
    pub fn to_vec(&self) -> (r: Vec<u64>)
        ensures
            r@ == self@,
    {
        let n = self.ids.len();
        let mut r: Vec<u64> = Vec::new();
        let mut i: usize = 0;
        while i < n
            invariant
                n == self.ids@.len(),
                0 <= i <= n,
                r@ == self@.take(i as int),
            decreases n - i,
        {
            r.push(self.ids[i]);
            assert(r@ =~= self@.take(i + 1));
            i = i + 1;
        }
        proof {
            assert(self@.take(n as int) =~= self@);
        }
        r
    }
}

/// A suffix of a sorted sequence is sorted.
proof fn lemma_suffix_sorted(s: Seq<u64>, k: int)
    requires
        sorted_strict(s),
        0 <= k <= s.len(),
    ensures
        sorted_strict(s.skip(k)),
{
}

/// Sorted insertion keeps the sequence sorted, adds exactly the new id, and
/// grows the length by one when the id is new.
pub proof fn lemma_insert_sorted_props(s: Seq<u64>, v: u64)
    requires
        sorted_strict(s),
    ensures
        sorted_strict(insert_sorted(s, v)),
        insert_sorted(s, v).contains(v),
        forall|x: u64| insert_sorted(s, v).contains(x) <==> (s.contains(x) || x == v),
        insert_sorted(s, v).len() == if s.contains(v) {
            s.len()
        } else {
            s.len() + 1
        },
    decreases s.len(),
{
    if s.len() == 0 {
        assert(insert_sorted(s, v) == seq![v]);
        assert(seq![v][0] == v);
        assert(!s.contains(v));
        assert forall|x: u64| insert_sorted(s, v).contains(x) implies (s.contains(x) || x == v) by {
            let k = choose|k: int| 0 <= k < seq![v].len() && seq![v][k] == x;
            assert(k == 0);
        }
    } else if v < s[0] {
        let r = seq![v] + s;
        assert(r[0] == v);
        assert(r.contains(v));
        assert forall|x: u64| r.contains(x) implies (s.contains(x) || x == v) by {
            let k = choose|k: int| 0 <= k < r.len() && r[k] == x;
            if k > 0 {
                assert(s[k - 1] == x);
            }
        }
        assert forall|x: u64| s.contains(x) || x == v implies r.contains(x) by {
            if x == v {
                assert(r[0] == x);
            } else {
                let k = choose|k: int| 0 <= k < s.len() && s[k] == x;
                assert(r[k + 1] == x);
            }
        }
        assert(!s.contains(v)) by {
            if s.contains(v) {
                let k = choose|k: int| 0 <= k < s.len() && s[k] == v;
                assert(k == 0 || s[0] < s[k]);
            }
        }
    } else if v == s[0] {
        assert(s.contains(v)) by {
            assert(s[0] == v);
        }
    } else {
        let rest = s.drop_first();
        assert(sorted_strict(rest));
        lemma_insert_sorted_props(rest, v);
        let r = seq![s[0]] + insert_sorted(rest, v);
        assert(insert_sorted(s, v) == r);
        let ir = insert_sorted(rest, v);
        assert forall|i: int, j: int| 0 <= i < j < r.len() implies r[i] < r[j] by {
            if i == 0 {
                assert(r[0] == s[0]);
                assert(ir.contains(r[j])) by {
                    assert(ir[j - 1] == r[j]);
                }
                if r[j] == v {
                    assert(s[0] < v);
                } else {
                    assert(rest.contains(r[j]));
                    let k = choose|k: int| 0 <= k < rest.len() && rest[k] == r[j];
                    assert(s[k + 1] == r[j]);
                    assert(s[0] < s[k + 1]);
                }
            } else {
                assert(r[i] == ir[i - 1] && r[j] == ir[j - 1]);
            }
        }
        assert(r.contains(v)) by {
            let k = choose|k: int| 0 <= k < ir.len() && ir[k] == v;
            assert(r[k + 1] == v);
        }
        assert forall|x: u64| r.contains(x) implies (s.contains(x) || x == v) by {
            let k = choose|k: int| 0 <= k < r.len() && r[k] == x;
            if k == 0 {
                assert(s[0] == x);
            } else {
                assert(ir[k - 1] == x);
                assert(ir.contains(x));
                if x != v {
                    assert(rest.contains(x));
                    let m = choose|m: int| 0 <= m < rest.len() && rest[m] == x;
                    assert(s[m + 1] == x);
                }
            }
        }
        assert forall|x: u64| s.contains(x) || x == v implies r.contains(x) by {
            if x == v {
            } else {
                let k = choose|k: int| 0 <= k < s.len() && s[k] == x;
                if k == 0 {
                    assert(r[0] == x);
                } else {
                    assert(rest[k - 1] == x);
                    assert(rest.contains(x));
                    assert(ir.contains(x));
                    let m = choose|m: int| 0 <= m < ir.len() && ir[m] == x;
                    assert(r[m + 1] == x);
                }
            }
        }
        assert(s.contains(v) <==> rest.contains(v)) by {
            if s.contains(v) {
                let k = choose|k: int| 0 <= k < s.len() && s[k] == v;
                assert(k != 0);
                assert(rest[k - 1] == v);
            }
            if rest.contains(v) {
                let k = choose|k: int| 0 <= k < rest.len() && rest[k] == v;
                assert(s[k + 1] == v);
            }
        }
    }
}

/// Where the scan stopped determines the shape of the sorted insertion: at
/// a matching id it is a no-op, otherwise the id goes in at that position.
proof fn lemma_insert_sorted_at(s: Seq<u64>, v: u64, i: int)
    requires
        sorted_strict(s),
        0 <= i <= s.len(),
        forall|j: int| 0 <= j < i ==> s[j] < v,
        i < s.len() ==> s[i] >= v,
    ensures
        i < s.len() && s[i] == v ==> insert_sorted(s, v) == s,
        !(i < s.len() && s[i] == v) ==> insert_sorted(s, v) == s.insert(i, v),
    decreases i,
{
    if i == 0 {
        if s.len() == 0 {
            assert(insert_sorted(s, v) =~= s.insert(0, v));
        } else if v < s[0] {
            assert(insert_sorted(s, v) =~= s.insert(0, v));
        }
    } else {
        let rest = s.drop_first();
        assert(s[0] < v);
        lemma_insert_sorted_at(rest, v, i - 1);
        if i < s.len() && s[i] == v {
            assert(rest[i - 1] == v);
            assert(insert_sorted(s, v) == seq![s[0]] + insert_sorted(rest, v));
            assert(insert_sorted(s, v) =~= s);
        } else {
            assert(insert_sorted(s, v) =~= s.insert(i, v));
        }
    }
}

/// Recording a sorted run of ids that all exceed a sorted set, with room
/// under the cap, simply appends them: no dedup hit, no eviction.
pub proof fn lemma_seen_restore_sorted(acc: Seq<u64>, ids: Seq<u64>)
    requires
        sorted_strict(acc),
        sorted_strict(ids),
        forall|i: int, j: int| 0 <= i < acc.len() && 0 <= j < ids.len() ==> acc[i] < ids[j],
        acc.len() + ids.len() <= SEEN_VOTES_CAP,
    ensures
        seen_restore(acc, ids) == acc + ids,
    decreases ids.len(),
{
    if ids.len() == 0 {
        assert(acc + ids =~= acc);
    } else {
        let v = ids[0];
        lemma_insert_sorted_at(acc, v, acc.len() as int);
        assert(insert_sorted(acc, v) =~= acc.push(v));
        assert(seen_after_insert(acc, v) == acc.push(v));
        let acc2 = acc.push(v);
        let rest = ids.drop_first();
        assert(sorted_strict(acc2));
        assert forall|i: int, j: int| 0 <= i < acc2.len() && 0 <= j < rest.len() implies acc2[i]
            < rest[j] by {
            assert(rest[j] == ids[j + 1]);
            if i == acc2.len() - 1 {
                assert(acc2[i] == ids[0]);
            }
        }
        lemma_seen_restore_sorted(acc2, rest);
        assert(acc2 + rest =~= acc + ids);
    }
}

/// Bounded-dedup law: after recording an id, at most the cap remain, every
/// retained id was inserted, and everything evicted is smaller than
/// everything retained — the seen-set always holds the largest ids.
pub proof fn lemma_seen_set_keeps_largest(s: Seq<u64>, v: u64)
    requires
        sorted_strict(s),
    ensures
        seen_after_insert(s, v).len() <= SEEN_VOTES_CAP,
        forall|x: u64| seen_after_insert(s, v).contains(x) ==> (s.contains(x) || x == v),
        forall|x: u64, y: u64|
            seen_after_insert(s, v).contains(x) && (s.contains(y) || y == v)
                && !seen_after_insert(s, v).contains(y) ==> y < x,
{
    lemma_insert_sorted_props(s, v);
    let t = insert_sorted(s, v);
    let r = seen_after_insert(s, v);
    let off = t.len() - r.len();
    assert(r == prune_smallest(t, SEEN_VOTES_CAP as int));
    assert(r =~= t.skip(off));
    assert forall|x: u64| r.contains(x) implies (s.contains(x) || x == v) by {
        let k = choose|k: int| 0 <= k < r.len() && r[k] == x;
        assert(t[k + off] == x);
        assert(t.contains(x));
    }
    assert forall|x: u64, y: u64|
        r.contains(x) && (s.contains(y) || y == v) && !r.contains(y) implies y < x by {
        assert(t.contains(y));
        let ky = choose|ky: int| 0 <= ky < t.len() && t[ky] == y;
        let kx = choose|kx: int| 0 <= kx < r.len() && r[kx] == x;
        assert(t[kx + off] == x);
        if ky >= off {
            assert(r[ky - off] == y);
            assert(false);
        }
        assert(ky < off <= kx + off);
        assert(t[ky] < t[kx + off]);
    }
}

} // verus!
