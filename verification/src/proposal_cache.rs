//! The proposal mapping cache: a bounded associative store from source
//! (NNS) proposal id to the resolved target (WTN) proposal id. An entry of
//! `None` is a negative cache record: the resolver confirmed that no target
//! proposal corresponds to the source proposal. The store is capped at 500
//! entries; over capacity the numerically smallest keys are evicted first
//! (source proposal ids grow monotonically, so this approximates
//! oldest-first eviction). Entries never expire by time.

use vstd::prelude::*;

verus! {

/// Upper bound on how many proposal mappings are cached.
pub const PROPOSAL_CACHE_CAP: usize = 500;

/// One cached mapping; `wtn_proposal_id == None` records confirmed absence.
#[derive(Clone, Copy, Debug)]
pub struct CacheEntry {
    pub nns_proposal_id: u64,
    pub wtn_proposal_id: Option<u64>,
}

/// Entries in strictly increasing key order.
pub open spec fn cache_sorted(s: Seq<CacheEntry>) -> bool {
    forall|i: int, j: int|
        0 <= i < j < s.len() ==> s[i].nns_proposal_id < s[j].nns_proposal_id
}

/// Insertion into a sorted entry sequence; an entry with a present key
/// replaces the old one.
pub open spec fn cache_insert(s: Seq<CacheEntry>, e: CacheEntry) -> Seq<CacheEntry>
    decreases s.len(),
{
    if s.len() == 0 {
        seq![e]
    } else if e.nns_proposal_id < s[0].nns_proposal_id {
        seq![e] + s
    } else if e.nns_proposal_id == s[0].nns_proposal_id {
        seq![e] + s.drop_first()
    } else {
        seq![s[0]] + cache_insert(s.drop_first(), e)
    }
}

/// Drops the smallest keys until at most `cap` entries remain.
pub open spec fn cache_prune(s: Seq<CacheEntry>, cap: int) -> Seq<CacheEntry> {
    if s.len() <= cap {
        s
    } else {
        s.skip(s.len() - cap)
    }
}

/// The cache contents after recording one mapping.
pub open spec fn cache_after_insert(s: Seq<CacheEntry>, e: CacheEntry) -> Seq<CacheEntry> {
    cache_prune(cache_insert(s, e), PROPOSAL_CACHE_CAP as int)
}

/// What a lookup returns: `None` for a miss, `Some(mapping)` for a hit.
pub open spec fn cache_lookup(s: Seq<CacheEntry>, k: u64) -> Option<Option<u64>>
    decreases s.len(),
{
    if s.len() == 0 {
        None
    } else if s[0].nns_proposal_id == k {
        Some(s[0].wtn_proposal_id)
    } else {
        cache_lookup(s.drop_first(), k)
    }
}

/// Whether some entry carries the key `k`.
pub open spec fn cache_has_key(s: Seq<CacheEntry>, k: u64) -> bool {
    exists|i: int| 0 <= i < s.len() && s[i].nns_proposal_id == k
}

/// The bounded store of resolved (and negatively resolved) mappings.
#[derive(Debug)]
pub struct ProposalCache {
    entries: Vec<CacheEntry>,
}

impl View for ProposalCache {
    type V = Seq<CacheEntry>;

    closed spec fn view(&self) -> Seq<CacheEntry> {
        self.entries@
    }
}

impl ProposalCache {
    /// Keys are strictly increasing and no more than the cap are held.
    pub open spec fn wf(&self) -> bool {
        &&& cache_sorted(self@)
        &&& self@.len() <= PROPOSAL_CACHE_CAP
    }

    pub fn new() -> (r: ProposalCache)
        ensures
            r.wf(),
            r@ == Seq::<CacheEntry>::empty(),
    {
        let r = ProposalCache { entries: Vec::new() };
        proof {
            assert(r@ =~= Seq::<CacheEntry>::empty());
        }
        r
    }

    pub fn len(&self) -> (r: usize)
        ensures
            r == self@.len(),
    {
        self.entries.len()
    }

    /// Looks up the mapping cached for a source proposal id.
    pub fn get(&self, k: u64) -> (r: Option<Option<u64>>)
        ensures
            r == cache_lookup(self@, k),
    {
        let n = self.entries.len();
        let mut i: usize = 0;
        proof {
            assert(self@.skip(0) =~= self@);
        }
        while i < n
            invariant
                n == self@.len(),
                0 <= i <= n,
                cache_lookup(self@, k) == cache_lookup(self@.skip(i as int), k),
            decreases n - i,
        {
            proof {
                assert(self@.skip(i as int).drop_first() =~= self@.skip(i + 1));
            }
            if self.entries[i].nns_proposal_id == k {
                assert(self@.skip(i as int)[0] == self@[i as int]);
                return Some(self.entries[i].wtn_proposal_id);
            }
            i = i + 1;
        }
        assert(self@.skip(n as int) =~= Seq::<CacheEntry>::empty());
        None
    }

    /// Records the mapping for a source proposal id, replacing any previous
    /// record; may evict the smallest keys so that at most the cap remain.
    pub fn insert(&mut self, k: u64, v: Option<u64>) -> (r: ())
        requires
            old(self).wf(),
        ensures
            final(self).wf(),
            final(self)@ == cache_after_insert(
                old(self)@,
                CacheEntry { nns_proposal_id: k, wtn_proposal_id: v },
            ),
    {
        let ghost s0 = self@;
        let e = CacheEntry { nns_proposal_id: k, wtn_proposal_id: v };
        let n = self.entries.len();
        let mut i: usize = 0;
        while i < n && self.entries[i].nns_proposal_id < k
            invariant
                n == self.entries@.len(),
                0 <= i <= n,
                self@ == s0,
                cache_sorted(s0),
                forall|j: int| 0 <= j < i ==> s0[j].nns_proposal_id < k,
            decreases n - i,
        {
            i = i + 1;
        }
        proof {
            lemma_cache_insert_at(s0, e, i as int);
        }
        if i < n && self.entries[i].nns_proposal_id == k {
            self.entries.remove(i);
            self.entries.insert(i, e);
            proof {
                assert(self.entries@ =~= cache_insert(s0, e));
                assert(self.entries@ =~= cache_after_insert(s0, e));
                lemma_cache_insert_props(s0, e);
            }
            return ;
        }
        self.entries.insert(i, e);
        let ghost t = cache_insert(s0, e);
        proof {
            assert(self.entries@ =~= t);
            lemma_cache_insert_props(s0, e);
        }
        while self.entries.len() > PROPOSAL_CACHE_CAP
            invariant
                cache_sorted(t),
                t.len() <= PROPOSAL_CACHE_CAP + 1,
                self.entries@ == t.skip(t.len() - self.entries@.len()),
                self.entries@.len() <= t.len(),
                self.entries@.len() >= PROPOSAL_CACHE_CAP || self.entries@.len() == t.len(),
            decreases self.entries@.len(),
        {
            let ghost m = t.len() - self.entries@.len();
            self.entries.remove(0);
            proof {
                assert(t.skip(m).drop_first() =~= t.skip(m + 1));
                assert(self.entries@ =~= t.skip(m + 1));
            }
        }
        proof {
            if t.len() <= PROPOSAL_CACHE_CAP {
                assert(t.skip(0) =~= t);
            }
            assert(self.entries@ =~= cache_prune(t, PROPOSAL_CACHE_CAP as int));
            assert(cache_sorted(self.entries@)) by {
                let off = t.len() - self.entries@.len();
                assert forall|a: int, b: int|
                    0 <= a < b < self.entries@.len() implies #[trigger] self.entries@[a].nns_proposal_id
                    < #[trigger] self.entries@[b].nns_proposal_id by {
                    assert(self.entries@[a] == t[a + off]);
                    assert(self.entries@[b] == t[b + off]);
                }
            }
        }
    }
}

/// The cache rebuilt by recording a run of entries, oldest first.
pub open spec fn cache_restore(acc: Seq<CacheEntry>, entries: Seq<CacheEntry>) -> Seq<CacheEntry>
    decreases entries.len(),
{
    if entries.len() == 0 {
        acc
    } else {
        cache_restore(cache_after_insert(acc, entries[0]), entries.drop_first())
    }
}

impl ProposalCache {
    /// A copy of the cached entries, smallest key first.
    pub fn to_entries(&self) -> (r: Vec<CacheEntry>)
        ensures
            r@ == self@,
    {
        let n = self.entries.len();
        let mut r: Vec<CacheEntry> = Vec::new();
        let mut i: usize = 0;
        while i < n
            invariant
                n == self.entries@.len(),
                0 <= i <= n,
                r@ == self@.take(i as int),
            decreases n - i,
        {
            r.push(self.entries[i]);
            assert(r@ =~= self@.take(i + 1));
            i = i + 1;
        }
        proof {
            assert(self@.take(n as int) =~= self@);
        }
        r
    }

    /// Rebuilds the cache by recording the given entries, oldest first.
    pub fn from_entries(entries: &Vec<CacheEntry>) -> (r: ProposalCache)
        ensures
            r.wf(),
            r@ == cache_restore(Seq::<CacheEntry>::empty(), entries@),
    {
        let mut r = ProposalCache::new();
        let n = entries.len();
        let mut i: usize = 0;
        proof {
            assert(entries@.skip(0) =~= entries@);
        }
        while i < n
            invariant
                r.wf(),
                n == entries@.len(),
                0 <= i <= n,
                cache_restore(Seq::<CacheEntry>::empty(), entries@) == cache_restore(
                    r@,
                    entries@.skip(i as int),
                ),
            decreases n - i,
        {
            proof {
                assert(entries@.skip(i as int).drop_first() =~= entries@.skip(i + 1));
                assert(entries@.skip(i as int)[0] == entries@[i as int]);
            }
            let e = entries[i];
            r.insert(e.nns_proposal_id, e.wtn_proposal_id);
            i = i + 1;
        }
        proof {
            assert(entries@.skip(n as int) =~= Seq::<CacheEntry>::empty());
        }
        r
    }
}

/// Sorted insert-or-replace keeps the keys sorted, the new mapping is
/// found under its key, and other keys keep their mappings.
pub proof fn lemma_cache_insert_props(s: Seq<CacheEntry>, e: CacheEntry)
    requires
        cache_sorted(s),
    ensures
        cache_sorted(cache_insert(s, e)),
        cache_lookup(cache_insert(s, e), e.nns_proposal_id) == Some(e.wtn_proposal_id),
        forall|k: u64|
            k != e.nns_proposal_id ==> cache_lookup(cache_insert(s, e), k) == cache_lookup(s, k),
        cache_insert(s, e).len() == if cache_has_key(s, e.nns_proposal_id) {
            s.len()
        } else {
            s.len() + 1
        },
        forall|i: int|
            0 <= i < cache_insert(s, e).len() ==> (cache_has_key(
                s,
                cache_insert(s, e)[i].nns_proposal_id,
            ) || cache_insert(s, e)[i].nns_proposal_id == e.nns_proposal_id),
    decreases s.len(),
{
    let r = cache_insert(s, e);
    if s.len() == 0 {
        assert(r == seq![e]);
        assert(r.drop_first() =~= Seq::<CacheEntry>::empty());
        assert forall|k: u64| k != e.nns_proposal_id implies cache_lookup(r, k) == cache_lookup(
            s,
            k,
        ) by {
            assert(r[0] == e);
            assert(cache_lookup(r, k) == cache_lookup(r.drop_first(), k));
        }
    } else if e.nns_proposal_id < s[0].nns_proposal_id {
        assert(r == seq![e] + s);
        assert(r.drop_first() =~= s);
        assert forall|k: u64| k != e.nns_proposal_id implies cache_lookup(r, k) == cache_lookup(
            s,
            k,
        ) by {
            assert(r[0] == e);
            assert(cache_lookup(r, k) == cache_lookup(r.drop_first(), k));
        }
        assert forall|i: int| 0 <= i < r.len() implies (cache_has_key(s, r[i].nns_proposal_id)
            || r[i].nns_proposal_id == e.nns_proposal_id) by {
            if i > 0 {
                assert(s[i - 1] == r[i]);
            }
        }
    } else if e.nns_proposal_id == s[0].nns_proposal_id {
        assert(r == seq![e] + s.drop_first());
        assert(r.drop_first() =~= s.drop_first());
        assert forall|k: u64| k != e.nns_proposal_id implies cache_lookup(r, k) == cache_lookup(
            s,
            k,
        ) by {
            assert(r[0] == e);
            assert(cache_lookup(r, k) == cache_lookup(r.drop_first(), k));
            assert(cache_lookup(s, k) == cache_lookup(s.drop_first(), k));
        }
        assert forall|i: int| 0 <= i < r.len() implies (cache_has_key(s, r[i].nns_proposal_id)
            || r[i].nns_proposal_id == e.nns_proposal_id) by {
            if i > 0 {
                assert(s[i] == r[i]);
            }
        }
        assert(cache_has_key(s, e.nns_proposal_id)) by {
            assert(s[0].nns_proposal_id == e.nns_proposal_id);
        }
    } else {
        let rest = s.drop_first();
        assert(cache_sorted(rest));
        lemma_cache_insert_props(rest, e);
        let ir = cache_insert(rest, e);
        assert(r == seq![s[0]] + ir);
        assert(r.drop_first() =~= ir);
        assert forall|a: int, b: int| 0 <= a < b < r.len() implies r[a].nns_proposal_id
            < r[b].nns_proposal_id by {
            if a == 0 {
                assert(r[b] == ir[b - 1]);
                if cache_has_key(rest, ir[b - 1].nns_proposal_id) {
                    let m = choose|m: int|
                        0 <= m < rest.len() && rest[m].nns_proposal_id == ir[b
                            - 1].nns_proposal_id;
                    assert(s[m + 1] == rest[m]);
                    assert(s[0].nns_proposal_id < s[m + 1].nns_proposal_id);
                } else {
                    assert(ir[b - 1].nns_proposal_id == e.nns_proposal_id);
                }
            } else {
                assert(r[a] == ir[a - 1] && r[b] == ir[b - 1]);
            }
        }
        assert(cache_lookup(r, e.nns_proposal_id) == Some(e.wtn_proposal_id)) by {
            assert(r[0] == s[0]);
            assert(cache_lookup(r, e.nns_proposal_id) == cache_lookup(ir, e.nns_proposal_id));
        }
        assert forall|k: u64| k != e.nns_proposal_id implies cache_lookup(r, k) == cache_lookup(
            s,
            k,
        ) by {
            assert(r[0] == s[0]);
            if s[0].nns_proposal_id != k {
                assert(cache_lookup(r, k) == cache_lookup(ir, k));
                assert(cache_lookup(s, k) == cache_lookup(rest, k));
            }
        }
        assert(cache_has_key(s, e.nns_proposal_id) <==> cache_has_key(rest, e.nns_proposal_id))
            by {
            if cache_has_key(s, e.nns_proposal_id) {
                let m = choose|m: int|
                    0 <= m < s.len() && s[m].nns_proposal_id == e.nns_proposal_id;
                assert(m != 0);
                assert(rest[m - 1].nns_proposal_id == e.nns_proposal_id);
            }
            if cache_has_key(rest, e.nns_proposal_id) {
                let m = choose|m: int|
                    0 <= m < rest.len() && rest[m].nns_proposal_id == e.nns_proposal_id;
                assert(s[m + 1].nns_proposal_id == e.nns_proposal_id);
            }
        }
        assert forall|i: int| 0 <= i < r.len() implies (cache_has_key(s, r[i].nns_proposal_id)
            || r[i].nns_proposal_id == e.nns_proposal_id) by {
            if i == 0 {
                assert(s[0] == r[0]);
            } else {
                assert(r[i] == ir[i - 1]);
                if cache_has_key(rest, ir[i - 1].nns_proposal_id) {
                    let m = choose|m: int|
                        0 <= m < rest.len() && rest[m].nns_proposal_id == ir[i
                            - 1].nns_proposal_id;
                    assert(s[m + 1] == rest[m]);
                }
            }
        }
    }
}

/// Where the scan stopped determines the shape of the insertion: at a
/// matching key the entry is replaced in place, otherwise it goes in at
/// that position.
proof fn lemma_cache_insert_at(s: Seq<CacheEntry>, e: CacheEntry, i: int)
    requires
        cache_sorted(s),
        0 <= i <= s.len(),
        forall|j: int| 0 <= j < i ==> s[j].nns_proposal_id < e.nns_proposal_id,
        i < s.len() ==> s[i].nns_proposal_id >= e.nns_proposal_id,
    ensures
        i < s.len() && s[i].nns_proposal_id == e.nns_proposal_id ==> cache_insert(s, e)
            == s.remove(i).insert(i, e),
        !(i < s.len() && s[i].nns_proposal_id == e.nns_proposal_id) ==> cache_insert(s, e)
            == s.insert(i, e),
    decreases i,
{
    if i == 0 {
        if s.len() == 0 {
            assert(cache_insert(s, e) =~= s.insert(0, e));
        } else if e.nns_proposal_id < s[0].nns_proposal_id {
            assert(cache_insert(s, e) =~= s.insert(0, e));
        } else if e.nns_proposal_id == s[0].nns_proposal_id {
            assert(cache_insert(s, e) =~= s.remove(0).insert(0, e));
        }
    } else {
        let rest = s.drop_first();
        assert(s[0].nns_proposal_id < e.nns_proposal_id);
        lemma_cache_insert_at(rest, e, i - 1);
        if i < s.len() && s[i].nns_proposal_id == e.nns_proposal_id {
            assert(rest[i - 1].nns_proposal_id == e.nns_proposal_id);
            assert(cache_insert(s, e) =~= s.remove(i).insert(i, e));
        } else {
            assert(cache_insert(s, e) =~= s.insert(i, e));
        }
    }
}

/// Recording a sorted run of entries whose keys all exceed a sorted
/// store's, with room under the cap, simply appends them: no replacement,
/// no eviction.
pub proof fn lemma_cache_restore_sorted(acc: Seq<CacheEntry>, entries: Seq<CacheEntry>)
    requires
        cache_sorted(acc),
        cache_sorted(entries),
        forall|i: int, j: int|
            0 <= i < acc.len() && 0 <= j < entries.len() ==> acc[i].nns_proposal_id
                < entries[j].nns_proposal_id,
        acc.len() + entries.len() <= PROPOSAL_CACHE_CAP,
    ensures
        cache_restore(acc, entries) == acc + entries,
    decreases entries.len(),
{
    if entries.len() == 0 {
        assert(acc + entries =~= acc);
    } else {
        let e = entries[0];
        lemma_cache_insert_at(acc, e, acc.len() as int);
        assert(cache_insert(acc, e) =~= acc.push(e));
        assert(cache_after_insert(acc, e) == acc.push(e));
        let acc2 = acc.push(e);
        let rest = entries.drop_first();
        assert(cache_sorted(acc2));
        assert forall|i: int, j: int|
            0 <= i < acc2.len() && 0 <= j < rest.len() implies acc2[i].nns_proposal_id
            < rest[j].nns_proposal_id by {
            assert(rest[j] == entries[j + 1]);
            if i == acc2.len() - 1 {
                assert(acc2[i] == entries[0]);
            }
        }
        lemma_cache_restore_sorted(acc2, rest);
        assert(acc2 + rest =~= acc + entries);
    }
}

/// Bounded-cache law: after recording a mapping, at most the cap remain,
/// every retained key was recorded, and every evicted key is smaller than
/// every retained key — the cache always holds the largest keys.
pub proof fn lemma_cache_keeps_largest(s: Seq<CacheEntry>, e: CacheEntry)
    requires
        cache_sorted(s),
    ensures
        cache_after_insert(s, e).len() <= PROPOSAL_CACHE_CAP,
        cache_after_insert(s, e).len() == if cache_insert(s, e).len()
            <= PROPOSAL_CACHE_CAP {
            cache_insert(s, e).len() as int
        } else {
            PROPOSAL_CACHE_CAP as int
        },
        forall|x: u64, y: u64|
            cache_has_key(cache_after_insert(s, e), x) && (cache_has_key(s, y) || y
                == e.nns_proposal_id) && !cache_has_key(cache_after_insert(s, e), y) ==> y < x,
{
    lemma_cache_insert_props(s, e);
    let t = cache_insert(s, e);
    let r = cache_after_insert(s, e);
    let off = t.len() - r.len();
    assert(r =~= t.skip(off));
    assert forall|x: u64, y: u64|
        cache_has_key(r, x) && (cache_has_key(s, y) || y == e.nns_proposal_id) && !cache_has_key(
            r,
            y,
        ) implies y < x by {
        assert(cache_has_key(t, y)) by {
            lemma_cache_insert_has_keys(s, e, y);
        }
        let ky = choose|ky: int| 0 <= ky < t.len() && t[ky].nns_proposal_id == y;
        let kx = choose|kx: int| 0 <= kx < r.len() && r[kx].nns_proposal_id == x;
        assert(t[kx + off].nns_proposal_id == x);
        if ky >= off {
            assert(r[ky - off].nns_proposal_id == y);
            assert(false);
        }
        assert(t[ky].nns_proposal_id < t[kx + off].nns_proposal_id);
    }
}

/// Every key of the old cache, and the inserted key, appears in the
/// insertion result.
proof fn lemma_cache_insert_has_keys(s: Seq<CacheEntry>, e: CacheEntry, k: u64)
    requires
        cache_sorted(s),
        cache_has_key(s, k) || k == e.nns_proposal_id,
    ensures
        cache_has_key(cache_insert(s, e), k),
    decreases s.len(),
{
    let r = cache_insert(s, e);
    if s.len() == 0 {
        assert(r[0].nns_proposal_id == e.nns_proposal_id);
    } else if e.nns_proposal_id < s[0].nns_proposal_id {
        if k == e.nns_proposal_id {
            assert(r[0].nns_proposal_id == k);
        } else {
            let m = choose|m: int| 0 <= m < s.len() && s[m].nns_proposal_id == k;
            assert(r[m + 1].nns_proposal_id == k);
        }
    } else if e.nns_proposal_id == s[0].nns_proposal_id {
        if k == e.nns_proposal_id {
            assert(r[0].nns_proposal_id == k);
        } else {
            let m = choose|m: int| 0 <= m < s.len() && s[m].nns_proposal_id == k;
            assert(m != 0);
            assert(r[m] == s.drop_first()[m - 1]);
            assert(r[m].nns_proposal_id == k);
        }
    } else {
        let rest = s.drop_first();
        if k == s[0].nns_proposal_id {
            assert(r[0].nns_proposal_id == k);
        } else {
            assert(cache_has_key(rest, k) || k == e.nns_proposal_id) by {
                if k != e.nns_proposal_id {
                    let m = choose|m: int| 0 <= m < s.len() && s[m].nns_proposal_id == k;
                    assert(m != 0);
                    assert(rest[m - 1].nns_proposal_id == k);
                }
            }
            lemma_cache_insert_has_keys(rest, e, k);
            let ir = cache_insert(rest, e);
            let m = choose|m: int| 0 <= m < ir.len() && ir[m].nns_proposal_id == k;
            assert(r[m + 1] == ir[m]);
        }
    }
}

} // verus!
