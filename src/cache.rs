use vstd::prelude::*;

use crate::search::{search_pattern, search_pattern_of};
use crate::text::same_text;

verus! {

/// One cached answer: how many references `key` had at monotonic time `observed_at`.
pub struct CacheEntry {
    pub key: String,
    pub count: usize,
    pub observed_at: u64,
}

/// Reference counts per identifier, each with the time it was observed, and the window
/// during which such a count is served without a new search. Times are monotonic-clock
/// readings in nanoseconds.
pub struct ReferenceCache {
    entries: Vec<CacheEntry>,
    freshness: u64,
}

/// The position of the last entry of `s` for key `k`, or -1 when there is none.
pub open spec fn index_of_key(s: Seq<CacheEntry>, k: Seq<char>) -> int
    decreases s.len(),
{
    if s.len() == 0 {
        -1
    } else if s.last().key@ == k {
        s.len() - 1
    } else {
        index_of_key(s.drop_last(), k)
    }
}

/// Whether a count observed at `observed_at` may still be served at `now`, for window `window`.
/// A reading earlier than the observation counts as no time elapsed.
pub open spec fn is_fresh(observed_at: nat, now: nat, window: nat) -> bool {
    (if now >= observed_at {
        now - observed_at
    } else {
        0
    }) < window
}

/// The count served from cache for `id` at `now`, if its entry is present and fresh.
pub open spec fn cached_count(m: Map<Seq<char>, (nat, nat)>, window: nat, id: Seq<char>, now: nat) -> Option<nat> {
    if m.contains_key(id) && is_fresh(m[id].1, now, window) {
        Some(m[id].0)
    } else {
        None
    }
}

/// The cache after a search for `id` begun at `now` has ended with `outcome`: a count replaces
/// the entry, and a failure leaves the cache as it was.
pub open spec fn after_outcome(
    m: Map<Seq<char>, (nat, nat)>,
    id: Seq<char>,
    now: nat,
    outcome: Option<usize>,
) -> Map<Seq<char>, (nat, nat)> {
    match outcome {
        Some(c) => m.insert(id, (c as nat, now)),
        None => m,
    }
}

/// What a query does next: answer from the cache, or run the search for the given pattern.
pub enum QueryStep {
    Cached(usize),
    Search(String),
}

proof fn lemma_index_of_key_bounds(s: Seq<CacheEntry>, k: Seq<char>)
    ensures
        -1 <= index_of_key(s, k) < s.len(),
        index_of_key(s, k) >= 0 ==> s[index_of_key(s, k)].key@ == k,
    decreases s.len(),
{
    if s.len() > 0 {
        lemma_index_of_key_bounds(s.drop_last(), k);
    }
}

proof fn lemma_index_of_key_update(s: Seq<CacheEntry>, i: int, e: CacheEntry, k: Seq<char>)
    requires
        0 <= i < s.len(),
        s[i].key@ == e.key@,
    ensures
        index_of_key(s.update(i, e), k) == index_of_key(s, k),
    decreases s.len(),
{
    if i < s.len() - 1 {
        assert(s.update(i, e).drop_last() =~= s.drop_last().update(i, e));
        lemma_index_of_key_update(s.drop_last(), i, e, k);
    } else {
        assert(s.update(i, e).drop_last() =~= s.drop_last());
    }
}

impl View for ReferenceCache {
    type V = Map<Seq<char>, (nat, nat)>;

    /// Each identifier with its count and the time that count was observed.
    closed spec fn view(&self) -> Map<Seq<char>, (nat, nat)> {
        Map::new(
            |k: Seq<char>| index_of_key(self.entries@, k) >= 0,
            |k: Seq<char>|
                (
                    self.entries@[index_of_key(self.entries@, k)].count as nat,
                    self.entries@[index_of_key(self.entries@, k)].observed_at as nat,
                ),
        )
    }
}

impl ReferenceCache {
    /// How long a count is served without a new search, in nanoseconds.
    pub closed spec fn window(&self) -> nat {
        self.freshness as nat
    }

    /// An empty cache whose counts stay fresh for `freshness` nanoseconds.
    pub fn new(freshness: u64) -> (r: Self)
        ensures
            r@ == Map::<Seq<char>, (nat, nat)>::empty(),
            r.window() == freshness,
    {
        let r = ReferenceCache { entries: Vec::new(), freshness };
        assert(r@ =~= Map::<Seq<char>, (nat, nat)>::empty());
        r
    }

    /// How long a count is served without a new search, in nanoseconds.
    pub fn freshness(&self) -> (r: u64)
        ensures
            r == self.window(),
    {
        self.freshness
    }

    /// The position of the entry for `id`, as `index_of_key` gives it.
    fn find(&self, id: &str) -> (r: Option<usize>)
        ensures
            match r {
                Some(i) => index_of_key(self.entries@, id@) == i,
                None => index_of_key(self.entries@, id@) == -1,
            },
    {
        let mut i = self.entries.len();
        assert(self.entries@.take(i as int) =~= self.entries@);
        while i > 0
            invariant
                i <= self.entries@.len(),
                index_of_key(self.entries@, id@) == index_of_key(
                    self.entries@.take(i as int),
                    id@,
                ),
            decreases i,
        {
            let t = Ghost(self.entries@.take(i as int));
            assert(t@.drop_last() =~= self.entries@.take(i - 1));
            if same_text(self.entries[i - 1].key.as_str(), id) {
                return Some(i - 1);
            }
            i = i - 1;
        }
        None
    }

    /// The count served from cache for `id` at time `now`, if its entry is fresh.
    pub fn cached(&self, id: &str, now: u64) -> (r: Option<usize>)
        ensures
            match r {
                Some(c) => cached_count(self@, self.window(), id@, now as nat) == Some(c as nat),
                None => cached_count(self@, self.window(), id@, now as nat) is None,
            },
    {
        proof {
            lemma_index_of_key_bounds(self.entries@, id@);
        }
        match self.find(id) {
            Some(i) => {
                let e = &self.entries[i];
                let age = if now >= e.observed_at {
                    now - e.observed_at
                } else {
                    0
                };
                if age < self.freshness {
                    Some(e.count)
                } else {
                    None
                }
            },
            None => None,
        }
    }

    /// Stores `count` for `id`, observed at `now`, in place of any earlier entry.
    pub fn record(&mut self, id: &str, count: usize, now: u64)
        ensures
            final(self)@ == old(self)@.insert(id@, (count as nat, now as nat)),
            final(self).window() == old(self).window(),
    {
        let ghost before = self.entries@;
        let e = CacheEntry { key: id.to_owned(), count, observed_at: now };
        proof {
            lemma_index_of_key_bounds(before, id@);
        }
        match self.find(id) {
            Some(i) => {
                self.entries.set(i, e);
                proof {
                    assert forall|k: Seq<char>|
                        index_of_key(self.entries@, k) == index_of_key(before, k) by {
                        lemma_index_of_key_update(before, i as int, e, k);
                    }
                }
            },
            None => {
                self.entries.push(e);
                assert(self.entries@.drop_last() =~= before);
            },
        }
        proof {
            assert forall|k: Seq<char>|
                #![auto]
                self@.contains_key(k) == old(self)@.insert(
                    id@,
                    (count as nat, now as nat),
                ).contains_key(k) && (self@.contains_key(k) ==> self@[k] == old(self)@.insert(
                    id@,
                    (count as nat, now as nat),
                )[k]) by {
                lemma_index_of_key_bounds(before, k);
                lemma_index_of_key_bounds(self.entries@, k);
            }
        }
        assert(self@ =~= old(self)@.insert(id@, (count as nat, now as nat)));
    }

    /// The first step of a query for `id` at `now`: the cached count where it is fresh,
    /// else the search to run.
    pub fn begin_query(&self, id: &str, now: u64) -> (r: QueryStep)
        ensures
            match r {
                QueryStep::Cached(c) => cached_count(self@, self.window(), id@, now as nat)
                    == Some(c as nat),
                QueryStep::Search(p) => cached_count(self@, self.window(), id@, now as nat) is None
                    && p@ == search_pattern_of(id@),
            },
    {
        match self.cached(id, now) {
            Some(c) => QueryStep::Cached(c),
            None => QueryStep::Search(search_pattern(id)),
        }
    }

    /// The last step of a query for `id` begun at `now`, once its search ended with `outcome`:
    /// a count is stored and returned; a failed search gives 0 and leaves the cache unchanged,
    /// so that the next query searches again.
    pub fn finish_query(&mut self, id: &str, now: u64, outcome: Option<usize>) -> (r: usize)
        ensures
            final(self)@ == after_outcome(old(self)@, id@, now as nat, outcome),
            final(self).window() == old(self).window(),
            r == match outcome {
                Some(c) => c,
                None => 0,
            },
    {
        match outcome {
            Some(c) => {
                self.record(id, c, now);
                c
            },
            None => 0,
        }
    }
}

} // verus!

verus! {

/// A count just stored for `id` at `t` is served from the cache, unchanged, by any query
/// within the freshness window after `t`: no second search is run.
pub proof fn lemma_fresh_count_is_served(
    m: Map<Seq<char>, (nat, nat)>,
    window: nat,
    id: Seq<char>,
    count: usize,
    t: nat,
    later: nat,
)
    requires
        t <= later < t + window,
    ensures
        cached_count(after_outcome(m, id, t, Some(count)), window, id, later) == Some(
            count as nat,
        ),
{
}

/// A count served from the cache at `t1` is served again, unchanged, by any later query made
/// before the window, counted from when that count was observed, runs out.
pub proof fn lemma_served_count_is_served_again(
    m: Map<Seq<char>, (nat, nat)>,
    window: nat,
    id: Seq<char>,
    count: nat,
    t1: nat,
    t2: nat,
)
    requires
        cached_count(m, window, id, t1) == Some(count),
        t1 <= t2,
        t2 < m[id].1 + window,
    ensures
        cached_count(m, window, id, t2) == Some(count),
{
}

/// Once the freshness window has elapsed since a count was stored, a query searches again;
/// and the count that search stores is the one served by the reads that follow it within the
/// window.
pub proof fn lemma_stale_count_is_refreshed(
    m: Map<Seq<char>, (nat, nat)>,
    window: nat,
    id: Seq<char>,
    old_count: usize,
    t: nat,
    new_count: usize,
    t2: nat,
    t3: nat,
)
    requires
        t + window <= t2,
        t2 <= t3 < t2 + window,
    ensures
        cached_count(after_outcome(m, id, t, Some(old_count)), window, id, t2) is None,
        cached_count(
            after_outcome(after_outcome(m, id, t, Some(old_count)), id, t2, Some(new_count)),
            window,
            id,
            t3,
        ) == Some(new_count as nat),
{
}

/// An identifier that the cache has never seen is always searched for.
pub proof fn lemma_unseen_identifier_is_searched(
    m: Map<Seq<char>, (nat, nat)>,
    window: nat,
    id: Seq<char>,
    now: nat,
)
    requires
        !m.contains_key(id),
    ensures
        cached_count(m, window, id, now) is None,
{
}

/// A failed search stores nothing: every later query for any identifier is answered as if the
/// failed one had never run, so an identifier that was not cached is searched for again.
pub proof fn lemma_failure_does_not_poison(
    m: Map<Seq<char>, (nat, nat)>,
    window: nat,
    id: Seq<char>,
    t: nat,
    other: Seq<char>,
    later: nat,
)
    ensures
        cached_count(after_outcome(m, id, t, None), window, other, later) == cached_count(
            m,
            window,
            other,
            later,
        ),
        !m.contains_key(id) ==> cached_count(after_outcome(m, id, t, None), window, id, later) is None,
{
}

} // verus!
