//! Short-TTL memo caches for point lookups and permission checks.
//!
//! Point `GetResource` and `CanI` results are memoised for a few seconds,
//! keyed by the full argument tuple. At most one computation is in flight
//! per key: the first caller that finds no fresh entry computes upstream and
//! everyone else either waits for that computation or reads the fresh value,
//! with a flag saying the answer came from the cache.

use vstd::prelude::*;
use crate::text::str_eq;

verus! {

/// How long a memoised point lookup or permission check stays fresh.
pub const MEMO_TTL_SECONDS: u64 = 5;

/// The state of one key: a computation under way, or a value and the
/// instant it was stored.
#[derive(Clone, Debug, PartialEq)]
pub enum MemoState<V> {
    InFlight,
    Ready { value: V, stored_at: u64 },
}

/// What a caller must do after announcing a request.
#[derive(Clone, Copy, Debug, PartialEq, Eq, Structural)]
pub enum BeginOutcome {
    /// A fresh value is cached; read it, and mark the answer as cached.
    Hit,
    /// Nothing usable is cached; this caller computes upstream and then
    /// completes (or abandons) the entry. Its answer is not marked cached.
    MustCompute,
    /// Another caller is computing this key; wait and begin again.
    Wait,
}

/// The entry stored under a key, if any.
pub open spec fn find_entry<V>(entries: Seq<(String, MemoState<V>)>, key: Seq<char>) -> Option<
    MemoState<V>,
>
    decreases entries.len(),
{
    if entries.len() == 0 {
        None
    } else if entries[0].0@ == key {
        Some(entries[0].1)
    } else {
        find_entry(entries.drop_first(), key)
    }
}

/// A value stored at `stored_at` is fresh at `now` while the TTL has not
/// passed.
pub open spec fn spec_fresh(stored_at: u64, now: u64, ttl: u64) -> bool {
    now <= stored_at + ttl
}

/// One memo cache: its TTL and its entries, keyed uniquely.
#[derive(Debug)]
pub struct MemoCache<V> {
    pub ttl: u64,
    pub entries: Vec<(String, MemoState<V>)>,
}

/// Keys are pairwise distinct, so the entry found for a key is the only one.
pub open spec fn wf_entries<V>(entries: Seq<(String, MemoState<V>)>) -> bool {
    forall|i: int, j: int|
        0 <= i < j < entries.len() ==> (#[trigger] entries[i]).0@ != (#[trigger] entries[j]).0@
}

/// What `begin` answers on a given cache state.
pub open spec fn spec_begin_outcome<V>(c: MemoCache<V>, key: Seq<char>, now: u64) -> BeginOutcome {
    match find_entry(c.entries@, key) {
        None => BeginOutcome::MustCompute,
        Some(MemoState::InFlight) => BeginOutcome::Wait,
        Some(MemoState::Ready { value, stored_at }) => if spec_fresh(stored_at, now, c.ttl) {
            BeginOutcome::Hit
        } else {
            BeginOutcome::MustCompute
        },
    }
}

proof fn lemma_find_none_all_differ<V>(entries: Seq<(String, MemoState<V>)>, key: Seq<char>)
    requires
        find_entry(entries, key) is None,
    ensures
        forall|k: int| 0 <= k < entries.len() ==> (#[trigger] entries[k]).0@ != key,
    decreases entries.len(),
{
    if entries.len() > 0 {
        lemma_find_none_all_differ(entries.drop_first(), key);
        assert(forall|k: int|
            1 <= k < entries.len() ==> (#[trigger] entries[k]) == entries.drop_first()[k - 1]);
    }
}

proof fn lemma_find_push<V>(
    entries: Seq<(String, MemoState<V>)>,
    key: String,
    state: MemoState<V>,
    id: Seq<char>,
)
    requires
        find_entry(entries, id) is None,
        key@ == id,
    ensures
        find_entry(entries.push((key, state)), id) == Some(state),
        wf_entries(entries) ==> wf_entries(entries.push((key, state))),
    decreases entries.len(),
{
    lemma_find_none_all_differ(entries, id);
    if entries.len() > 0 {
        lemma_find_push(entries.drop_first(), key, state, id);
        assert(entries.push((key, state)).drop_first() =~= entries.drop_first().push(
            (key, state),
        ));
    }
}

proof fn lemma_find_update<V>(
    entries: Seq<(String, MemoState<V>)>,
    i: int,
    entry: (String, MemoState<V>),
    id: Seq<char>,
)
    requires
        0 <= i < entries.len(),
        entries[i].0@ == id,
        entry.0@ == id,
        forall|k: int| 0 <= k < i ==> (#[trigger] entries[k]).0@ != id,
    ensures
        find_entry(entries.update(i, entry), id) == Some(entry.1),
        wf_entries(entries) ==> wf_entries(entries.update(i, entry)),
    decreases i,
{
    if i == 0 {
        assert(entries.update(0, entry)[0] == entry);
    } else {
        assert(entries.update(i, entry).drop_first() =~= entries.drop_first().update(i - 1, entry));
        assert(forall|k: int|
            0 <= k < i - 1 ==> (#[trigger] entries.drop_first()[k]).0@ != id);
        lemma_find_update(entries.drop_first(), i - 1, entry, id);
    }
}

proof fn lemma_find_push_other<V>(
    entries: Seq<(String, MemoState<V>)>,
    key: String,
    state: MemoState<V>,
    id: Seq<char>,
)
    requires
        key@ == id,
    ensures
        forall|k: Seq<char>|
            k != id ==> #[trigger] find_entry(entries.push((key, state)), k) == find_entry(
                entries,
                k,
            ),
    decreases entries.len(),
{
    if entries.len() == 0 {
        assert forall|k: Seq<char>| k != id implies #[trigger] find_entry(
            entries.push((key, state)),
            k,
        ) == find_entry(entries, k) by {
            assert(entries.push((key, state))[0] == (key, state));
            assert(entries.push((key, state)).drop_first() =~= Seq::<(String, MemoState<V>)>::empty());
            assert(find_entry(Seq::<(String, MemoState<V>)>::empty(), k) is None);
        }
    } else {
        lemma_find_push_other(entries.drop_first(), key, state, id);
        assert(entries.push((key, state)).drop_first() =~= entries.drop_first().push(
            (key, state),
        ));
        assert forall|k: Seq<char>| k != id implies #[trigger] find_entry(
            entries.push((key, state)),
            k,
        ) == find_entry(entries, k) by {
            if entries[0].0@ != k {
                assert(find_entry(entries.drop_first().push((key, state)), k) == find_entry(
                    entries.drop_first(),
                    k,
                ));
            }
        }
    }
}

proof fn lemma_find_update_other<V>(
    entries: Seq<(String, MemoState<V>)>,
    i: int,
    entry: (String, MemoState<V>),
    id: Seq<char>,
)
    requires
        0 <= i < entries.len(),
        entries[i].0@ == id,
        entry.0@ == id,
    ensures
        forall|k: Seq<char>|
            k != id ==> #[trigger] find_entry(entries.update(i, entry), k) == find_entry(
                entries,
                k,
            ),
    decreases i,
{
    if i == 0 {
        assert(entries.update(0, entry).drop_first() =~= entries.drop_first());
        assert forall|k: Seq<char>| k != id implies #[trigger] find_entry(
            entries.update(0, entry),
            k,
        ) == find_entry(entries, k) by {
            assert(entries.update(0, entry)[0] == entry);
        }
    } else {
        lemma_find_update_other(entries.drop_first(), i - 1, entry, id);
        assert(entries.update(i, entry).drop_first() =~= entries.drop_first().update(i - 1, entry));
        assert forall|k: Seq<char>| k != id implies #[trigger] find_entry(
            entries.update(i, entry),
            k,
        ) == find_entry(entries, k) by {
            assert(entries.update(i, entry)[0] == entries[0]);
            if entries[0].0@ != k {
                assert(find_entry(entries.drop_first().update(i - 1, entry), k) == find_entry(
                    entries.drop_first(),
                    k,
                ));
            }
        }
    }
}

proof fn lemma_find_remove_other<V>(entries: Seq<(String, MemoState<V>)>, i: int, id: Seq<char>)
    requires
        0 <= i < entries.len(),
        entries[i].0@ == id,
        forall|j: int| 0 <= j < i ==> (#[trigger] entries[j]).0@ != id,
    ensures
        forall|k: Seq<char>|
            k != id ==> #[trigger] find_entry(entries.remove(i), k) == find_entry(entries, k),
    decreases i,
{
    if i == 0 {
        assert(entries.remove(0) =~= entries.drop_first());
    } else {
        assert(forall|j: int| 0 <= j < i - 1 ==> (#[trigger] entries.drop_first()[j]).0@ != id);
        lemma_find_remove_other(entries.drop_first(), i - 1, id);
        assert(entries.remove(i).drop_first() =~= entries.drop_first().remove(i - 1));
        assert forall|k: Seq<char>| k != id implies #[trigger] find_entry(entries.remove(i), k)
            == find_entry(entries, k) by {
            assert(entries.remove(i)[0] == entries[0]);
            if entries[0].0@ != k {
                assert(find_entry(entries.drop_first().remove(i - 1), k) == find_entry(
                    entries.drop_first(),
                    k,
                ));
            }
        }
    }
}

impl<V> MemoCache<V> {
    /// An empty cache with the given TTL.
    pub fn new(ttl: u64) -> (r: MemoCache<V>)
        ensures
            r.ttl == ttl,
            r.entries@.len() == 0,
            wf_entries(r.entries@),
    {
        MemoCache { ttl, entries: Vec::new() }
    }

    /// Announce a request for `key` at instant `now`, and either claim the
    /// computation, read the fresh value, or wait for the caller already
    /// computing it. Exactly the requests that find no live entry claim the
    /// computation; everyone else coalesces onto it.
    pub fn begin(&mut self, key: &str, now: u64) -> (r: BeginOutcome)
        requires
            wf_entries(old(self).entries@),
        ensures
            r == spec_begin_outcome(*old(self), key@, now),
            final(self).ttl == old(self).ttl,
            wf_entries(final(self).entries@),
            r == BeginOutcome::Hit || r == BeginOutcome::Wait ==> *final(self) == *old(self),
            r == BeginOutcome::MustCompute ==> find_entry(final(self).entries@, key@) == Some(
                MemoState::<V>::InFlight,
            ),
            forall|k: Seq<char>|
                k != key@ ==> #[trigger] find_entry(final(self).entries@, k) == find_entry(
                    old(self).entries@,
                    k,
                ),
    {
        let n = self.entries.len();
        let mut i: usize = 0;
        proof {
            assert(self.entries@.skip(0) =~= self.entries@);
        }
        while i < n
            invariant
                i <= n,
                n == self.entries@.len(),
                *self == *old(self),
                wf_entries(self.entries@),
                find_entry(old(self).entries@, key@) == find_entry(
                    self.entries@.skip(i as int),
                    key@,
                ),
                forall|k: int| 0 <= k < i ==> (#[trigger] self.entries@[k]).0@ != key@,
            decreases n - i,
        {
            proof {
                assert(self.entries@.skip(i as int)[0] == self.entries@[i as int]);
            }
            let hit = str_eq(self.entries[i].0.as_str(), key);
            if hit {
                let fresh = match &self.entries[i].1 {
                    MemoState::InFlight => {
                        return BeginOutcome::Wait;
                    },
                    MemoState::Ready { stored_at, .. } => {
                        if *stored_at > u64::MAX - self.ttl {
                            true
                        } else {
                            now <= *stored_at + self.ttl
                        }
                    },
                };
                if fresh {
                    return BeginOutcome::Hit;
                }
                let entry_key = self.entries[i].0.clone();
                let ghost before = self.entries@;
                self.entries[i] = (entry_key, MemoState::InFlight);
                proof {
                    lemma_find_update(before, i as int, self.entries@[i as int], key@);
                    lemma_find_update_other(before, i as int, self.entries@[i as int], key@);
                }
                return BeginOutcome::MustCompute;
            }
            proof {
                assert(self.entries@.skip(i as int).drop_first() =~= self.entries@.skip(
                    i as int + 1,
                ));
            }
            i += 1;
        }
        let entry_key = key.to_owned();
        proof {
            lemma_find_push(self.entries@, entry_key, MemoState::<V>::InFlight, key@);
            lemma_find_push_other(self.entries@, entry_key, MemoState::<V>::InFlight, key@);
        }
        self.entries.push((entry_key, MemoState::InFlight));
        BeginOutcome::MustCompute
    }

    /// Store the value a claimed computation produced: the key now holds it,
    /// stamped with the instant it was stored.
    pub fn complete(&mut self, key: &str, value: V, now: u64)
        requires
            wf_entries(old(self).entries@),
        ensures
            final(self).ttl == old(self).ttl,
            wf_entries(final(self).entries@),
            find_entry(final(self).entries@, key@) == Some(
                MemoState::Ready { value, stored_at: now },
            ),
            forall|k: Seq<char>|
                k != key@ ==> #[trigger] find_entry(final(self).entries@, k) == find_entry(
                    old(self).entries@,
                    k,
                ),
    {
        let n = self.entries.len();
        let mut i: usize = 0;
        proof {
            assert(self.entries@.skip(0) =~= self.entries@);
        }
        while i < n
            invariant
                i <= n,
                n == self.entries@.len(),
                *self == *old(self),
                wf_entries(self.entries@),
                find_entry(old(self).entries@, key@) == find_entry(
                    self.entries@.skip(i as int),
                    key@,
                ),
                forall|k: int| 0 <= k < i ==> (#[trigger] self.entries@[k]).0@ != key@,
            decreases n - i,
        {
            proof {
                assert(self.entries@.skip(i as int)[0] == self.entries@[i as int]);
            }
            let hit = str_eq(self.entries[i].0.as_str(), key);
            if hit {
                let entry_key = self.entries[i].0.clone();
                let ghost before = self.entries@;
                self.entries[i] = (entry_key, MemoState::Ready { value, stored_at: now });
                proof {
                    lemma_find_update(before, i as int, self.entries@[i as int], key@);
                    lemma_find_update_other(before, i as int, self.entries@[i as int], key@);
                }
                return;
            }
            proof {
                assert(self.entries@.skip(i as int).drop_first() =~= self.entries@.skip(
                    i as int + 1,
                ));
            }
            i += 1;
        }
        let entry_key = key.to_owned();
        proof {
            lemma_find_push(
                self.entries@,
                entry_key,
                MemoState::Ready { value, stored_at: now },
                key@,
            );
            lemma_find_push_other(
                self.entries@,
                entry_key,
                MemoState::Ready { value, stored_at: now },
                key@,
            );
        }
        self.entries.push((entry_key, MemoState::Ready { value, stored_at: now }));
    }

    /// Abandon a claimed computation that failed: the key is free again, and
    /// the next request claims it anew. Failures are never cached.
    pub fn fail(&mut self, key: &str)
        requires
            wf_entries(old(self).entries@),
        ensures
            final(self).ttl == old(self).ttl,
            wf_entries(final(self).entries@),
            find_entry(final(self).entries@, key@) is None,
            forall|k: Seq<char>|
                k != key@ ==> #[trigger] find_entry(final(self).entries@, k) == find_entry(
                    old(self).entries@,
                    k,
                ),
    {
        let n = self.entries.len();
        let mut i: usize = 0;
        proof {
            assert(self.entries@.skip(0) =~= self.entries@);
        }
        while i < n
            invariant
                i <= n,
                n == self.entries@.len(),
                *self == *old(self),
                find_entry(self.entries@, key@) == find_entry(self.entries@.skip(i as int), key@),
                forall|k: int| 0 <= k < i ==> (#[trigger] self.entries@[k]).0@ != key@,
                wf_entries(self.entries@),
            decreases n - i,
        {
            proof {
                assert(self.entries@.skip(i as int)[0] == self.entries@[i as int]);
            }
            let hit = str_eq(self.entries[i].0.as_str(), key);
            if hit {
                let ghost before = self.entries@;
                self.entries.remove(i);
                proof {
                    lemma_find_remove(before, i as int, key@);
                    lemma_find_remove_other(before, i as int, key@);
                }
                return;
            }
            proof {
                assert(self.entries@.skip(i as int).drop_first() =~= self.entries@.skip(
                    i as int + 1,
                ));
            }
            i += 1;
        }
        proof {
            assert(self.entries@.skip(n as int).len() == 0);
        }
    }

    /// Hand a fresh hit out as the capability's answer: the value under the
    /// key, marked as served from the cache. Callers that were answered
    /// `Hit` read their value here; only the caller that computed it ever
    /// hands it out unmarked.
    pub fn cached_answer(&self, key: &str, now: u64) -> (r: Option<
        crate::kube::Cached<&V>,
    >)
        ensures
            match r {
                Some(c) => c.was_cached && (find_entry(self.entries@, key@) matches Some(
                    MemoState::Ready { value, stored_at },
                ) && value == *c.value && spec_fresh(stored_at, now, self.ttl)),
                None => spec_begin_outcome(*self, key@, now) != BeginOutcome::Hit,
            },
    {
        match self.get(key, now) {
            Some(value) => Some(crate::kube::Cached { was_cached: true, value }),
            None => None,
        }
    }

    /// The fresh value under `key` at instant `now`, if one is cached.
    pub fn get(&self, key: &str, now: u64) -> (r: Option<&V>)
        ensures
            match r {
                Some(v) => find_entry(self.entries@, key@) matches Some(
                    MemoState::Ready { value, stored_at },
                ) && value == *v && spec_fresh(stored_at, now, self.ttl),
                None => spec_begin_outcome(*self, key@, now) != BeginOutcome::Hit,
            },
    {
        let n = self.entries.len();
        let mut i: usize = 0;
        proof {
            assert(self.entries@.skip(0) =~= self.entries@);
        }
        while i < n
            invariant
                i <= n,
                n == self.entries@.len(),
                find_entry(self.entries@, key@) == find_entry(self.entries@.skip(i as int), key@),
            decreases n - i,
        {
            proof {
                assert(self.entries@.skip(i as int)[0] == self.entries@[i as int]);
            }
            let hit = str_eq(self.entries[i].0.as_str(), key);
            if hit {
                match &self.entries[i].1 {
                    MemoState::InFlight => {
                        return None;
                    },
                    MemoState::Ready { value, stored_at } => {
                        let fresh = if *stored_at > u64::MAX - self.ttl {
                            true
                        } else {
                            now <= *stored_at + self.ttl
                        };
                        if fresh {
                            return Some(value);
                        } else {
                            return None;
                        }
                    },
                }
            }
            proof {
                assert(self.entries@.skip(i as int).drop_first() =~= self.entries@.skip(
                    i as int + 1,
                ));
            }
            i += 1;
        }
        None
    }
}

proof fn lemma_find_remove<V>(entries: Seq<(String, MemoState<V>)>, i: int, id: Seq<char>)
    requires
        wf_entries(entries),
        0 <= i < entries.len(),
        entries[i].0@ == id,
    ensures
        find_entry(entries.remove(i), id) is None,
        wf_entries(entries.remove(i)),
    decreases i,
{
    if i == 0 {
        assert(entries.remove(0) =~= entries.drop_first());
        lemma_all_differ_find_none(entries.drop_first(), id);
    } else {
        assert(entries.remove(i).drop_first() =~= entries.drop_first().remove(i - 1));
        assert(forall|k: int, j: int|
            0 <= k < j < entries.drop_first().len() ==> (#[trigger] entries.drop_first()[k]).0@
                != (#[trigger] entries.drop_first()[j]).0@);
        lemma_find_remove(entries.drop_first(), i - 1, id);
    }
}

proof fn lemma_all_differ_find_none<V>(entries: Seq<(String, MemoState<V>)>, id: Seq<char>)
    requires
        forall|k: int| 0 <= k < entries.len() ==> (#[trigger] entries[k]).0@ != id,
    ensures
        find_entry(entries, id) is None,
    decreases entries.len(),
{
    if entries.len() > 0 {
        assert(forall|k: int|
            0 <= k < entries.drop_first().len() ==> (#[trigger] entries.drop_first()[k]).0@ != id);
        lemma_all_differ_find_none(entries.drop_first(), id);
    }
}

/// Law: coalescing. A request claims the upstream computation exactly when
/// its key holds no live entry: nothing cached, or only an expired value.
/// While an entry is in flight every further request waits, and while a
/// fresh value is cached every further request reads it as cached; so any
/// burst of requests on one key within the TTL causes exactly one upstream
/// call, made by the one caller that was answered `MustCompute`.
pub proof fn lemma_coalescing<V>(c: MemoCache<V>, key: Seq<char>, now: u64)
    ensures
        (spec_begin_outcome(c, key, now) == BeginOutcome::MustCompute) <==> (match find_entry(
            c.entries@,
            key,
        ) {
            None => true,
            Some(MemoState::InFlight) => false,
            Some(MemoState::Ready { value, stored_at }) => !spec_fresh(stored_at, now, c.ttl),
        }),
        find_entry(c.entries@, key) == Some(MemoState::<V>::InFlight) ==> spec_begin_outcome(
            c,
            key,
            now,
        ) == BeginOutcome::Wait,
{
}

/// Law: within the TTL after a computation completed, every request on the
/// key is answered from the cache. The first caller stored the value with
/// `was_cached` false; all later callers inside the TTL observe `Hit` and
/// hand it out with `was_cached` true.
pub proof fn lemma_fresh_value_hits<V>(c: MemoCache<V>, key: Seq<char>, v: V, t: u64, now: u64)
    requires
        find_entry(c.entries@, key) == Some(MemoState::Ready { value: v, stored_at: t }),
        spec_fresh(t, now, c.ttl),
    ensures
        spec_begin_outcome(c, key, now) == BeginOutcome::Hit,
{
}

} // verus!
