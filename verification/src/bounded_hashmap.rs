//! A map bounded by element age and by a maximum number of elements, which
//! evicts the least recently used element when it is full.

use vstd::prelude::*;
use lru::LruCache;
use std::collections::HashMap;
use std::time::Instant;
use crate::clock::{clock_elapsed_ms, clock_start};

verus! {

broadcast use vstd::std_specs::hash::group_hash_axioms;

#[verifier::external_type_specification]
#[verifier::external_body]
#[verifier::reject_recursive_types(K)]
#[verifier::reject_recursive_types(V)]
#[verifier::reject_recursive_types(S)]
pub struct ExLruCache<K, V, S>(LruCache<K, V, S>);

#[verifier::external_type_specification]
#[verifier::external_body]
pub struct ExDefaultHasher(lru::DefaultHasher);

/// The entries of an LRU cache of keys and insertion times, most recently
/// used first.
pub uninterp spec fn lru_entries(cache: LruCache<u128, u64>) -> Seq<(u128, u64)>;

/// The capacity of an LRU cache of keys and insertion times.
pub uninterp spec fn lru_capacity(cache: LruCache<u128, u64>) -> nat;

/// No key occurs twice.
pub open spec fn keys_distinct(s: Seq<(u128, u64)>) -> bool {
    forall|i: int, j: int| 0 <= i < j < s.len() ==> s[i].0 != s[j].0
}

/// Some entry has key `k`.
pub open spec fn has_key(s: Seq<(u128, u64)>, k: u128) -> bool {
    exists|i: int| 0 <= i < s.len() && s[i].0 == k
}

/// The position of the entry with key `k`.
pub open spec fn key_index(s: Seq<(u128, u64)>, k: u128) -> int {
    choose|i: int| 0 <= i < s.len() && s[i].0 == k
}

/// The entries of an LRU cache of capacity `cap` are well formed.
pub open spec fn lru_wf(s: Seq<(u128, u64)>, cap: nat) -> bool {
    keys_distinct(s) && s.len() <= cap && cap > 0
}

/// The entries after pushing `(k, t)` and the entry that the push hands back:
/// the old entry of `k`, or the least recently used entry when the cache is
/// full, or none.
pub open spec fn lru_push_result(s: Seq<(u128, u64)>, k: u128, t: u64, cap: nat) -> (Seq<(u128, u64)>, Option<(u128, u64)>) {
    if has_key(s, k) {
        let i = key_index(s, k);
        (seq![(k, t)] + s.remove(i), Some((k, s[i].1)))
    } else if s.len() == cap {
        (seq![(k, t)] + s.drop_last(), Some(s.last()))
    } else {
        (seq![(k, t)] + s, None)
    }
}

/// lru `LruCache::new`: an empty cache of capacity `cap`.
#[verifier::external_body]
fn lru_new(cap: usize) -> (c: LruCache<u128, u64>)
    requires
        cap > 0,
    ensures
        lru_entries(c) == Seq::<(u128, u64)>::empty(),
        lru_capacity(c) == cap,
{
    LruCache::new(std::num::NonZeroUsize::new(cap).unwrap())
}

/// lru `LruCache::push`: makes `(k, t)` the most recently used entry,
/// replacing the entry of `k` or, in a full cache, evicting the least
/// recently used one, and hands back what it replaced or evicted.
#[verifier::external_body]
fn lru_push(c: &mut LruCache<u128, u64>, k: u128, t: u64) -> (r: Option<(u128, u64)>)
    requires
        lru_wf(lru_entries(*old(c)), lru_capacity(*old(c))),
    ensures
        (lru_entries(*final(c)), r) == lru_push_result(lru_entries(*old(c)), k, t, lru_capacity(*old(c))),
        lru_capacity(*final(c)) == lru_capacity(*old(c)),
{
    c.push(k, t)
}

/// lru `LruCache::pop`: removes the entry of `k` and hands back its value.
#[verifier::external_body]
fn lru_pop(c: &mut LruCache<u128, u64>, k: u128) -> (r: Option<u64>)
    requires
        lru_wf(lru_entries(*old(c)), lru_capacity(*old(c))),
    ensures
        has_key(lru_entries(*old(c)), k) ==> r == Some(lru_entries(*old(c))[key_index(lru_entries(*old(c)), k)].1)
            && lru_entries(*final(c)) == lru_entries(*old(c)).remove(key_index(lru_entries(*old(c)), k)),
        !has_key(lru_entries(*old(c)), k) ==> r.is_none() && lru_entries(*final(c)) == lru_entries(*old(c)),
        lru_capacity(*final(c)) == lru_capacity(*old(c)),
{
    c.pop(&k)
}

/// lru `LruCache::len`: the number of entries.
#[verifier::external_body]
fn lru_len(c: &LruCache<u128, u64>) -> (n: usize)
    ensures
        n == lru_entries(*c).len(),
{
    c.len()
}

/// lru `LruCache::iter`: the entries, most recently used first.
#[verifier::external_body]
fn lru_iter(c: &LruCache<u128, u64>) -> (v: Vec<(u128, u64)>)
    ensures
        v@ == lru_entries(*c),
{
    c.iter().map(|(k, t)| (*k, *t)).collect()
}

/// An element inserted at `t` has expired at `now` when more than `max`
/// milliseconds passed since.
pub open spec fn expired(t: u64, now: u64, max: u64) -> bool {
    now > t + max
}

/// The entries of `s` that have not expired at `now`, in order.
pub open spec fn live_entries(s: Seq<(u128, u64)>, now: u64, max: u64) -> Seq<(u128, u64)>
    decreases s.len(),
{
    if s.len() == 0 {
        s
    } else {
        let rest = live_entries(s.drop_last(), now, max);
        if expired(s.last().1, now, max) {
            rest
        } else {
            rest.push(s.last())
        }
    }
}

proof fn lemma_remove_keys(s: Seq<(u128, u64)>, i: int)
    requires
        keys_distinct(s),
        0 <= i < s.len(),
    ensures
        keys_distinct(s.remove(i)),
        forall|x: u128| has_key(s.remove(i), x) <==> (has_key(s, x) && x != s[i].0),
        forall|x: u128| #[trigger] has_key(s.remove(i), x) ==> s.remove(i)[key_index(s.remove(i), x)] == s[key_index(s, x)],
{
    let r = s.remove(i);
    assert forall|a: int| 0 <= a < r.len() implies #[trigger] r[a] == (if a < i { s[a] } else { s[a + 1] }) by {}
    assert forall|x: u128| has_key(r, x) <==> (has_key(s, x) && x != s[i].0) by {
        if has_key(s, x) && x != s[i].0 {
            let j = choose|j: int| 0 <= j < s.len() && s[j].0 == x;
            if j < i {
                assert(r[j].0 == x);
            } else {
                assert(r[j - 1].0 == x);
            }
        }
        if has_key(r, x) {
            let a = choose|a: int| 0 <= a < r.len() && r[a].0 == x;
            if a < i {
                assert(s[a].0 == x);
            } else {
                assert(s[a + 1].0 == x);
            }
        }
    }
    assert forall|x: u128| #[trigger] has_key(r, x) implies r[key_index(r, x)] == s[key_index(s, x)] by {
        let a = key_index(r, x);
        let b = key_index(s, x);
        if a < i {
            assert(s[a].0 == x);
        } else {
            assert(s[a + 1].0 == x);
        }
    }
}

proof fn lemma_key_index_unique(s: Seq<(u128, u64)>, i: int)
    requires
        keys_distinct(s),
        0 <= i < s.len(),
    ensures
        has_key(s, s[i].0),
        key_index(s, s[i].0) == i,
{
    assert(s[i].0 == s[i].0);
}

proof fn lemma_push_front(s: Seq<(u128, u64)>, k: u128, t: u64)
    requires
        keys_distinct(s),
        !has_key(s, k),
    ensures
        keys_distinct(seq![(k, t)] + s),
        forall|x: u128| has_key(seq![(k, t)] + s, x) <==> (x == k || has_key(s, x)),
        forall|x: u128| #[trigger] has_key(seq![(k, t)] + s, x) && x != k ==> (seq![(k, t)] + s)[key_index(seq![(k, t)] + s, x)] == s[key_index(s, x)],
        key_index(seq![(k, t)] + s, k) == 0,
{
    let r = seq![(k, t)] + s;
    assert forall|a: int| 0 <= a < r.len() implies #[trigger] r[a] == (if a == 0 { (k, t) } else { s[a - 1] }) by {}
    assert forall|x: u128| has_key(r, x) <==> (x == k || has_key(s, x)) by {
        if x == k {
            assert(r[0].0 == x);
        }
        if has_key(s, x) {
            let j = choose|j: int| 0 <= j < s.len() && s[j].0 == x;
            assert(r[j + 1].0 == x);
        }
        if has_key(r, x) && x != k {
            let a = choose|a: int| 0 <= a < r.len() && r[a].0 == x;
            assert(s[a - 1].0 == x);
        }
    }
    assert(keys_distinct(r));
    lemma_key_index_unique(r, 0);
    assert forall|x: u128| #[trigger] has_key(r, x) && x != k implies r[key_index(r, x)] == s[key_index(s, x)] by {
        let a = key_index(r, x);
        assert(s[a - 1].0 == x);
        lemma_key_index_unique(s, a - 1);
    }
}

/// A map bounded by element age and maximum amount of items, which evicts
/// the least recently used element when it is full. The least recently used
/// order and the insertion times live in an LRU cache; the values live in a
/// hash map with the same keys.
pub struct BoundedHashMap<V> {
    cache: LruCache<u128, u64>,
    values: HashMap<u128, V>,
    max_duration_ms: u64,
    clock: Instant,
}

impl<V> BoundedHashMap<V> {
    /// The entries, keys with their insertion times, most recently used first.
    pub closed spec fn entries(&self) -> Seq<(u128, u64)> {
        lru_entries(self.cache)
    }

    /// The maximum number of elements.
    pub closed spec fn capacity(&self) -> nat {
        lru_capacity(self.cache)
    }

    /// The values by key.
    pub closed spec fn values(&self) -> Map<u128, V> {
        self.values@
    }

    /// The maximum age of an element, in milliseconds.
    pub closed spec fn max_duration(&self) -> u64 {
        self.max_duration_ms
    }

    /// The element `k` is held and has not expired at `now`.
    pub open spec fn live_at(&self, k: u128, now: u64) -> bool {
        has_key(self.entries(), k) && !expired(
            self.entries()[key_index(self.entries(), k)].1,
            now,
            self.max_duration(),
        )
    }

    /// The entries are well formed and the values have the keys of the entries.
    pub closed spec fn wf(&self) -> bool {
        &&& lru_wf(lru_entries(self.cache), lru_capacity(self.cache))
        &&& forall|x: u128| self.values@.contains_key(x) <==> has_key(lru_entries(self.cache), x)
    }

    /// A map of at most `capacity` elements, each of which expires
    /// `max_duration_ms` milliseconds after it was inserted.
    pub fn with_limits(capacity: usize, max_duration_ms: u64) -> (m: Self)
        requires
            capacity > 0,
        ensures
            m.wf(),
            m.entries() == Seq::<(u128, u64)>::empty(),
            m.values() == Map::<u128, V>::empty(),
            m.capacity() == capacity,
            m.max_duration() == max_duration_ms,
    {
        BoundedHashMap {
            cache: lru_new(capacity),
            values: HashMap::new(),
            max_duration_ms,
            clock: clock_start(),
        }
    }

    /// A map of at most 25 elements, each of which expires after one hour.
    pub fn new() -> (m: Self)
        ensures
            m.wf(),
            m.entries() == Seq::<(u128, u64)>::empty(),
            m.values() == Map::<u128, V>::empty(),
            m.capacity() == 25,
            m.max_duration() == 3600000,
    {
        Self::with_limits(25, 3600000)
    }

    /// The number of elements.
    pub fn len(&self) -> (n: usize)
        ensures
            n == self.entries().len(),
    {
        lru_len(&self.cache)
    }

    /// Whether the map holds no element.
    pub fn is_empty(&self) -> (b: bool)
        ensures
            b == (self.entries().len() == 0),
    {
        lru_len(&self.cache) == 0
    }

    /// Drop the elements that expired at `now`.
    fn remove_expired(&mut self, now: u64)
        requires
            old(self).wf(),
        ensures
            final(self).wf(),
            final(self).entries() == live_entries(old(self).entries(), now, old(self).max_duration()),
            final(self).capacity() == old(self).capacity(),
            final(self).max_duration() == old(self).max_duration(),
            forall|x: u128| #[trigger] final(self).values().contains_key(x) ==> final(self).values()[x] == old(self).values()[x],
    {
        let entries = lru_iter(&self.cache);
        let ghost s = entries@;
        let ghost old_values = self.values@;
        let max = self.max_duration_ms;
        let ghost cap = lru_capacity(self.cache);
        let mut j: usize = 0;
        assert(s.take(0) =~= Seq::<(u128, u64)>::empty());
        assert(s.skip(0) =~= s);
        assert(live_entries(s.take(0), now, max) + s.skip(0) =~= s);
        while j < entries.len()
            invariant
                entries@ == s,
                j <= s.len(),
                max == self.max_duration_ms,
                lru_entries(self.cache) == live_entries(s.take(j as int), now, max) + s.skip(j as int),
                lru_wf(lru_entries(self.cache), lru_capacity(self.cache)),
                lru_capacity(self.cache) == cap,
                forall|x: u128| self.values@.contains_key(x) <==> has_key(lru_entries(self.cache), x),
                forall|x: u128| #[trigger] self.values@.contains_key(x) ==> self.values@[x] == old_values[x],
            decreases s.len() - j,
        {
            let (key, inserted) = entries[j];
            let ghost before = lru_entries(self.cache);
            let ghost kept = live_entries(s.take(j as int), now, max);
            assert(s.take(j + 1).drop_last() =~= s.take(j as int));
            assert(s.take(j + 1).last() == s[j as int]);
            if now >= inserted && now - inserted > max {
                proof {
                    assert(before[kept.len() as int] == s[j as int]);
                    lemma_key_index_unique(before, kept.len() as int);
                    lemma_remove_keys(before, kept.len() as int);
                    assert(before.remove(kept.len() as int) =~= kept + s.skip(j + 1));
                }
                lru_pop(&mut self.cache, key);
                self.values.remove(&key);
                assert(lru_entries(self.cache) == before.remove(kept.len() as int));
                assert forall|x: u128| self.values@.contains_key(x) <==> has_key(lru_entries(self.cache), x) by {
                    assert(has_key(before.remove(kept.len() as int), x) <==> (has_key(before, x) && x != key));
                }
            } else {
                assert(before =~= kept.push(s[j as int]) + s.skip(j + 1));
            }
            j = j + 1;
        }
        assert(s.take(s.len() as int) =~= s);
        assert(s.skip(s.len() as int) =~= Seq::<(u128, u64)>::empty());
        assert(lru_entries(self.cache) =~= live_entries(s, now, max));
    }

    /// Insert an element at time `now` (milliseconds on the map's clock):
    /// the elements that expired are dropped first, then `k` becomes the most
    /// recently used element, replacing its old value or, in a full map,
    /// evicting the least recently used element. Hands back the replaced or
    /// evicted value.
    pub fn insert_at(&mut self, k: u128, v: V, now: u64) -> (r: Option<V>)
        requires
            old(self).wf(),
        ensures
            final(self).wf(),
            final(self).capacity() == old(self).capacity(),
            final(self).max_duration() == old(self).max_duration(),
            ({
                let live = live_entries(old(self).entries(), now, old(self).max_duration());
                let (pushed, handed_back) = lru_push_result(live, k, now, old(self).capacity());
                &&& final(self).entries() == pushed
                &&& final(self).values().contains_key(k)
                &&& final(self).values()[k] == v
                &&& forall|x: u128| #[trigger] final(self).values().contains_key(x) && x != k
                    ==> final(self).values()[x] == old(self).values()[x]
                &&& r == match handed_back {
                    Some(e) => Some(old(self).values()[e.0]),
                    None => None::<V>,
                }
            }),
    {
        self.remove_expired(now);
        let ghost live = lru_entries(self.cache);
        let ghost mid_values = self.values@;
        assert forall|x: u128| #[trigger] mid_values.contains_key(x) implies mid_values[x] == old(self).values()[x] by {
            assert(self.values().contains_key(x));
        }
        let evicted = lru_push(&mut self.cache, k, now);
        let ghost cap = lru_capacity(self.cache);
        let ghost pushed = lru_entries(self.cache);
        proof {
            if has_key(live, k) {
                let i = key_index(live, k);
                lemma_remove_keys(live, i);
                lemma_push_front(live.remove(i), k, now);
            } else if live.len() == cap {
                lemma_remove_keys(live, live.len() - 1);
                assert(live.remove(live.len() - 1) =~= live.drop_last());
                assert(!has_key(live.drop_last(), k));
                lemma_push_front(live.drop_last(), k, now);
                lemma_key_index_unique(live, live.len() - 1);
            } else {
                lemma_push_front(live, k, now);
            }
        }
        let r = match evicted {
            Some((ek, _)) => {
                if ek == k {
                    let r = self.values.insert(k, v);
                    assert(self.values@ == mid_values.insert(k, v));
                    assert(has_key(live, k));
                    assert(mid_values.contains_key(k));
                    assert forall|x: u128| self.values@.contains_key(x) <==> has_key(pushed, x) by {
                        let i = key_index(live, k);
                        assert(pushed == seq![(k, now)] + live.remove(i));
                        assert(has_key(seq![(k, now)] + live.remove(i), x) <==> (x == k || has_key(live.remove(i), x)));
                        assert(has_key(live.remove(i), x) <==> (has_key(live, x) && x != live[i].0));
                        assert(mid_values.contains_key(x) <==> has_key(live, x));
                    }
                    r
                } else {
                    let r = self.values.remove(&ek);
                    self.values.insert(k, v);
                    assert(self.values@ == mid_values.remove(ek).insert(k, v));
                    assert(!has_key(live, k) && live.len() == cap);
                    assert(mid_values.contains_key(ek));
                    assert forall|x: u128| self.values@.contains_key(x) <==> has_key(pushed, x) by {
                        assert(has_key(live.drop_last(), x) <==> (has_key(live, x) && x != ek));
                    }
                    r
                }
            },
            None => {
                let r = self.values.insert(k, v);
                assert(self.values@ == mid_values.insert(k, v));
                assert(!has_key(live, k));
                assert forall|x: u128| self.values@.contains_key(x) <==> has_key(pushed, x) by {
                    assert(pushed == seq![(k, now)] + live);
                    assert(has_key(seq![(k, now)] + live, x) <==> (x == k || has_key(live, x)));
                    assert(mid_values.contains_key(x) <==> has_key(live, x));
                }
                r
            },
        };
        assert forall|x: u128| #[trigger] self.values@.contains_key(x) && x != k implies self.values@[x] == old(self).values()[x] by {
            match evicted {
                Some((ek, _)) => {
                    if ek != k {
                        assert(self.values@ == mid_values.remove(ek).insert(k, v));
                    } else {
                        assert(self.values@ == mid_values.insert(k, v));
                    }
                },
                None => {
                    assert(self.values@ == mid_values.insert(k, v));
                },
            }
            assert(mid_values.contains_key(x));
            assert(self.values@[x] == mid_values[x]);
            assert(mid_values[x] == old(self).values()[x]);
        }
        r
    }

    /// Insert an element: drop the elements that expired, then make `k` the
    /// most recently used element, replacing its old value or, in a full
    /// map, evicting the least recently used element. Hands back the replaced
    /// or evicted value. The time is read from the map's clock, so this holds
    /// for some time `now`.
    pub fn insert(&mut self, k: u128, v: V) -> (r: Option<V>)
        requires
            old(self).wf(),
        ensures
            final(self).wf(),
            final(self).capacity() == old(self).capacity(),
            final(self).max_duration() == old(self).max_duration(),
            final(self).values().contains_key(k),
            final(self).values()[k] == v,
            exists|now: u64|
                #![trigger live_entries(old(self).entries(), now, old(self).max_duration())]
                final(self).entries() == lru_push_result(
                    live_entries(old(self).entries(), now, old(self).max_duration()),
                    k,
                    now,
                    old(self).capacity(),
                ).0 && r == match lru_push_result(
                    live_entries(old(self).entries(), now, old(self).max_duration()),
                    k,
                    now,
                    old(self).capacity(),
                ).1 {
                    Some(e) => Some(old(self).values()[e.0]),
                    None => None::<V>,
                },
    {
        let now = clock_elapsed_ms(&self.clock);
        let r = self.insert_at(k, v, now);
        let ghost live = live_entries(old(self).entries(), now, old(self).max_duration());
        r
    }

    /// Remove an element at time `now` and hand back its value, unless it
    /// has expired.
    pub fn remove_at(&mut self, k: u128, now: u64) -> (r: Option<V>)
        requires
            old(self).wf(),
        ensures
            final(self).wf(),
            final(self).capacity() == old(self).capacity(),
            final(self).max_duration() == old(self).max_duration(),
            has_key(old(self).entries(), k) ==> final(self).entries() == old(self).entries().remove(
                key_index(old(self).entries(), k)),
            !has_key(old(self).entries(), k) ==> final(self).entries() == old(self).entries(),
            final(self).entries().len() == old(self).entries().len() - (if has_key(old(self).entries(), k) {
                1int
            } else {
                0int
            }),
            final(self).values() == old(self).values().remove(k),
            r == (if has_key(old(self).entries(), k) && !expired(
                old(self).entries()[key_index(old(self).entries(), k)].1,
                now,
                old(self).max_duration(),
            ) {
                Some(old(self).values()[k])
            } else {
                None::<V>
            }),
    {
        let ghost before = lru_entries(self.cache);
        let popped = lru_pop(&mut self.cache, k);
        let value = self.values.remove(&k);
        proof {
            if has_key(before, k) {
                lemma_remove_keys(before, key_index(before, k));
            }
            assert forall|x: u128| self.values@.contains_key(x) <==> has_key(lru_entries(self.cache), x) by {
                assert(old(self).values().contains_key(x) <==> has_key(before, x));
                if has_key(before, k) {
                    let i = key_index(before, k);
                    assert(has_key(before.remove(i), x) <==> (has_key(before, x) && x != before[i].0));
                }
            }
        }
        match popped {
            Some(inserted) => {
                if now >= inserted && now - inserted > self.max_duration_ms {
                    None
                } else {
                    value
                }
            },
            None => None,
        }
    }

    /// Remove an element and hand back its value, unless it has expired. The
    /// time is read from the map's clock.
    pub fn remove(&mut self, k: &u128) -> (r: Option<V>)
        requires
            old(self).wf(),
        ensures
            final(self).wf(),
            final(self).capacity() == old(self).capacity(),
            final(self).max_duration() == old(self).max_duration(),
            has_key(old(self).entries(), *k) ==> final(self).entries() == old(self).entries().remove(
                key_index(old(self).entries(), *k)),
            !has_key(old(self).entries(), *k) ==> final(self).entries() == old(self).entries(),
            final(self).entries().len() == old(self).entries().len() - (if has_key(old(self).entries(), *k) {
                1int
            } else {
                0int
            }),
            final(self).values() == old(self).values().remove(*k),
            !has_key(old(self).entries(), *k) ==> r.is_none(),
            r matches Some(v) ==> old(self).values().contains_key(*k) && v == old(self).values()[*k],
            exists|now: u64| r == (if #[trigger] old(self).live_at(*k, now) {
                Some(old(self).values()[*k])
            } else {
                None::<V>
            }),
    {
        let now = clock_elapsed_ms(&self.clock);
        let r = self.remove_at(*k, now);
        assert(r == (if old(self).live_at(*k, now) {
            Some(old(self).values()[*k])
        } else {
            None::<V>
        }));
        r
    }
}

/// Right after an insert at `now`, the inserted key is the most recently
/// used element and carries the time `now`, so it has not expired at `now`:
/// a removal at the same time hands back the inserted value.
pub proof fn lemma_insert_then_remove(s: Seq<(u128, u64)>, k: u128, now: u64, max: u64, cap: nat)
    requires
        lru_wf(s, cap),
    ensures
        ({
            let pushed = lru_push_result(live_entries(s, now, max), k, now, cap).0;
            &&& has_key(pushed, k)
            &&& key_index(pushed, k) == 0
            &&& pushed[0] == (k, now)
            &&& !expired(pushed[key_index(pushed, k)].1, now, max)
        }),
{
    let live = live_entries(s, now, max);
    lemma_live_wf(s, now, max);
    let (pushed, _) = lru_push_result(live, k, now, cap);
    if has_key(live, k) {
        lemma_remove_keys(live, key_index(live, k));
        lemma_push_front(live.remove(key_index(live, k)), k, now);
    } else if live.len() == cap {
        lemma_remove_keys(live, live.len() - 1);
        assert(live.remove(live.len() - 1) =~= live.drop_last());
        lemma_push_front(live.drop_last(), k, now);
    } else {
        lemma_push_front(live, k, now);
    }
}

/// The live entries of well formed entries are well formed.
pub proof fn lemma_live_wf(s: Seq<(u128, u64)>, now: u64, max: u64)
    requires
        keys_distinct(s),
    ensures
        keys_distinct(live_entries(s, now, max)),
        live_entries(s, now, max).len() <= s.len(),
        forall|x: u128| has_key(live_entries(s, now, max), x) ==> has_key(s, x),
    decreases s.len(),
{
    if s.len() > 0 {
        let d = s.drop_last();
        assert(keys_distinct(d));
        lemma_live_wf(d, now, max);
        let rest = live_entries(d, now, max);
        assert forall|x: u128| has_key(d, x) implies has_key(s, x) by {
            let j = choose|j: int| 0 <= j < d.len() && d[j].0 == x;
            assert(s[j].0 == x);
        }
        if !expired(s.last().1, now, max) {
            assert(!has_key(d, s.last().0)) by {
                if has_key(d, s.last().0) {
                    let j = choose|j: int| 0 <= j < d.len() && d[j].0 == s.last().0;
                    assert(s[j].0 == s[s.len() - 1].0);
                }
            }
            let r = rest.push(s.last());
            assert forall|a: int, b: int| 0 <= a < b < r.len() implies r[a].0 != r[b].0 by {
                if b == r.len() - 1 {
                    assert(r[a] == rest[a]);
                    if rest[a].0 == s.last().0 {
                        assert(has_key(rest, s.last().0));
                    }
                }
            }
            assert forall|x: u128| has_key(r, x) implies has_key(s, x) by {
                let a = choose|a: int| 0 <= a < r.len() && r[a].0 == x;
                if a < rest.len() {
                    assert(rest[a].0 == x);
                    assert(has_key(rest, x));
                } else {
                    assert(s[s.len() - 1].0 == x);
                }
            }
        }
    }
}

/// The map never holds more elements than its capacity.
pub proof fn lemma_len_within_capacity<V>(m: BoundedHashMap<V>)
    requires
        m.wf(),
    ensures
        m.entries().len() <= m.capacity(),
        forall|x: u128| m.values().contains_key(x) <==> has_key(m.entries(), x),
{
}

} // verus!
