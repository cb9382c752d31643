//! An associative store whose entries may carry an expiry instant, with lazy
//! bulk eviction driven by a list of tombstones.
use std::collections::HashMap;
use std::hash::Hash;
use vstd::prelude::*;
use vstd::std_specs::hash::obeys_key_model;

verus! {

broadcast use vstd::std_specs::hash::group_hash_axioms;

/// The instant at which an entry stops being valid, in clock ticks.
#[derive(PartialEq, Eq, Structural, Clone, Copy, Debug)]
pub struct Expiry(pub u64);

impl Expiry {
    /// An entry that expires at `self` is no longer valid at `now`.
    pub fn has_expired(&self, now: u64) -> (r: bool)
        ensures
            r == (now >= self.0),
    {
        now >= self.0
    }
}

/// A stored value together with its expiry (`None`: it never expires).
#[derive(Clone, Copy, Debug)]
pub struct Record<V> {
    pub value: V,
    pub expiry: Option<Expiry>,
}

/// A record is expired at `now` when it has an expiry that `now` has reached.
pub open spec fn expired_at<V>(rec: Record<V>, now: u64) -> bool {
    match rec.expiry {
        Some(e) => e.0 <= now,
        None => false,
    }
}

/// The expiry that a time-to-live gives at `now`.
pub open spec fn expiry_after(now: u64, ttl: Option<u64>) -> Option<Expiry> {
    match ttl {
        Some(d) => Some(Expiry((now + d) as u64)),
        None => None,
    }
}

/// A time-to-live is acceptable at `now` when it is positive and its expiry fits.
pub open spec fn ttl_ok(now: u64, ttl: Option<u64>) -> bool {
    match ttl {
        Some(d) => d > 0 && now + d <= u64::MAX,
        None => true,
    }
}

/// What a write or a removal of `key` hands back: the stored value, if it is
/// live at `now`.
pub open spec fn live_value<K, V>(m: Map<K, Record<V>>, now: u64, key: K) -> Option<V> {
    if m.contains_key(key) && !expired_at(m[key], now) {
        Some(m[key].value)
    } else {
        None
    }
}

/// The values of the entries of `m` that are expired at `now`.
pub open spec fn expired_values<K, V>(m: Map<K, Record<V>>, now: u64) -> Map<K, V> {
    Map::new(|k: K| m.contains_key(k) && expired_at(m[k], now), |k: K| m[k].value)
}

/// The entries of `m` that are still live at `now`.
pub open spec fn live_entries<K, V>(m: Map<K, Record<V>>, now: u64) -> Map<K, Record<V>> {
    Map::new(|k: K| m.contains_key(k) && !expired_at(m[k], now), |k: K| m[k])
}

spec fn sorted_desc<K>(g: Seq<Tombstone<K>>) -> bool {
    forall|i: int, j: int|
        0 <= i < j < g.len() ==> (#[trigger] g[i]).expiry.0 >= (#[trigger] g[j]).expiry.0
}

#[verifier::rlimit(50)]
proof fn lemma_insert_sorted<K>(g: Seq<Tombstone<K>>, i: int, t: Tombstone<K>)
    requires
        sorted_desc(g),
        0 <= i <= g.len(),
        forall|j: int| 0 <= j < i ==> (#[trigger] g[j]).expiry.0 >= t.expiry.0,
        i < g.len() ==> g[i].expiry.0 < t.expiry.0,
    ensures
        sorted_desc(g.insert(i, t)),
{
    let h = g.insert(i, t);
    assert forall|a: int, b: int| 0 <= a < b < h.len() implies (#[trigger] h[a]).expiry.0 >= (
    #[trigger] h[b]).expiry.0 by {
        if b < i {
            assert(h[a] == g[a] && h[b] == g[b]);
        } else if b == i {
            assert(h[a] == g[a] && h[b] == t);
        } else if a < i {
            assert(h[a] == g[a] && h[b] == g[b - 1]);
        } else if a == i {
            assert(h[b] == g[b - 1]);
            assert(g[i].expiry.0 >= g[b - 1].expiry.0 || b - 1 == i);
        } else {
            assert(h[a] == g[a - 1] && h[b] == g[b - 1]);
        }
    }
}

/// A note that `key` is due to expire at `expiry`; it is stale once the entry
/// was rewritten or removed.
#[derive(Clone, Copy)]
struct Tombstone<K> {
    key: K,
    expiry: Expiry,
}

/// A map from keys to values in which each entry may expire. Entries that
/// expire leave a tombstone behind; `try_evict` settles the tombstones whose
/// instant has come, and a tombstone that an overwrite made stale is dropped
/// without touching the entry.
pub struct HashTtlCache<K, V> {
    map: HashMap<K, Record<V>>,
    graveyard: Vec<Tombstone<K>>,
    default_ttl: Option<u64>,
    now: u64,
}

impl<K: Eq + Hash + Copy, V: Copy> HashTtlCache<K, V> {
    /// The stored records, by key.
    pub closed spec fn entries(&self) -> Map<K, Record<V>> {
        self.map@
    }

    /// The cache's clock: the instant of construction or of the last eviction.
    pub closed spec fn clock(&self) -> u64 {
        self.now
    }

    /// The time-to-live that `insert` uses.
    pub closed spec fn default_ttl_spec(&self) -> Option<u64> {
        self.default_ttl
    }

    /// Every entry with an expiry has a tombstone that matches it.
    closed spec fn covered(&self) -> bool {
        forall|k: K|
            #![trigger self.map@[k]]
            self.map@.contains_key(k) && self.map@[k].expiry.is_some() ==> exists|i: int|
                0 <= i < self.graveyard@.len() && #[trigger] self.graveyard@[i] == (Tombstone {
                    key: k,
                    expiry: self.map@[k].expiry.unwrap(),
                })
    }

    /// No entry is expired at the cache's clock.
    pub closed spec fn all_live(&self) -> bool {
        forall|k: K| #[trigger]
            self.map@.contains_key(k) ==> !expired_at(self.map@[k], self.now)
    }

    /// The tombstones run from the latest expiry to the earliest, so the next
    /// one due is the last.
    closed spec fn sorted(&self) -> bool {
        sorted_desc(self.graveyard@)
    }

    /// What holds at every moment, in the middle of an eviction too.
    closed spec fn tombstones_ok(&self) -> bool {
        &&& obeys_key_model::<K>()
        &&& self.default_ttl != Some(0u64)
        &&& self.covered()
        &&& self.sorted()
    }

    /// Keys hash consistently, the default time-to-live is positive, every
    /// expiring entry has its tombstone, the tombstones are ordered by expiry,
    /// and no entry is expired at the clock.
    pub closed spec fn well_formed(&self) -> bool {
        &&& self.tombstones_ok()
        &&& self.all_live()
    }

    /// Files `tomb` among the tombstones, after those that expire no earlier.
    fn bury(&mut self, tomb: Tombstone<K>)
        requires
            old(self).sorted(),
        ensures
            final(self).sorted(),
            final(self).map == old(self).map,
            final(self).now == old(self).now,
            final(self).default_ttl == old(self).default_ttl,
            exists|m: int| 0 <= m < final(self).graveyard@.len() && final(self).graveyard@[m] == tomb,
            forall|j: int|
                0 <= j < old(self).graveyard@.len() ==> exists|m: int|
                    0 <= m < final(self).graveyard@.len() && final(self).graveyard@[m]
                        == #[trigger] old(self).graveyard@[j],
    {
        let mut i: usize = 0;
        while i < self.graveyard.len() && self.graveyard[i].expiry.0 >= tomb.expiry.0
            invariant
                i <= self.graveyard@.len(),
                self.graveyard@ == old(self).graveyard@,
                forall|j: int| 0 <= j < i ==> (#[trigger] self.graveyard@[j]).expiry.0 >= tomb.expiry.0,
            decreases self.graveyard@.len() - i,
        {
            i = i + 1;
        }
        let ghost g = self.graveyard@;
        self.graveyard.insert(i, tomb);
        proof {
            assert(self.graveyard@[i as int] == tomb);
            assert forall|j: int| 0 <= j < g.len() implies exists|m: int|
                0 <= m < self.graveyard@.len() && self.graveyard@[m] == #[trigger] g[j] by {
                if j < i {
                    assert(self.graveyard@[j] == g[j]);
                } else {
                    assert(self.graveyard@[j + 1] == g[j]);
                }
            }
            lemma_insert_sorted(g, i as int, tomb);
        }
    }

    /// An empty cache whose clock stands at `now`.
    pub fn new(default_ttl: Option<u64>, now: u64) -> (r: Self)
        requires
            obeys_key_model::<K>(),
            default_ttl != Some(0u64),
        ensures
            r.well_formed(),
            r.entries() == Map::<K, Record<V>>::empty(),
            r.clock() == now,
            r.default_ttl_spec() == default_ttl,
    {
        HashTtlCache { map: HashMap::new(), graveyard: Vec::new(), default_ttl, now }
    }
    /// Stores `value` under `key`, expiring `ttl` ticks from the clock (never,
    /// for `None`). Returns the value that it replaces, if that one was live.
    pub fn insert_with_ttl(&mut self, key: K, value: V, ttl: Option<u64>) -> (r: Option<V>)
        requires
            old(self).well_formed(),
            ttl_ok(old(self).clock(), ttl),
        ensures
            final(self).well_formed(),
            final(self).clock() == old(self).clock(),
            final(self).default_ttl_spec() == old(self).default_ttl_spec(),
            final(self).entries() == old(self).entries().insert(
                key,
                Record { value, expiry: expiry_after(old(self).clock(), ttl) },
            ),
            r == live_value(old(self).entries(), old(self).clock(), key),
    {
        let expiry: Option<Expiry> = match ttl {
            Some(d) => Some(Expiry(self.now + d)),
            None => None,
        };
        let old_value: Option<V> = match self.map.get(&key) {
            Some(record) => {
                match record.expiry {
                    Some(e) => {
                        if e.has_expired(self.now) {
                            None
                        } else {
                            Some(record.value)
                        }
                    },
                    None => Some(record.value),
                }
            },
            None => None,
        };
        let ghost old_graveyard = self.graveyard@;
        self.map.insert(key, Record { value, expiry });
        if let Some(e) = expiry {
            self.bury(Tombstone { key, expiry: e });
        }
        proof {
            assert forall|k: K|
                #![trigger self.map@[k]]
                self.map@.contains_key(k) && self.map@[k].expiry.is_some() implies exists|i: int|
                    0 <= i < self.graveyard@.len() && #[trigger] self.graveyard@[i] == (Tombstone {
                        key: k,
                        expiry: self.map@[k].expiry.unwrap(),
                    }) by {
                if k != key {
                    assert(old(self).map@.contains_key(k));
                    let i = choose|i: int|
                        0 <= i < old_graveyard.len() && #[trigger] old_graveyard[i] == (Tombstone {
                            key: k,
                            expiry: old(self).map@[k].expiry.unwrap(),
                        });
                    let m = choose|m: int|
                        0 <= m < self.graveyard@.len() && self.graveyard@[m] == #[trigger] old_graveyard[i];
                    assert(self.graveyard@[m] == old_graveyard[i]);
                } else {
                    let e = self.map@[k].expiry.unwrap();
                    let m = choose|m: int|
                        0 <= m < self.graveyard@.len() && self.graveyard@[m] == (Tombstone { key, expiry: e });
                    assert(self.graveyard@[m] == (Tombstone { key: k, expiry: e }));
                }
            }
            assert forall|k: K| #[trigger]
                self.map@.contains_key(k) implies !expired_at(self.map@[k], self.now) by {
                if k != key {
                    assert(old(self).map@.contains_key(k));
                }
            }
        }
        old_value
    }

    /// Stores `value` under `key` with the cache's default time-to-live.
    pub fn insert(&mut self, key: K, value: V) -> (r: Option<V>)
        requires
            old(self).well_formed(),
            ttl_ok(old(self).clock(), old(self).default_ttl_spec()),
        ensures
            final(self).well_formed(),
            final(self).clock() == old(self).clock(),
            final(self).default_ttl_spec() == old(self).default_ttl_spec(),
            final(self).entries() == old(self).entries().insert(
                key,
                Record { value, expiry: expiry_after(old(self).clock(), old(self).default_ttl_spec()) },
            ),
            r == live_value(old(self).entries(), old(self).clock(), key),
    {
        let ttl = self.default_ttl;
        self.insert_with_ttl(key, value, ttl)
    }

    /// Takes the entry of `key` out; returns its value if it was live.
    pub fn remove(&mut self, key: &K) -> (r: Option<V>)
        requires
            old(self).well_formed(),
        ensures
            final(self).well_formed(),
            final(self).clock() == old(self).clock(),
            final(self).default_ttl_spec() == old(self).default_ttl_spec(),
            final(self).entries() == old(self).entries().remove(*key),
            r == live_value(old(self).entries(), old(self).clock(), *key),
    {
        let removed = self.map.remove(key);
        proof {
            assert forall|k: K|
                #![trigger self.map@[k]]
                self.map@.contains_key(k) && self.map@[k].expiry.is_some() implies exists|i: int|
                    0 <= i < self.graveyard@.len() && #[trigger] self.graveyard@[i] == (Tombstone {
                        key: k,
                        expiry: self.map@[k].expiry.unwrap(),
                    }) by {
                assert(old(self).map@.contains_key(k));
                assert(old(self).map@[k] == self.map@[k]);
                let i = choose|i: int|
                    0 <= i < old(self).graveyard@.len() && #[trigger] old(self).graveyard@[i] == (Tombstone {
                        key: k,
                        expiry: old(self).map@[k].expiry.unwrap(),
                    });
                assert(self.graveyard@[i] == old(self).graveyard@[i]);
            }
            assert forall|k: K| #[trigger]
                self.map@.contains_key(k) implies !expired_at(self.map@[k], self.now) by {
                assert(old(self).map@.contains_key(k));
            }
        }
        match removed {
            Some(record) => {
                let live = match record.expiry {
                    Some(e) => !e.has_expired(self.now),
                    None => true,
                };
                if live {
                    Some(record.value)
                } else {
                    None
                }
            },
            None => None,
        }
    }

    /// The value stored under `key`, whether or not it has expired.
    pub fn get(&self, key: &K) -> (r: Option<&V>)
        requires
            self.well_formed(),
        ensures
            r == (if self.entries().contains_key(*key) {
                Some(&self.entries()[*key].value)
            } else {
                None
            }),
    {
        match self.map.get(key) {
            Some(record) => Some(&record.value),
            None => None,
        }
    }
    /// Every entry that a well-formed cache holds, and so every value that `get`
    /// hands out, is live at the cache's clock: it never expires, or its last
    /// expiry lies after the clock.
    pub proof fn lemma_held_entries_live(&self)
        requires
            self.well_formed(),
        ensures
            forall|k: K| #[trigger]
                self.entries().contains_key(k) ==> !expired_at(self.entries()[k], self.clock()),
    {
    }

    /// Takes out the entry that is next due, if it has expired at the clock.
    /// Tombstones are settled from the earliest expiry on; a stale one is
    /// dropped without touching the entry. `Some` carries an expired entry of
    /// the earliest expiry; `None` means that no entry is expired at the clock.
    fn try_evict_once(&mut self) -> (r: Option<(K, V)>)
        requires
            old(self).tombstones_ok(),
        ensures
            final(self).tombstones_ok(),
            final(self).now == old(self).now,
            final(self).default_ttl == old(self).default_ttl,
            final(self).graveyard@.len() <= old(self).graveyard@.len(),
            match r {
                Some((k, v)) => {
                    &&& old(self).map@.contains_key(k)
                    &&& old(self).map@[k].value == v
                    &&& old(self).map@[k].expiry is Some
                    &&& expired_at(old(self).map@[k], old(self).now)
                    &&& forall|k2: K|
                        #![trigger old(self).map@[k2]]
                        old(self).map@.contains_key(k2) && old(self).map@[k2].expiry is Some
                            ==> old(self).map@[k].expiry.unwrap().0
                            <= old(self).map@[k2].expiry.unwrap().0
                    &&& final(self).map@ == old(self).map@.remove(k)
                    &&& final(self).graveyard@.len() < old(self).graveyard@.len()
                },
                None => {
                    &&& final(self).map@ == old(self).map@
                    &&& final(self).all_live()
                },
            },
    {
        loop
            invariant
                self.tombstones_ok(),
                self.map@ == old(self).map@,
                self.now == old(self).now,
                self.default_ttl == old(self).default_ttl,
                self.graveyard@.len() <= old(self).graveyard@.len(),
            decreases self.graveyard@.len(),
        {
            let n = self.graveyard.len();
            if n == 0 {
                proof {
                    assert forall|k: K| #[trigger]
                        self.map@.contains_key(k) implies !expired_at(self.map@[k], self.now) by {
                        if self.map@[k].expiry is Some {
                            assert(self.map@[k] == self.map@[k]);
                        }
                    }
                }
                return None;
            }
            let tomb = self.graveyard[n - 1];
            if !tomb.expiry.has_expired(self.now) {
                proof {
                    assert forall|k: K| #[trigger]
                        self.map@.contains_key(k) implies !expired_at(self.map@[k], self.now) by {
                        if self.map@[k].expiry is Some {
                            let i = choose|i: int|
                                0 <= i < self.graveyard@.len() && #[trigger] self.graveyard@[i] == (
                                Tombstone { key: k, expiry: self.map@[k].expiry.unwrap() });
                            if i < n - 1 {
                                assert(self.graveyard@[i].expiry.0 >= self.graveyard@[n - 1].expiry.0);
                            }
                        }
                    }
                }
                return None;
            }
            let ghost g = self.graveyard@;
            self.graveyard.pop();
            proof {
                assert(self.graveyard@ =~= g.subrange(0, n - 1));
                // every entry's tombstone lies no later than the one just taken
                assert forall|k2: K|
                    #![trigger self.map@[k2]]
                    self.map@.contains_key(k2) && self.map@[k2].expiry is Some implies tomb.expiry.0
                        <= self.map@[k2].expiry.unwrap().0 by {
                    let i = choose|i: int|
                        0 <= i < g.len() && #[trigger] g[i] == (Tombstone {
                            key: k2,
                            expiry: self.map@[k2].expiry.unwrap(),
                        });
                    if i < n - 1 {
                        assert(g[i].expiry.0 >= g[n - 1].expiry.0);
                    }
                }
            }
            let matches = match self.map.get(&tomb.key) {
                Some(record) => match record.expiry {
                    Some(e) => e == tomb.expiry,
                    None => false,
                },
                None => false,
            };
            if matches {
                let ghost m = self.map@;
                let removed = self.map.remove(&tomb.key);
                proof {
                    assert forall|k: K|
                        #![trigger self.map@[k]]
                        self.map@.contains_key(k) && self.map@[k].expiry.is_some() implies exists|i: int|
                            0 <= i < self.graveyard@.len() && #[trigger] self.graveyard@[i] == (Tombstone {
                                key: k,
                                expiry: self.map@[k].expiry.unwrap(),
                            }) by {
                        assert(m[k] == self.map@[k]);
                        let i = choose|i: int|
                            0 <= i < g.len() && #[trigger] g[i] == (Tombstone {
                                key: k,
                                expiry: m[k].expiry.unwrap(),
                            });
                        assert(i != n - 1);
                        assert(self.graveyard@[i] == g[i]);
                    }
                }
                match removed {
                    Some(record) => {
                        return Some((tomb.key, record.value));
                    },
                    None => {
                        return None;
                    },
                }
            } else {
                proof {
                    assert forall|k: K|
                        #![trigger self.map@[k]]
                        self.map@.contains_key(k) && self.map@[k].expiry.is_some() implies exists|i: int|
                            0 <= i < self.graveyard@.len() && #[trigger] self.graveyard@[i] == (Tombstone {
                                key: k,
                                expiry: self.map@[k].expiry.unwrap(),
                            }) by {
                        let i = choose|i: int|
                            0 <= i < g.len() && #[trigger] g[i] == (Tombstone {
                                key: k,
                                expiry: self.map@[k].expiry.unwrap(),
                            });
                        assert(i != n - 1);
                        assert(self.graveyard@[i] == g[i]);
                    }
                }
            }
        }
    }

    /// Moves the clock to `now` and takes out every entry whose expiry `now`
    /// has reached; returns them, by key.
    pub fn try_evict(&mut self, now: u64) -> (r: HashMap<K, V>)
        requires
            old(self).well_formed(),
            old(self).clock() < now,
        ensures
            final(self).well_formed(),
            final(self).clock() == now,
            final(self).default_ttl_spec() == old(self).default_ttl_spec(),
            r@ == expired_values(old(self).entries(), now),
            final(self).entries() == live_entries(old(self).entries(), now),
    {
        let ghost m0 = self.map@;
        assert(m0 == old(self).entries());
        self.now = now;
        proof {
            assert forall|k: K|
                #![trigger self.map@[k]]
                self.map@.contains_key(k) && self.map@[k].expiry.is_some() implies exists|i: int|
                    0 <= i < self.graveyard@.len() && #[trigger] self.graveyard@[i] == (Tombstone {
                        key: k,
                        expiry: self.map@[k].expiry.unwrap(),
                    }) by {
                assert(old(self).map@[k] == self.map@[k]);
                let i = choose|i: int|
                    0 <= i < old(self).graveyard@.len() && #[trigger] old(self).graveyard@[i] == (Tombstone {
                        key: k,
                        expiry: old(self).map@[k].expiry.unwrap(),
                    });
                assert(self.graveyard@[i] == old(self).graveyard@[i]);
            }
        }
        let mut evicted: HashMap<K, V> = HashMap::new();
        loop
            invariant
                self.tombstones_ok(),
                self.now == now,
                m0 == old(self).map@,
                self.default_ttl == old(self).default_ttl,
                forall|k: K| #[trigger]
                    self.map@.contains_key(k) ==> m0.contains_key(k) && self.map@[k] == m0[k],
                forall|k: K|
                    #![trigger m0[k]]
                    m0.contains_key(k) && !expired_at(m0[k], now) ==> self.map@.contains_key(k),
                forall|k: K| #[trigger]
                    evicted@.contains_key(k) <==> (m0.contains_key(k) && !self.map@.contains_key(k)),
                forall|k: K| #[trigger] evicted@.contains_key(k) ==> evicted@[k] == m0[k].value,
            decreases self.graveyard@.len(),
        {
            let ghost before = self.map@;
            match self.try_evict_once() {
                Some((k, v)) => {
                    proof {
                        assert(before.contains_key(k));
                        assert(m0[k] == before[k]);
                        assert forall|k2: K|
                            #![trigger m0[k2]]
                            m0.contains_key(k2) && !expired_at(m0[k2], now) implies self.map@.contains_key(k2) by {
                            assert(before.contains_key(k2));
                        }
                    }
                    evicted.insert(k, v);
                },
                None => {
                    proof {
                        assert forall|k: K|
                            #![trigger m0[k]]
                            m0.contains_key(k) && expired_at(m0[k], now) implies !self.map@.contains_key(k) by {
                            if self.map@.contains_key(k) {
                                assert(!expired_at(self.map@[k], now));
                            }
                        }
                        assert(evicted@ =~= expired_values(m0, now));
                        assert(self.map@ =~= live_entries(m0, now));
                    }
                    return evicted;
                },
            }
        }
    }
}

/// Writing a key that was written before hands back the first value exactly
/// when it is still live at the clock of the second write: always when no
/// eviction came between, and after an eviction only if it was not expired.
/// The key then holds the second value.
pub proof fn lemma_overwrite_returns_previous<K, V>(
    m: Map<K, Record<V>>,
    k: K,
    v1: V,
    t1: u64,
    ttl1: Option<u64>,
    v2: V,
    t2: u64,
    ttl2: Option<u64>,
)
    requires
        ttl_ok(t1, ttl1),
        t1 <= t2,
    ensures
        ({
            let first = Record { value: v1, expiry: expiry_after(t1, ttl1) };
            let m1 = m.insert(k, first);
            &&& live_value(m1, t1, k) == Some(v1)
            &&& live_value(live_entries(m1, t2), t2, k) == (if expired_at(first, t2) {
                None
            } else {
                Some(v1)
            })
            &&& m1.insert(k, Record { value: v2, expiry: expiry_after(t2, ttl2) })[k].value == v2
            &&& live_entries(m1, t2).insert(k, Record { value: v2, expiry: expiry_after(t2, ttl2) })[k].value == v2
        }),
{
}

/// Rewriting a key with an expiry later than its first one keeps it through an
/// eviction at any instant before the new expiry, past the first one included.
pub proof fn lemma_extended_expiry_survives<K, V>(
    m: Map<K, Record<V>>,
    k: K,
    t1: u64,
    ttl1: u64,
    v2: V,
    t2: u64,
    ttl2: u64,
    t: u64,
)
    requires
        ttl_ok(t1, Some(ttl1)),
        ttl_ok(t2, Some(ttl2)),
        t1 <= t2,
        t1 + ttl1 < t2 + ttl2,
        t1 + ttl1 <= t < t2 + ttl2,
    ensures
        ({
            let m2 = m.insert(k, Record { value: v2, expiry: expiry_after(t2, Some(ttl2)) });
            &&& !expired_values(m2, t).contains_key(k)
            &&& live_entries(m2, t).contains_key(k)
            &&& live_entries(m2, t)[k].value == v2
        }),
{
}

} // verus!
