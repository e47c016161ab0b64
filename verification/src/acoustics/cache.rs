use vstd::prelude::*;

verus! {

/// Version number of a loaded acoustic scene.
pub type SceneVersion = u64;

/// Integer cell of the position grid, one coordinate per axis.
#[derive(Debug, Clone, Copy, PartialEq, Eq, Hash, Structural)]
pub struct GridCell {
    pub x: i32,
    pub y: i32,
    pub z: i32,
}

/// Quantized source/listener state that identifies a reusable IR.
///
/// Positions are reduced to integer cells of the cache's cell size, so two
/// queries that fall into the same cells of the same scene version share a key.
#[derive(Debug, Clone, Copy, PartialEq, Eq, Hash, Structural)]
pub struct IrCacheKey {
    pub scene_version: SceneVersion,
    pub query_id: u32,
    pub source_cell: GridCell,
    pub listener_cell: GridCell,
}

/// One cached snapshot with the query that produced it.
pub struct IrCacheEntry<Q, V> {
    pub key: IrCacheKey,
    pub query: Q,
    pub snapshot: V,
}

/// Whether no key occurs twice among the entries.
pub open spec fn keys_distinct<Q, V>(entries: Seq<IrCacheEntry<Q, V>>) -> bool {
    forall|i: int, j: int|
        0 <= i < entries.len() && 0 <= j < entries.len() && i != j ==> entries[i].key != entries[j].key
}

/// Whether an entry with `key` is cached.
pub open spec fn has_key<Q, V>(entries: Seq<IrCacheEntry<Q, V>>, key: IrCacheKey) -> bool {
    exists|i: int| 0 <= i < entries.len() && entries[i].key == key
}

/// Position of the entry with `key` (meaningful when `has_key`).
pub open spec fn key_position<Q, V>(entries: Seq<IrCacheEntry<Q, V>>, key: IrCacheKey) -> int {
    choose|i: int| 0 <= i < entries.len() && entries[i].key == key
}

/// Entries after `key`'s entry became the most recently used one.
pub open spec fn touched<Q, V>(entries: Seq<IrCacheEntry<Q, V>>, key: IrCacheKey) -> Seq<IrCacheEntry<Q, V>> {
    let i = key_position(entries, key);
    entries.remove(i).push(entries[i])
}

/// Entries after inserting `entry` as the most recently used one, replacing
/// any entry with the same key, and evicting the least recently used entries
/// beyond `max_entries`.
pub open spec fn inserted<Q, V>(entries: Seq<IrCacheEntry<Q, V>>, entry: IrCacheEntry<Q, V>, max_entries: nat) -> Seq<IrCacheEntry<Q, V>> {
    let grown = if has_key(entries, entry.key) {
        entries.remove(key_position(entries, entry.key)).push(entry)
    } else {
        entries.push(entry)
    };
    if grown.len() > max_entries {
        grown.skip(grown.len() - max_entries)
    } else {
        grown
    }
}

/// Small LRU cache for immutable impulse-response snapshots.
///
/// Entries are kept from least to most recently used; keys are distinct and
/// there are never more than `max_entries` of them. The cache hands out
/// clones, so callers keep using an IR after it is evicted. A cache whose
/// size limit is zero, or whose position policy is unusable, stores nothing.
pub struct IrCache<Q, V> {
    max_entries: usize,
    position_policy_ok: bool,
    /// Entries least recently used first, keys distinct: the order is the
    /// eviction order that lookups and inserts update.
    entries: Vec<IrCacheEntry<Q, V>>,
}

impl<Q, V: Clone> IrCache<Q, V> {
    /// Cached entries, least recently used first.
    pub closed spec fn spec_entries(&self) -> Seq<IrCacheEntry<Q, V>> {
        self.entries@
    }

    /// Maximum number of retained snapshots.
    pub closed spec fn spec_max_entries(&self) -> nat {
        self.max_entries as nat
    }

    /// Whether the cache stores and returns snapshots at all.
    pub closed spec fn spec_enabled(&self) -> bool {
        self.max_entries > 0 && self.position_policy_ok
    }

    /// Distinct keys, at most the size limit of entries, none while the
    /// cache is disabled; an enabled cache has a positive size limit.
    pub open spec fn wf(&self) -> bool {
        &&& self.spec_enabled() ==> self.spec_max_entries() > 0
        &&& keys_distinct(self.spec_entries())
        &&& self.spec_entries().len() <= self.spec_max_entries()
        &&& !self.spec_enabled() ==> self.spec_entries().len() == 0
    }

    /// Creates an empty cache.
    ///
    /// `position_policy_ok` says whether the cell size is finite and positive
    /// and the reuse distance finite and non-negative; without it the cache
    /// is disabled, as it is with a size limit of zero.
    pub fn new(max_entries: usize, position_policy_ok: bool) -> (cache: Self)
        ensures
            cache.wf(),
            cache.spec_entries() == Seq::<IrCacheEntry<Q, V>>::empty(),
            cache.spec_max_entries() == max_entries,
            cache.spec_enabled() == (max_entries > 0 && position_policy_ok),
    {
        IrCache { max_entries, position_policy_ok, entries: Vec::new() }
    }

    /// Returns whether the cache stores snapshots.
    pub fn is_enabled(&self) -> (enabled: bool)
        ensures
            enabled == self.spec_enabled(),
    {
        self.max_entries > 0 && self.position_policy_ok
    }

    /// Returns the number of retained snapshots.
    pub fn len(&self) -> (len: usize)
        ensures
            len == self.spec_entries().len(),
    {
        self.entries.len()
    }

    /// Drops all cached snapshots.
    pub fn clear(&mut self)
        ensures
            final(self).wf(),
            final(self).spec_entries() == Seq::<IrCacheEntry<Q, V>>::empty(),
            final(self).spec_max_entries() == old(self).spec_max_entries(),
            final(self).spec_enabled() == old(self).spec_enabled(),
    {
        self.entries.clear();
    }

    fn find(&self, key: IrCacheKey) -> (position: Option<usize>)
        requires
            self.wf(),
        ensures
            match position {
                Some(i) => {
                    &&& i < self.spec_entries().len()
                    &&& self.spec_entries()[i as int].key == key
                    &&& has_key(self.spec_entries(), key)
                    &&& key_position(self.spec_entries(), key) == i
                },
                None => !has_key(self.spec_entries(), key),
            },
    {
        let mut i: usize = 0;
        while i < self.entries.len()
            invariant
                i <= self.entries@.len(),
                forall|k: int| 0 <= k < i ==> self.entries@[k].key != key,
                keys_distinct(self.entries@),
            decreases self.entries@.len() - i,
        {
            if self.entries[i].key == key {
                proof {
                    let j = key_position(self.entries@, key);
                    assert(0 <= j < self.entries@.len() && self.entries@[j].key == key);
                    assert(keys_distinct(self.entries@));
                    if j != i as int {
                        assert(self.entries@[j].key != self.entries@[i as int].key);
                    }
                }
                return Some(i);
            }
            i = i + 1;
        }
        None
    }

    /// Returns a clone of the snapshot cached under `key` when `can_reuse`
    /// accepts the query it was built for, and marks it most recently used.
    ///
    /// Returns `None`, leaving the cache unchanged, when the cache is
    /// disabled, holds no entry for `key`, or `can_reuse` refuses it.
    pub fn get<F: Fn(&Q) -> bool>(&mut self, key: IrCacheKey, can_reuse: F) -> (snapshot: Option<V>)
        requires
            old(self).wf(),
            forall|q: &Q| call_requires(can_reuse, (q,)),
        ensures
            final(self).wf(),
            final(self).spec_max_entries() == old(self).spec_max_entries(),
            final(self).spec_enabled() == old(self).spec_enabled(),
            ({
                let entries = old(self).spec_entries();
                let i = key_position(entries, key);
                match snapshot {
                    Some(v) => {
                        &&& old(self).spec_enabled()
                        &&& has_key(entries, key)
                        &&& call_ensures(can_reuse, (&entries[i].query,), true)
                        &&& cloned(entries[i].snapshot, v)
                        &&& final(self).spec_entries() == touched(entries, key)
                    },
                    None => {
                        &&& final(self).spec_entries() == entries
                        &&& (old(self).spec_enabled() && has_key(entries, key)
                            ==> call_ensures(can_reuse, (&entries[i].query,), false))
                    },
                }
            }),
    {
        if !self.is_enabled() {
            return None;
        }
        let position = self.find(key);
        let i = match position {
            Some(i) => i,
            None => return None,
        };
        let reusable = can_reuse(&self.entries[i].query);
        if !reusable {
            return None;
        }
        let snapshot = self.entries[i].snapshot.clone();
        let ghost before = self.entries@;
        let entry = self.entries.remove(i);
        self.entries.push(entry);
        proof {
            assert(self.entries@ == touched(before, key));
            assert forall|a: int, b: int|
                0 <= a < self.entries@.len() && 0 <= b < self.entries@.len() && a != b
                implies self.entries@[a].key != self.entries@[b].key by {
                let n = before.len() - 1;
                let ia = if a == n { i as int } else if a < i { a } else { a + 1 };
                let ib = if b == n { i as int } else if b < i { b } else { b + 1 };
                assert(self.entries@[a] == before[ia]);
                assert(self.entries@[b] == before[ib]);
            }
        }
        Some(snapshot)
    }

    /// Inserts or replaces the snapshot for `key` as the most recently used
    /// entry, evicting least recently used entries beyond the size limit.
    /// A disabled cache ignores the call.
    pub fn insert(&mut self, key: IrCacheKey, query: Q, snapshot: V)
        requires
            old(self).wf(),
        ensures
            final(self).wf(),
            final(self).spec_max_entries() == old(self).spec_max_entries(),
            final(self).spec_enabled() == old(self).spec_enabled(),
            !old(self).spec_enabled() ==> final(self).spec_entries() == old(self).spec_entries(),
            old(self).spec_enabled() ==> final(self).spec_entries() == inserted(
                old(self).spec_entries(),
                IrCacheEntry { key, query, snapshot },
                old(self).spec_max_entries(),
            ),
    {
        if !self.is_enabled() {
            return;
        }
        let ghost before = self.entries@;
        let ghost entry = IrCacheEntry { key, query, snapshot };
        let position = self.find(key);
        match position {
            Some(i) => {
                let _ = self.entries.remove(i);
                proof {
                    assert forall|a: int, b: int|
                        0 <= a < self.entries@.len() && 0 <= b < self.entries@.len() && a != b
                        implies self.entries@[a].key != self.entries@[b].key by {
                        let ia = if a < i { a } else { a + 1 };
                        let ib = if b < i { b } else { b + 1 };
                        assert(self.entries@[a] == before[ia]);
                        assert(self.entries@[b] == before[ib]);
                    }
                    assert forall|a: int| 0 <= a < self.entries@.len() implies self.entries@[a].key != key by {
                        let ia = if a < i { a } else { a + 1 };
                        assert(self.entries@[a] == before[ia]);
                    }
                }
            },
            None => {},
        }
        self.entries.push(IrCacheEntry { key, query, snapshot });
        let ghost grown = self.entries@;
        assert(grown == if has_key(before, key) {
            before.remove(key_position(before, key)).push(entry)
        } else {
            before.push(entry)
        });
        assert(keys_distinct(grown));
        assert(grown.len() <= self.max_entries + 1);
        if self.entries.len() > self.max_entries {
            let _ = self.entries.remove(0);
            assert(self.entries@ =~= grown.skip(grown.len() - self.max_entries));
        }
        proof {
            assert forall|a: int, b: int|
                0 <= a < self.entries@.len() && 0 <= b < self.entries@.len() && a != b
                implies self.entries@[a].key != self.entries@[b].key by {
                if grown.len() > self.max_entries {
                    assert(self.entries@[a] == grown[a + 1]);
                    assert(self.entries@[b] == grown[b + 1]);
                }
            }
        }
    }
}

/// A snapshot just inserted into an enabled cache is retained, under its
/// key, as the most recently used entry, so the next lookup of that key
/// finds it.
pub proof fn law_insert_then_lookup<Q, V>(entries: Seq<IrCacheEntry<Q, V>>, entry: IrCacheEntry<Q, V>, max_entries: nat)
    requires
        keys_distinct(entries),
        entries.len() <= max_entries,
        max_entries > 0,
    ensures
        ({
            let after = inserted(entries, entry, max_entries);
            &&& has_key(after, entry.key)
            &&& after.len() > 0
            &&& after[after.len() - 1] == entry
            &&& key_position(after, entry.key) == after.len() - 1
            &&& keys_distinct(after)
            &&& after.len() <= max_entries
        }),
{
    lemma_inserted_distinct(entries, entry, max_entries);
    let after = inserted(entries, entry, max_entries);
    let last = after.len() - 1;
    assert(after[last] == entry);
    assert(0 <= last < after.len() && after[last].key == entry.key);
    let p = key_position(after, entry.key);
    if p != last {
        assert(after[p].key != after[last].key);
    }
}

proof fn lemma_inserted_distinct<Q, V>(entries: Seq<IrCacheEntry<Q, V>>, entry: IrCacheEntry<Q, V>, max_entries: nat)
    requires
        keys_distinct(entries),
        entries.len() <= max_entries,
        max_entries > 0,
    ensures
        keys_distinct(inserted(entries, entry, max_entries)),
        inserted(entries, entry, max_entries).len() <= max_entries,
        inserted(entries, entry, max_entries).len() > 0,
        inserted(entries, entry, max_entries)[inserted(entries, entry, max_entries).len() - 1] == entry,
{
    let grown = if has_key(entries, entry.key) {
        entries.remove(key_position(entries, entry.key)).push(entry)
    } else {
        entries.push(entry)
    };
    if has_key(entries, entry.key) {
        let p = key_position(entries, entry.key);
        let rest = entries.remove(p);
        assert forall|a: int| 0 <= a < rest.len() implies rest[a].key != entry.key by {
            let ia = if a < p { a } else { a + 1 };
            assert(rest[a] == entries[ia]);
        }
        assert forall|a: int, b: int| 0 <= a < grown.len() && 0 <= b < grown.len() && a != b
            implies grown[a].key != grown[b].key by {
            if a < rest.len() && b < rest.len() {
                let ia = if a < p { a } else { a + 1 };
                let ib = if b < p { b } else { b + 1 };
                assert(rest[a] == entries[ia]);
                assert(rest[b] == entries[ib]);
            }
        }
    } else {
        assert forall|a: int, b: int| 0 <= a < grown.len() && 0 <= b < grown.len() && a != b
            implies grown[a].key != grown[b].key by {
            if a == entries.len() as int {
                assert(grown[b] == entries[b]);
            } else if b == entries.len() as int {
                assert(grown[a] == entries[a]);
            }
        }
    }
    let after = inserted(entries, entry, max_entries);
    if grown.len() > max_entries {
        assert forall|a: int, b: int| 0 <= a < after.len() && 0 <= b < after.len() && a != b
            implies after[a].key != after[b].key by {
            let d = grown.len() - max_entries;
            assert(after[a] == grown[a + d]);
            assert(after[b] == grown[b + d]);
        }
    }
}

/// When a full cache receives a new key, exactly the least recently used
/// entry is evicted; the others keep their order behind the new entry.
pub proof fn law_evicts_least_recently_used<Q, V>(entries: Seq<IrCacheEntry<Q, V>>, entry: IrCacheEntry<Q, V>, max_entries: nat)
    requires
        entries.len() == max_entries,
        max_entries > 0,
        !has_key(entries, entry.key),
    ensures
        inserted(entries, entry, max_entries) == entries.skip(1).push(entry),
{
    assert(inserted(entries, entry, max_entries) =~= entries.skip(1).push(entry));
}

/// Using a cached entry makes it the most recently used one without adding
/// or dropping any entry.
pub proof fn law_touch_moves_to_back<Q, V>(entries: Seq<IrCacheEntry<Q, V>>, key: IrCacheKey)
    requires
        has_key(entries, key),
    ensures
        touched(entries, key).len() == entries.len(),
        touched(entries, key)[entries.len() - 1] == entries[key_position(entries, key)],
        touched(entries, key)[entries.len() - 1].key == key,
{
}

} // verus!
