use crate::data::Entry;
use vstd::prelude::*;

verus! {

/// The keys whose cells are no longer alive at second `now`.
pub open spec fn dead_keys<K, V>(entries: Map<K, Entry<V>>, now: u64) -> Set<K> {
    Set::new(|key: K| entries.contains_key(key) && !entries[key].alive_at(now))
}

/// Whether every cell of the store is alive at second `now`.
pub open spec fn all_alive<K, V>(entries: Map<K, Entry<V>>, now: u64) -> bool {
    forall|key: K| entries.contains_key(key) ==> (#[trigger] entries[key]).alive_at(now)
}

/// The store after a sweep at second `now`: every dead cell gone, every live cell as it was.
pub open spec fn swept<K, V>(entries: Map<K, Entry<V>>, now: u64) -> Map<K, Entry<V>> {
    entries.remove_keys(dead_keys(entries, now))
}

/// The payload under `key`, alive or not.
pub open spec fn held<K, V>(entries: Map<K, Entry<V>>, key: K) -> Option<V> {
    if entries.contains_key(key) {
        Some(entries[key].base)
    } else {
        None
    }
}

/// The payload a reader of `key` sees at second `now`: present only while its cell is alive.
pub open spec fn shown<K, V>(entries: Map<K, Entry<V>>, key: K, now: u64) -> Option<V> {
    if entries.contains_key(key) {
        entries[key].shown_at(now)
    } else {
        None
    }
}

/// The bound every store keeps: finitely many cells and, under a limit other than zero, no
/// more cells than the limit.
pub open spec fn within_limit<K, V>(entries: Map<K, Entry<V>>, limit: usize) -> bool {
    &&& entries.dom().finite()
    &&& limit == 0 || entries.len() <= limit
}

/// A bounded store is full once it holds as many cells as its limit; a limit of zero means
/// no bound.
pub open spec fn full<K, V>(entries: Map<K, Entry<V>>, limit: usize) -> bool {
    limit > 0 && entries.len() >= limit
}

/// The store as an insertion at second `now` finds it: swept first if it was full.
pub open spec fn room_made<K, V>(entries: Map<K, Entry<V>>, limit: usize, now: u64) -> Map<
    K,
    Entry<V>,
> {
    if full(entries, limit) {
        swept(entries, now)
    } else {
        entries
    }
}

/// Whether an insertion at second `now` is accepted: the store has room, or a sweep makes
/// some.
pub open spec fn admits<K, V>(entries: Map<K, Entry<V>>, limit: usize, now: u64) -> bool {
    !full(room_made(entries, limit, now), limit)
}

/// The store after an attempt to insert `value` under `key` at second `now`: unchanged when
/// the insertion is refused, otherwise holding the new cell in place of any earlier one.
pub open spec fn after_add<K, V>(
    entries: Map<K, Entry<V>>,
    limit: usize,
    key: K,
    value: V,
    lifetime_seconds: u64,
    now: u64,
) -> Map<K, Entry<V>> {
    if admits(entries, limit, now) {
        room_made(entries, limit, now).insert(
            key,
            Entry::starting_at(value, lifetime_seconds, now),
        )
    } else {
        entries
    }
}

/// The store after the eviction of `key` at second `now`, which spares a live cell.
pub open spec fn after_evict<K, V>(entries: Map<K, Entry<V>>, key: K, now: u64) -> Map<
    K,
    Entry<V>,
> {
    if dead_keys(entries, now).contains(key) {
        entries.remove(key)
    } else {
        entries
    }
}

/// The store after a purge of the `listed` keys at second `now`: of the cells under them,
/// the dead are gone and the living stay.
pub open spec fn purged<K, V>(entries: Map<K, Entry<V>>, listed: Set<K>, now: u64) -> Map<
    K,
    Entry<V>,
> {
    entries.remove_keys(listed.intersect(dead_keys(entries, now)))
}

/// One insertion: what is stored, under which key, for how long, and at which second.
pub struct Insertion<K, V> {
    pub key: K,
    pub value: V,
    pub lifetime_seconds: u64,
    pub now: u64,
}

impl<K, V> Insertion<K, V> {
    /// The cell this insertion stores if it is accepted.
    pub open spec fn cell(self) -> Entry<V> {
        Entry::starting_at(self.value, self.lifetime_seconds, self.now)
    }
}

/// The store after the insertions of `batch` have been attempted one after the other.
pub open spec fn after_batch<K, V>(
    entries: Map<K, Entry<V>>,
    limit: usize,
    batch: Seq<Insertion<K, V>>,
) -> Map<K, Entry<V>>
    decreases batch.len(),
{
    if batch.len() == 0 {
        entries
    } else {
        let prior = after_batch(entries, limit, batch.drop_last());
        let last = batch.last();
        after_add(prior, limit, last.key, last.value, last.lifetime_seconds, last.now)
    }
}

/// How many insertions of `batch` are accepted when they are attempted one after the other.
pub open spec fn accepted<K, V>(
    entries: Map<K, Entry<V>>,
    limit: usize,
    batch: Seq<Insertion<K, V>>,
) -> nat
    decreases batch.len(),
{
    if batch.len() == 0 {
        0
    } else {
        let prior = after_batch(entries, limit, batch.drop_last());
        let earlier = accepted(entries, limit, batch.drop_last());
        if admits(prior, limit, batch.last().now) {
            earlier + 1
        } else {
            earlier
        }
    }
}

/// A sweep only ever removes cells.
pub proof fn lemma_swept_is_smaller<K, V>(entries: Map<K, Entry<V>>, now: u64)
    requires
        entries.dom().finite(),
    ensures
        swept(entries, now).dom().finite(),
        swept(entries, now).dom().subset_of(entries.dom()),
        swept(entries, now).len() <= entries.len(),
{
    vstd::set_lib::lemma_len_subset(swept(entries, now).dom(), entries.dom());
}

/// A sweep that leaves the size as it was has removed nothing.
pub proof fn lemma_swept_same_size<K, V>(entries: Map<K, Entry<V>>, now: u64)
    requires
        entries.dom().finite(),
        swept(entries, now).len() >= entries.len(),
    ensures
        swept(entries, now) == entries,
{
    lemma_swept_is_smaller(entries, now);
    vstd::set_lib::lemma_subset_equality(swept(entries, now).dom(), entries.dom());
    assert(swept(entries, now) =~= entries);
}

} // verus!
