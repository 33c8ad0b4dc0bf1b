use crate::data::{deadline, Entry};
use crate::manager::watermark;
use crate::model::{accepted, after_add, after_batch, after_evict, admits, all_alive, dead_keys};
use crate::model::{held, purged, shown, swept, within_limit, Insertion};
use crate::model::{lemma_swept_is_smaller, lemma_swept_same_size};
use vstd::prelude::*;

verus! {

/// A value that has been accepted is shown to every reader that asks no later than the last
/// second of its lifetime: at the second of the insertion, and at any second up to
/// `lifetime_seconds` after it.
pub proof fn accepted_value_is_shown<K, V>(
    entries: Map<K, Entry<V>>,
    limit: usize,
    key: K,
    value: V,
    lifetime_seconds: u64,
    now: u64,
    later: u64,
)
    requires
        admits(entries, limit, now),
        later <= deadline(now, lifetime_seconds),
    ensures
        shown(after_add(entries, limit, key, value, lifetime_seconds, now), key, later) == Some(
            value,
        ),
{
}

/// Once the seconds of its lifetime have passed a value is hidden from readers, though no
/// sweep has run and its cell is still in the store.
pub proof fn expired_value_is_hidden<K, V>(
    entries: Map<K, Entry<V>>,
    limit: usize,
    key: K,
    value: V,
    lifetime_seconds: u64,
    now: u64,
    later: u64,
)
    requires
        admits(entries, limit, now),
        later > now + lifetime_seconds,
    ensures
        shown(after_add(entries, limit, key, value, lifetime_seconds, now), key, later) is None,
        held(after_add(entries, limit, key, value, lifetime_seconds, now), key) == Some(value),
{
}

/// What the store holds under a key does not depend on the time: an accepted value is held
/// from its insertion on, before its expiry and after it alike, until the cell is removed.
/// It takes the place of whatever the key held before.
pub proof fn accepted_value_is_held<K, V>(
    entries: Map<K, Entry<V>>,
    limit: usize,
    key: K,
    value: V,
    lifetime_seconds: u64,
    now: u64,
)
    requires
        admits(entries, limit, now),
    ensures
        held(after_add(entries, limit, key, value, lifetime_seconds, now), key) == Some(value),
{
}

/// Nothing is held under a key once its cell has been removed: by a removal, by the
/// eviction of the dead cell, or by a sweep that found it dead.
pub proof fn removed_value_is_not_held<K, V>(entries: Map<K, Entry<V>>, key: K, now: u64)
    ensures
        held(entries.remove(key), key) is None,
        dead_keys(entries, now).contains(key) ==> held(after_evict(entries, key, now), key) is None,
        dead_keys(entries, now).contains(key) ==> held(swept(entries, now), key) is None,
{
}

/// A sweep removes the dead cells and nothing else: a key is in the swept store exactly if
/// its cell was alive, and it has the cell it had.
pub proof fn sweep_removes_exactly_the_dead<K, V>(entries: Map<K, Entry<V>>, now: u64)
    ensures
        forall|key: K| #[trigger]
            swept(entries, now).contains_key(key) <==> entries.contains_key(key)
                && entries[key].alive_at(now),
        forall|key: K| #[trigger]
            swept(entries, now).contains_key(key) ==> swept(entries, now)[key] == entries[key],
        forall|key: K| shown(swept(entries, now), key, now) == shown(entries, key, now),
{
}

/// A sweep that finds no dead cell changes nothing.
pub proof fn sweep_of_live_store_is_idle<K, V>(entries: Map<K, Entry<V>>, now: u64)
    requires
        all_alive(entries, now),
    ensures
        swept(entries, now) == entries,
{
}

/// A purge of a list that names every dead key is a sweep.
pub proof fn purge_of_the_dead_is_a_sweep<K, V>(entries: Map<K, Entry<V>>, listed: Set<K>, now: u64)
    requires
        dead_keys(entries, now).subset_of(listed),
    ensures
        purged(entries, listed, now) == swept(entries, now),
{
}

/// A purge spares the living: a key that was listed while its cell was dead, and has been
/// given a live cell since, keeps that cell, as does every key that was not listed.
pub proof fn purge_spares_the_living<K, V>(
    entries: Map<K, Entry<V>>,
    listed: Set<K>,
    key: K,
    now: u64,
)
    requires
        entries.contains_key(key),
        entries[key].alive_at(now) || !listed.contains(key),
    ensures
        purged(entries, listed, now).contains_key(key),
        purged(entries, listed, now)[key] == entries[key],
{
}

/// A bounded store that holds as many cells as its limit, all of them alive, refuses the
/// next insertion and stays as it is.
pub proof fn full_live_store_refuses<K, V>(
    entries: Map<K, Entry<V>>,
    limit: usize,
    key: K,
    value: V,
    lifetime_seconds: u64,
    now: u64,
)
    requires
        entries.dom().finite(),
        limit > 0,
        entries.len() == limit,
        all_alive(entries, now),
    ensures
        !admits(entries, limit, now),
        after_add(entries, limit, key, value, lifetime_seconds, now) == entries,
{
    sweep_of_live_store_is_idle(entries, now);
}

/// A store within its limit that holds a dead cell accepts the next insertion, whether a
/// sweep has run in between or not.
pub proof fn dead_cell_leaves_room<K, V>(
    entries: Map<K, Entry<V>>,
    limit: usize,
    stale: K,
    now: u64,
)
    requires
        within_limit(entries, limit),
        dead_keys(entries, now).contains(stale),
    ensures
        admits(entries, limit, now),
        admits(swept(entries, now), limit, now),
{
    lemma_swept_is_smaller(entries, now);
    if limit > 0 && swept(entries, now).len() >= limit {
        lemma_swept_same_size(entries, now);
        assert(swept(entries, now).contains_key(stale));
    }
    lemma_swept_is_smaller(swept(entries, now), now);
}

/// No operation takes a store beyond its limit: what an insertion, a removal, an eviction,
/// a purge or a sweep leaves behind is within the limit if the store was.
pub proof fn every_operation_keeps_the_limit<K, V>(
    entries: Map<K, Entry<V>>,
    limit: usize,
    key: K,
    value: V,
    lifetime_seconds: u64,
    listed: Set<K>,
    now: u64,
)
    requires
        within_limit(entries, limit),
    ensures
        within_limit(after_add(entries, limit, key, value, lifetime_seconds, now), limit),
        within_limit(entries.remove(key), limit),
        within_limit(after_evict(entries, key, now), limit),
        within_limit(purged(entries, listed, now), limit),
        within_limit(swept(entries, now), limit),
{
    lemma_swept_is_smaller(entries, now);
    vstd::set_lib::lemma_len_subset(entries.remove(key).dom(), entries.dom());
    vstd::set_lib::lemma_len_subset(purged(entries, listed, now).dom(), entries.dom());
}

/// A byte budget of exactly `cells` cells pays for `cells` cells.
pub proof fn budget_of_whole_cells(cells: usize, cell_size: usize)
    requires
        cells > 0,
        cell_size > 0,
        cells * cell_size <= usize::MAX,
    ensures
        watermark((cells * cell_size) as usize, cell_size) == cells,
{
    assert(cells * cell_size > 0 && (cells * cell_size) / (cell_size as int) == cells)
        by (nonlinear_arith)
        requires
            cells > 0,
            cell_size > 0,
    ;
}

/// Removing a key twice in a row finds its cell the first time at most, and nothing the
/// second time.
pub proof fn second_removal_finds_nothing<K, V>(entries: Map<K, Entry<V>>, key: K)
    ensures
        !entries.remove(key).contains_key(key),
        entries.remove(key).remove(key) == entries.remove(key),
{
}

/// Whether no two insertions of the batch share a key.
pub open spec fn distinct_keys<K, V>(batch: Seq<Insertion<K, V>>) -> bool {
    forall|i: int, j: int|
        0 <= i < j < batch.len() ==> (#[trigger] batch[i]).key != (#[trigger] batch[j]).key
}

/// Whether every cell of the batch is still alive when the insertions after it are
/// attempted.
pub open spec fn outlives_the_batch<K, V>(batch: Seq<Insertion<K, V>>) -> bool {
    forall|i: int, j: int|
        0 <= i < j < batch.len() ==> (#[trigger] batch[i]).cell().alive_at(
            (#[trigger] batch[j]).now,
        )
}

/// The number of insertions under distinct keys that an empty store with the given limit
/// accepts out of `count`: all of them up to the limit, and all of them without one.
pub open spec fn fill(count: nat, limit: usize) -> nat {
    if limit == 0 || count <= limit {
        count
    } else {
        limit as nat
    }
}

/// Insertions under distinct keys into an empty store, with lifetimes that outlast the
/// batch, are accepted until the limit is reached and refused from then on, in whatever
/// order they arrive. The store then holds exactly the accepted ones, each under its key
/// with its own value and deadline.
pub proof fn distinct_insertions_fill_to_the_limit<K, V>(limit: usize, batch: Seq<Insertion<K, V>>)
    requires
        distinct_keys(batch),
        outlives_the_batch(batch),
    ensures
        accepted(Map::<K, Entry<V>>::empty(), limit, batch) == fill(batch.len(), limit),
        after_batch(Map::<K, Entry<V>>::empty(), limit, batch).dom().finite(),
        after_batch(Map::<K, Entry<V>>::empty(), limit, batch).len() == fill(batch.len(), limit),
        forall|i: int|
            0 <= i < batch.len() ==> {
                let store = after_batch(Map::<K, Entry<V>>::empty(), limit, batch);
                let insertion = #[trigger] batch[i];
                if i < fill(batch.len(), limit) {
                    store.contains_key(insertion.key) && store[insertion.key] == insertion.cell()
                } else {
                    !store.contains_key(insertion.key)
                }
            },
    decreases batch.len(),
{
    let empty = Map::<K, Entry<V>>::empty();
    if batch.len() > 0 {
        let earlier = batch.drop_last();
        let last = batch.last();
        assert(distinct_keys(earlier) && outlives_the_batch(earlier)) by {
            assert forall|i: int| 0 <= i < earlier.len() implies #[trigger] earlier[i]
                == batch[i] by {}
        }
        distinct_insertions_fill_to_the_limit(limit, earlier);
        let prior = after_batch(empty, limit, earlier);
        let store = after_batch(empty, limit, batch);
        assert forall|key: K| prior.contains_key(key) implies (#[trigger] prior[key]).alive_at(
            last.now,
        ) && key != last.key by {
            lemma_cells_come_from_the_batch(limit, earlier, key);
            let i = choose|i: int|
                0 <= i < earlier.len() && (#[trigger] earlier[i]).key == key && prior[key]
                    == earlier[i].cell();
            assert(batch[i] == earlier[i]);
            assert(batch[i].cell().alive_at(batch[batch.len() - 1].now));
        }
        sweep_of_live_store_is_idle(prior, last.now);
        assert forall|i: int| 0 <= i < batch.len() implies {
            let insertion = #[trigger] batch[i];
            if i < fill(batch.len(), limit) {
                store.contains_key(insertion.key) && store[insertion.key] == insertion.cell()
            } else {
                !store.contains_key(insertion.key)
            }
        } by {
            if i < earlier.len() {
                assert(earlier[i] == batch[i]);
                assert(batch[i].key != batch[batch.len() - 1].key);
            }
        }
    }
}

/// Every cell of a store filled from nothing is the cell of one of the insertions.
proof fn lemma_cells_come_from_the_batch<K, V>(limit: usize, batch: Seq<Insertion<K, V>>, key: K)
    requires
        after_batch(Map::<K, Entry<V>>::empty(), limit, batch).contains_key(key),
    ensures
        exists|i: int|
            0 <= i < batch.len() && (#[trigger] batch[i]).key == key && after_batch(
                Map::<K, Entry<V>>::empty(),
                limit,
                batch,
            )[key] == batch[i].cell(),
    decreases batch.len(),
{
    let empty = Map::<K, Entry<V>>::empty();
    if batch.len() > 0 {
        let earlier = batch.drop_last();
        let last = batch.last();
        let prior = after_batch(empty, limit, earlier);
        let store = after_batch(empty, limit, batch);
        if prior.contains_key(key) && store[key] == prior[key] {
            lemma_cells_come_from_the_batch(limit, earlier, key);
            let i = choose|i: int|
                0 <= i < earlier.len() && (#[trigger] earlier[i]).key == key && prior[key]
                    == earlier[i].cell();
            assert(batch[i].key == key && store[key] == batch[i].cell());
        } else {
            assert(batch[batch.len() - 1].key == key && store[key] == batch[batch.len()
                - 1].cell());
        }
    }
}

} // verus!
