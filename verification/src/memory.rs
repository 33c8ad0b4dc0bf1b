use crate::channel::offer;
use crate::data::{yields, Data, Entry};
use crate::model::{after_add, after_evict, admits, dead_keys, held, purged, shown, swept};
use crate::model::within_limit;
use crate::model::lemma_swept_same_size;
use crate::utils::unix_epoch_now;
use std::collections::HashMap;
use std::hash::Hash;
use tokio::sync::mpsc::Sender;
use vstd::prelude::*;
use vstd::std_specs::hash::{obeys_key_model, spec_hash_map_iter};
use vstd::std_specs::iter::IteratorSpec;

verus! {

/// The one way an insertion fails: the store is at its limit and a sweep freed nothing.
#[derive(Clone, Copy, Debug, PartialEq, Eq, Structural)]
pub struct CacheFull;

/// What the store asks of its key type: hashing and `==` that agree with equality of
/// values, and a `clone` that returns an equal key. The integer types and `bool` are such
/// types; for any other the caller vouches.
pub open spec fn valid_key<K: Clone>() -> bool {
    &&& obeys_key_model::<K>()
    &&& forall|key: K, copy: K| #[trigger] cloned(key, copy) ==> key == copy
}

/// Whether a walk over the cells has come across `key` before step `upto`.
spec fn visited<K, V>(walk: Seq<(&K, &Data<V>)>, upto: int, key: K) -> bool {
    exists|i: int| 0 <= i < upto && *(#[trigger] walk[i]).0 == key
}

/// A keyed store of expiring cells, bounded by a count of cells.
#[verifier::reject_recursive_types(K)]
pub struct Memory<K, V> {
    base: HashMap<K, Data<V>>,
    // The most cells the store may hold; zero means no bound.
    limit: usize,
    // Seconds between two sweeps of the background collector; zero means none runs.
    interval: u64,
    // Where readers nominate the stale keys they come across.
    sender: Option<Sender<K>>,
}

impl<K, V> View for Memory<K, V> {
    type V = Map<K, Entry<V>>;

    /// The cells of the store by key.
    closed spec fn view(&self) -> Map<K, Entry<V>> {
        self.base@.map_values(|cell: Data<V>| cell@)
    }
}

impl<K: Eq + Hash + Clone, V: Clone> Memory<K, V> {
    /// The most cells the store may hold; zero means no bound.
    pub closed spec fn spec_limit(&self) -> usize {
        self.limit
    }

    /// Seconds between two sweeps of the background collector; zero means none runs.
    pub closed spec fn spec_interval(&self) -> u64 {
        self.interval
    }

    /// Whether readers nominate stale keys for removal.
    pub closed spec fn notifies(&self) -> bool {
        self.sender is Some
    }

    /// The store has a key type it can rely on and keeps within its limit.
    pub open spec fn wf(&self) -> bool {
        &&& valid_key::<K>()
        &&& within_limit(self@, self.limit())
    }

    /// Whether the store has the settings of `other`: its limit, its interval and its queue.
    pub open spec fn set_up_as(&self, other: &Self) -> bool {
        &&& self.limit() == other.limit()
        &&& self.interval() == other.interval()
        &&& self.notifies() == other.notifies()
    }

    /// An empty store with the given limit on its cells (zero for none), the interval of
    /// its collector, and the queue on which readers nominate stale keys.
    pub fn new(limit: usize, interval: u64, sender: Option<Sender<K>>) -> (store: Self)
        requires
            valid_key::<K>(),
        ensures
            store.wf(),
            store@ == Map::<K, Entry<V>>::empty(),
            store.limit() == limit,
            store.interval() == interval,
            store.notifies() == (sender is Some),
    {
        let store = Memory { base: HashMap::new(), limit, interval, sender };
        assert(store@ =~= Map::<K, Entry<V>>::empty());
        store
    }

    /// The most cells the store may hold; zero means no bound.
    #[verifier::when_used_as_spec(spec_limit)]
    pub fn limit(&self) -> (limit: usize)
        ensures
            limit == self.limit(),
    {
        self.limit
    }

    /// Seconds between two sweeps of the background collector; zero means none runs.
    #[verifier::when_used_as_spec(spec_interval)]
    pub fn interval(&self) -> (interval: u64)
        ensures
            interval == self.interval(),
    {
        self.interval
    }

    /// The size in bytes of one stored cell, not counting what its payload owns elsewhere.
    pub fn size_of_cell(&self) -> (bytes: usize)
        ensures
            bytes == vstd::layout::size_of::<Data<V>>(),
    {
        core::mem::size_of::<Data<V>>()
    }

    /// The number of cells held, dead ones included.
    pub fn len(&self) -> (count: usize)
        requires
            self.wf(),
        ensures
            count == self@.len(),
    {
        assert(self@.dom() =~= self.base@.dom());
        self.base.len()
    }

    /// Stores `value` under `key` for `lifetime_seconds` from the current second.
    pub fn add(&mut self, key: K, value: V, lifetime_seconds: u64) -> (outcome: Result<
        (),
        CacheFull,
    >)
        requires
            old(self).wf(),
        ensures
            final(self).wf(),
            final(self).set_up_as(old(self)),
            exists|now: u64|
                {
                    &&& outcome is Ok <==> admits(old(self)@, old(self).limit(), now)
                    &&& final(self)@ == #[trigger] after_add(
                        old(self)@,
                        old(self).limit(),
                        key,
                        value,
                        lifetime_seconds,
                        now,
                    )
                },
    {
        let now = unix_epoch_now();
        self.add_at(key, value, lifetime_seconds, now)
    }

    /// Stores `value` under `key` for `lifetime_seconds` from second `now`, in place of any
    /// cell the key had.
    ///
    /// A bounded store that is full is swept first; if it is still full the insertion is
    /// refused and the store stays as it was.
    pub fn add_at(&mut self, key: K, value: V, lifetime_seconds: u64, now: u64) -> (outcome:
        Result<(), CacheFull>)
        requires
            old(self).wf(),
        ensures
            final(self).wf(),
            final(self).set_up_as(old(self)),
            outcome is Ok <==> admits(old(self)@, old(self).limit(), now),
            final(self)@ == after_add(
                old(self)@,
                old(self).limit(),
                key,
                value,
                lifetime_seconds,
                now,
            ),
    {
        if self.limit > 0 {
            if self.len() >= self.limit {
                self.clear_at(now);
            }
            if self.len() >= self.limit {
                proof {
                    lemma_swept_same_size(old(self)@, now);
                }
                return Err(CacheFull);
            }
        }
        let ghost room = self@;
        let cell = Data::new_at(value, lifetime_seconds, now);
        self.base.insert(key, cell);
        assert(self@ =~= room.insert(key, Entry::starting_at(value, lifetime_seconds, now)));
        Ok(())
    }

    /// A clone of the payload under `key` if its cell is alive at the current second.
    pub fn get(&self, key: K) -> (out: Option<V>)
        requires
            self.wf(),
        ensures
            exists|now: u64| yields(#[trigger] shown(self@, key, now), out),
    {
        let now = unix_epoch_now();
        self.get_at(key, now)
    }

    /// A clone of the payload under `key` if its cell is alive at second `now`.
    ///
    /// A reader that finds the cell dead nominates the key for removal, where the store has
    /// a queue for that, without waiting for room in the queue. The store itself is left as
    /// it is.
    pub fn get_at(&self, key: K, now: u64) -> (out: Option<V>)
        requires
            self.wf(),
        ensures
            yields(shown(self@, key, now), out),
    {
        match self.base.get(&key) {
            Some(cell) => {
                let out = cell.get_at(now);
                if out.is_none() {
                    if let Some(sender) = &self.sender {
                        offer(sender, key);
                    }
                }
                out
            },
            None => None,
        }
    }

    /// A clone of the payload under `key`, whether its cell is alive or not.
    pub fn get_dead(&self, key: K) -> (out: Option<V>)
        requires
            self.wf(),
        ensures
            yields(held(self@, key), out),
    {
        match self.base.get(&key) {
            Some(cell) => Some(cell.unwrap()),
            None => None,
        }
    }

    /// Removes the cell under `key`, alive or not, and hands it back.
    pub fn remove(&mut self, key: K) -> (removed: Option<Data<V>>)
        requires
            old(self).wf(),
        ensures
            final(self).wf(),
            final(self).set_up_as(old(self)),
            final(self)@ == old(self)@.remove(key),
            match removed {
                Some(cell) => old(self)@.contains_key(key) && cell@ == old(self)@[key],
                None => !old(self)@.contains_key(key),
            },
    {
        let removed = self.base.remove(&key);
        proof {
            vstd::set_lib::lemma_len_subset(self@.dom(), old(self)@.dom());
        }
        removed
    }

    /// Removes the cell under `key` if it is dead at second `now`, and hands it back; a live
    /// cell, or a missing one, leaves the store as it is.
    pub fn evict_at(&mut self, key: &K, now: u64) -> (removed: Option<Data<V>>)
        requires
            old(self).wf(),
        ensures
            final(self).wf(),
            final(self).set_up_as(old(self)),
            final(self)@ == after_evict(old(self)@, *key, now),
            match removed {
                Some(cell) => dead_keys(old(self)@, now).contains(*key) && cell@ == old(self)@[*key],
                None => !dead_keys(old(self)@, now).contains(*key),
            },
    {
        let stale = match self.base.get(key) {
            Some(cell) => !cell.is_alive_at(now),
            None => false,
        };
        if stale {
            let removed = self.base.remove(key);
            proof {
                vstd::set_lib::lemma_len_subset(self@.dom(), old(self)@.dom());
            }
            removed
        } else {
            None
        }
    }

    /// The keys whose cells are dead at second `now`, each once, in no particular order.
    pub fn dead_keys_at(&self, now: u64) -> (keys: Vec<K>)
        requires
            self.wf(),
        ensures
            keys@.to_set() == dead_keys(self@, now),
            keys@.no_duplicates(),
    {
        let mut keys: Vec<K> = Vec::new();
        for pair in it: self.base.iter()
            invariant
                valid_key::<K>(),
                it.seq() == spec_hash_map_iter(&self.base).remaining(),
                it.seq().no_duplicates(),
                keys@.no_duplicates(),
                forall|j: int|
                    0 <= j < keys@.len() ==> {
                        &&& dead_keys(self@, now).contains(#[trigger] keys@[j])
                        &&& visited(it.seq(), it.index(), keys@[j])
                    },
                forall|i: int|
                    0 <= i < it.index() && !(*(#[trigger] it.seq()[i]).1)@.alive_at(now)
                        ==> keys@.contains(*it.seq()[i].0),
        {
            let (key, cell) = pair;
            let ghost walk = it.seq();
            let ghost step = it.index();
            let ghost before = keys@;
            if !cell.is_alive_at(now) {
                let copy = key.clone();
                assert(cloned(*key, copy) && copy == *walk[step].0);
                assert(!before.contains(copy)) by {
                    if before.contains(copy) {
                        let j = choose|j: int| 0 <= j < before.len() && before[j] == copy;
                        assert(visited(walk, step, before[j]));
                        let i = choose|i: int| 0 <= i < step && *(#[trigger] walk[i]).0 == copy;
                        assert(walk[i] == walk[step]);
                    }
                }
                keys.push(copy);
            }
            assert forall|i: int|
                0 <= i < step + 1 && !(*(#[trigger] walk[i]).1)@.alive_at(now) implies keys@.contains(
                *walk[i].0,
            ) by {
                if i < step {
                    let j = choose|j: int| 0 <= j < before.len() && before[j] == *walk[i].0;
                    assert(keys@[j] == before[j]);
                } else {
                    assert(keys@.last() == *walk[i].0);
                }
            }
            assert forall|j: int| 0 <= j < keys@.len() implies visited(
                walk,
                step + 1,
                #[trigger] keys@[j],
            ) by {
                if j < before.len() {
                    assert(visited(walk, step, before[j]));
                    let i = choose|i: int| 0 <= i < step && *(#[trigger] walk[i]).0 == before[j];
                    assert(*walk[i].0 == keys@[j]);
                } else {
                    assert(*walk[step].0 == keys@[j]);
                }
            }
        }
        keys
    }

    /// Removes, of the given keys, those whose cells are dead at second `now`. A key that
    /// has gained a live cell since it was listed keeps it.
    pub fn purge_at(&mut self, keys: &Vec<K>, now: u64)
        requires
            old(self).wf(),
        ensures
            final(self).wf(),
            final(self).set_up_as(old(self)),
            final(self)@ == purged(old(self)@, keys@.to_set(), now),
    {
        let mut next: usize = 0;
        while next < keys.len()
            invariant
                next <= keys.len(),
                self.wf(),
                self.set_up_as(old(self)),
                self@ == purged(old(self)@, keys@.take(next as int).to_set(), now),
            decreases keys.len() - next,
        {
            self.evict_at(&keys[next], now);
            proof {
                let done = keys@.take(next as int);
                let more = keys@.take(next + 1);
                assert forall|key: K| more.to_set().contains(key) <==> (done.to_set().contains(key)
                    || key == keys@[next as int]) by {
                    if done.contains(key) {
                        let j = choose|j: int| 0 <= j < done.len() && done[j] == key;
                        assert(more[j] == key);
                    }
                    if key == keys@[next as int] {
                        assert(more[next as int] == key);
                    }
                }
            }
            next = next + 1;
        }
        assert(keys@.take(next as int) =~= keys@);
    }

    /// Sweeps the store at the current second.
    pub fn clear(&mut self)
        requires
            old(self).wf(),
        ensures
            final(self).wf(),
            final(self).set_up_as(old(self)),
            exists|now: u64| final(self)@ == #[trigger] swept(old(self)@, now),
    {
        let now = unix_epoch_now();
        self.clear_at(now)
    }

    /// Sweeps the store at second `now`: every dead cell is removed, every live one stays.
    /// A store without dead cells is not touched.
    pub fn clear_at(&mut self, now: u64)
        requires
            old(self).wf(),
        ensures
            final(self).wf(),
            final(self).set_up_as(old(self)),
            final(self)@ == swept(old(self)@, now),
    {
        let dead = self.dead_keys_at(now);
        if dead.len() == 0 {
            return ;
        }
        self.purge_at(&dead, now);
    }
}

} // verus!
