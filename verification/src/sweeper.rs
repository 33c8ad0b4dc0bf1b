use crate::data::Entry;
use crate::memory::Memory;
use crate::model::{after_evict, swept};
use std::hash::Hash;
use vstd::prelude::*;

verus! {

/// What wakes the collector.
pub enum Event<K> {
    /// A reader came across a dead cell under this key.
    Nominated(K),
    /// The time since the last sweep has run out.
    Elapsed,
}

/// What the collector does to the store in answer.
pub enum Action<K> {
    /// Remove the cell under this key, unless it is alive by now.
    Evict(K),
    /// Remove every dead cell.
    Sweep,
}

/// The seconds still to wait at `now` before a sweep is due, given when the last one ran.
/// A clock that stepped back behind the last sweep waits the whole interval again.
pub open spec fn time_left(interval: u64, last_sweep: u64, now: u64) -> u64 {
    if now <= last_sweep {
        interval
    } else if now - last_sweep >= interval {
        0
    } else {
        (interval - (now - last_sweep)) as u64
    }
}

/// The store after the collector has carried out `action` at second `now`.
pub open spec fn after_action<K, V>(entries: Map<K, Entry<V>>, action: Action<K>, now: u64) -> Map<
    K,
    Entry<V>,
> {
    match action {
        Action::Evict(key) => after_evict(entries, key, now),
        Action::Sweep => swept(entries, now),
    }
}

/// The collector's schedule: how often it sweeps, and when it last did.
pub struct Sweeper {
    interval: u64,
    last_sweep: u64,
}

impl Sweeper {
    /// Seconds between two sweeps.
    pub closed spec fn spec_interval(&self) -> u64 {
        self.interval
    }

    /// The second at which the last sweep ran.
    pub closed spec fn spec_last_sweep(&self) -> u64 {
        self.last_sweep
    }

    /// A schedule that starts at second `now`, as if a sweep had just run.
    pub fn new(interval: u64, now: u64) -> (schedule: Self)
        ensures
            schedule.interval() == interval,
            schedule.last_sweep() == now,
    {
        Sweeper { interval, last_sweep: now }
    }

    /// Seconds between two sweeps.
    #[verifier::when_used_as_spec(spec_interval)]
    pub fn interval(&self) -> (interval: u64)
        ensures
            interval == self.spec_interval(),
    {
        self.interval
    }

    /// The second at which the last sweep ran.
    #[verifier::when_used_as_spec(spec_last_sweep)]
    pub fn last_sweep(&self) -> (second: u64)
        ensures
            second == self.spec_last_sweep(),
    {
        self.last_sweep
    }

    /// How long the collector may wait for a nomination at second `now` before it must
    /// sweep.
    pub fn wait_budget(&self, now: u64) -> (seconds: u64)
        ensures
            seconds == time_left(self.interval(), self.last_sweep(), now),
    {
        let elapsed = now.saturating_sub(self.last_sweep);
        self.interval.saturating_sub(elapsed)
    }

    /// Decides what to do about `event` at second `now`.
    ///
    /// A nomination leads to the eviction of that key and leaves the schedule alone; only a
    /// sweep restarts the wait.
    pub fn step<K>(&mut self, event: Event<K>, now: u64) -> (action: Action<K>)
        ensures
            final(self).interval() == old(self).interval(),
            match event {
                Event::Nominated(key) => {
                    &&& action == Action::Evict(key)
                    &&& final(self).last_sweep() == old(self).last_sweep()
                },
                Event::Elapsed => {
                    &&& action == Action::<K>::Sweep
                    &&& final(self).last_sweep() == now
                },
            },
    {
        match event {
            Event::Nominated(key) => Action::Evict(key),
            Event::Elapsed => {
                self.last_sweep = now;
                Action::Sweep
            },
        }
    }
}

/// Carries out on `store` what the collector decided, at second `now`.
pub fn perform<K: Eq + Hash + Clone, V: Clone>(
    store: &mut Memory<K, V>,
    action: Action<K>,
    now: u64,
)
    requires
        old(store).wf(),
    ensures
        final(store).wf(),
        final(store).set_up_as(old(store)),
        final(store)@ == after_action(old(store)@, action, now),
{
    match action {
        Action::Evict(key) => {
            let _ = store.evict_at(&key, now);
        },
        Action::Sweep => {
            store.clear_at(now);
        },
    }
}

} // verus!
