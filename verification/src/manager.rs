use crate::channel::{bounded_channel, max_capacity};
use crate::data::{Data, Entry};
use crate::memory::{valid_key, Memory};
use std::hash::Hash;
use tokio::sync::mpsc::Receiver;
use vstd::prelude::*;

verus! {

/// How many nominated keys may wait for the collector at once.
pub const QUEUE_CAPACITY: usize = 100;

/// The number of cells a byte budget pays for: the budget divided by the size of one cell,
/// rounded down. Zero stands for "no bound", which is what a budget of zero asks for, what
/// a budget below one cell comes to, and what cells of no size are given.
pub open spec fn watermark(byte_budget: usize, cell_size: usize) -> usize {
    if byte_budget == 0 || cell_size == 0 {
        0
    } else {
        byte_budget / cell_size
    }
}

/// Computes `watermark`.
pub fn capacity_for(byte_budget: usize, cell_size: usize) -> (limit: usize)
    ensures
        limit == watermark(byte_budget, cell_size),
{
    if byte_budget == 0 || cell_size == 0 {
        0
    } else {
        byte_budget / cell_size
    }
}

/// The settings a store is built from: a byte budget and the interval of its collector.
pub struct Manager {
    bytes_limit: usize,
    interval: u64,
}

impl Manager {
    /// The byte budget; zero means the store is unbounded.
    pub closed spec fn byte_budget(&self) -> usize {
        self.bytes_limit
    }

    /// Seconds between two sweeps of the collector; zero means there is no collector.
    pub closed spec fn sweep_interval(&self) -> u64 {
        self.interval
    }

    /// Settings for an unbounded store without a collector.
    pub fn new() -> (manager: Self)
        ensures
            manager.byte_budget() == 0,
            manager.sweep_interval() == 0,
    {
        Manager { bytes_limit: 0, interval: 0 }
    }

    /// The same settings with the byte budget replaced.
    pub fn limit(self, bytes: usize) -> (manager: Self)
        ensures
            manager.byte_budget() == bytes,
            manager.sweep_interval() == self.sweep_interval(),
    {
        Manager { bytes_limit: bytes, interval: self.interval }
    }

    /// The same settings with the collector's interval replaced.
    pub fn with_interval(self, seconds: u64) -> (manager: Self)
        ensures
            manager.byte_budget() == self.byte_budget(),
            manager.sweep_interval() == seconds,
    {
        Manager { bytes_limit: self.bytes_limit, interval: seconds }
    }

    /// Builds the empty store these settings describe.
    ///
    /// With an interval the store comes with a queue for nominated keys, and the consuming
    /// end of that queue is returned for the collector to drain; without one there is
    /// neither queue nor collector.
    pub fn run<K: Eq + Hash + Clone, V: Clone>(&self) -> (started: (
        Memory<K, V>,
        Option<Receiver<K>>,
    ))
        requires
            valid_key::<K>(),
        ensures
            started.0.wf(),
            started.0@ == Map::<K, Entry<V>>::empty(),
            started.0.limit() == watermark(
                self.byte_budget(),
                vstd::layout::size_of::<Data<V>>() as usize,
            ),
            started.0.interval() == self.sweep_interval(),
            started.0.notifies() == (self.sweep_interval() > 0),
            started.1 is Some == (self.sweep_interval() > 0),
    {
        let limit = capacity_for(self.bytes_limit, core::mem::size_of::<Data<V>>());
        if self.interval == 0 {
            (Memory::new(limit, 0, None), None)
        } else {
            let (sender, receiver) = bounded_channel::<K>(QUEUE_CAPACITY);
            (Memory::new(limit, self.interval, Some(sender)), Some(receiver))
        }
    }
}

impl Default for Manager {
    fn default() -> (manager: Self)
        ensures
            manager.byte_budget() == 0,
            manager.sweep_interval() == 0,
    {
        Manager::new()
    }
}

} // verus!
