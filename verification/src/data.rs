use crate::utils::unix_epoch_now;
use vstd::prelude::*;

verus! {

/// What a stored cell is, mathematically: a payload and the last second at which it is alive.
pub struct Entry<V> {
    pub base: V,
    pub expires_at: u64,
}

/// The last second of a lifetime that starts at `now`: their sum, held at `u64::MAX` where
/// the sum would pass it.
pub open spec fn deadline(now: u64, lifetime_seconds: u64) -> u64 {
    if now + lifetime_seconds <= u64::MAX {
        (now + lifetime_seconds) as u64
    } else {
        u64::MAX
    }
}

impl<V> Entry<V> {
    /// The cell made at second `now` with the given lifetime.
    pub open spec fn starting_at(base: V, lifetime_seconds: u64, now: u64) -> Entry<V> {
        Entry { base, expires_at: deadline(now, lifetime_seconds) }
    }

    /// A cell is alive up to and including its last second.
    pub open spec fn alive_at(self, now: u64) -> bool {
        now <= self.expires_at
    }

    /// The payload a reader sees at second `now`: present while the cell is alive.
    pub open spec fn shown_at(self, now: u64) -> Option<V> {
        if self.alive_at(now) {
            Some(self.base)
        } else {
            None
        }
    }
}

/// `out` is what a reader receives when the store holds `source`: a clone of the payload,
/// or nothing where there is nothing to show.
pub open spec fn yields<V: Clone>(source: Option<V>, out: Option<V>) -> bool {
    match (source, out) {
        (Some(held), Some(given)) => cloned(held, given),
        (None, None) => true,
        _ => false,
    }
}

/// A value together with the second after which it counts as expired.
#[derive(Debug)]
pub struct Data<V> {
    base: V,
    expires_at: u64,
}

impl<V> View for Data<V> {
    type V = Entry<V>;

    /// The cell as a payload and a last second.
    closed spec fn view(&self) -> Entry<V> {
        Entry { base: self.base, expires_at: self.expires_at }
    }
}

impl<V: Clone> Clone for Data<V> {
    /// A cell with a clone of the payload and the same last second.
    fn clone(&self) -> (twin: Self)
        ensures
            cloned(self@.base, twin@.base),
            twin@.expires_at == self@.expires_at,
    {
        Data { base: self.base.clone(), expires_at: self.expires_at }
    }
}

impl<V: Clone> Data<V> {
    /// Wraps `base` in a cell that lives for `lifetime_seconds` from the current second.
    pub fn new(base: V, lifetime_seconds: u64) -> (cell: Self)
        ensures
            exists|now: u64| cell@ == #[trigger] Entry::starting_at(base, lifetime_seconds, now),
    {
        let now = unix_epoch_now();
        Data::new_at(base, lifetime_seconds, now)
    }

    /// Wraps `base` in a cell that lives for `lifetime_seconds` from second `now`.
    pub fn new_at(base: V, lifetime_seconds: u64, now: u64) -> (cell: Self)
        ensures
            cell@ == Entry::starting_at(base, lifetime_seconds, now),
    {
        Data { base, expires_at: now.saturating_add(lifetime_seconds) }
    }

    /// Whether the cell is alive at the current second.
    pub fn is_alive(&self) -> (alive: bool)
        ensures
            exists|now: u64| alive == #[trigger] self@.alive_at(now),
    {
        let now = unix_epoch_now();
        self.is_alive_at(now)
    }

    /// Whether the cell is alive at second `now`.
    pub fn is_alive_at(&self, now: u64) -> (alive: bool)
        ensures
            alive == self@.alive_at(now),
    {
        now <= self.expires_at
    }

    /// A clone of the payload if the cell is alive at the current second.
    pub fn get(&self) -> (out: Option<V>)
        ensures
            exists|now: u64| yields(#[trigger] self@.shown_at(now), out),
    {
        let now = unix_epoch_now();
        self.get_at(now)
    }

    /// A clone of the payload if the cell is alive at second `now`.
    pub fn get_at(&self, now: u64) -> (out: Option<V>)
        ensures
            yields(self@.shown_at(now), out),
    {
        if self.is_alive_at(now) {
            Some(self.base.clone())
        } else {
            None
        }
    }

    /// A clone of the payload, alive or not.
    pub fn unwrap(&self) -> (out: V)
        ensures
            cloned(self@.base, out),
    {
        self.base.clone()
    }

    /// The last second at which the cell is alive.
    pub fn expires_at(&self) -> (second: u64)
        ensures
            second == self@.expires_at,
    {
        self.expires_at
    }
}

} // verus!
