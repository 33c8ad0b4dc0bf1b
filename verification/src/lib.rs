//! A keyed store whose values expire: every value is kept for a lifetime given in seconds,
//! hidden from readers once that has passed, and removed by a sweep. The store can be
//! bounded by a byte budget, which it turns into a limit on the number of cells.
//!
//! - [`data`]: one cell, a value with the last second at which it is alive.
//! - [`memory`]: the store and its operations.
//! - [`model`]: what the operations do, as functions on maps of cells.
//! - [`laws`]: what follows for any store, proved from the model.
//! - [`manager`]: the settings a store is built from.
//! - [`sweeper`]: the schedule and the decisions of a background collector.
//! - [`channel`], [`utils`]: the queue for nominated keys and the clock.

pub mod channel;
pub mod data;
pub mod laws;
pub mod manager;
pub mod memory;
pub mod model;
pub mod sweeper;
pub mod utils;
