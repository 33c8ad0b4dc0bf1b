use tokio::sync::mpsc::{Receiver, Sender};
use vstd::prelude::*;

verus! {

/// `tokio::sync::mpsc::Sender`, the producing end of a bounded queue, carried through as an
/// opaque value.
#[verifier::external_type_specification]
#[verifier::external_body]
#[verifier::reject_recursive_types(T)]
pub struct ExSender<T>(Sender<T>);

/// `tokio::sync::mpsc::Receiver`, the consuming end of a bounded queue, carried through as
/// an opaque value.
#[verifier::external_type_specification]
#[verifier::external_body]
#[verifier::reject_recursive_types(T)]
pub struct ExReceiver<T>(Receiver<T>);

/// The largest capacity `tokio::sync::mpsc::channel` accepts: its semaphore's permit limit,
/// `usize::MAX >> 3`.
pub open spec fn max_capacity() -> usize {
    usize::MAX / 8
}

/// `tokio::sync::mpsc::channel` makes a bounded queue and returns its two ends. It panics
/// on a capacity of zero or above the permit limit, so those are excluded. Nothing is
/// claimed of the ends.
#[verifier::external_body]
pub(crate) fn bounded_channel<T>(capacity: usize) -> (ends: (Sender<T>, Receiver<T>))
    requires
        0 < capacity <= max_capacity(),
{
    tokio::sync::mpsc::channel(capacity)
}

/// `Sender::try_send` enqueues `message` without waiting, and gives it up when the queue is
/// full or closed. Which of the two happens depends on the queue, and the caller is not
/// told: nothing is claimed.
#[verifier::external_body]
pub(crate) fn offer<T>(sender: &Sender<T>, message: T) {
    let _ = sender.try_send(message);
}

} // verus!
