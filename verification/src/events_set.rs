//! The typed multi-event sink capability shared by both packet sets.

use vstd::prelude::*;

verus! {

/// One logical object that can accept any message kind of a packet set and
/// forward each to the correct typed output queue for that kind. The
/// application layer observes those queues.
pub trait SendEvent<T> {
    /// The events of kind `T` this sink has accepted so far, oldest first.
    spec fn sent(&self) -> Seq<T>;

    /// Accepts one event, appending it to the kind's output queue.
    fn send(&mut self, event: T)
        ensures
            final(self).sent() == old(self).sent().push(event),
    ;
}

/// A client→server event tagged with the connection identifier it came from,
/// so application logic can tell senders apart.
#[derive(Debug, Clone, Copy, PartialEq, Eq, Structural)]
pub struct FromClient<T> {
    pub from: u64,
    pub event: T,
}

} // verus!
