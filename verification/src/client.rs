//! The client of a compile actor: a handle that only sends.

use tokio::sync::mpsc::UnboundedSender;
use vstd::prelude::*;

use crate::channel::send_on;
use crate::notify::MemoryEvent;

verus! {

/// A handle to a compile actor. `T` is the type of the tasks that the actor
/// runs for its clients.
#[verifier::reject_recursive_types(T)]
pub struct CompileClient<T> {
    steal_send: UnboundedSender<T>,
    memory_send: UnboundedSender<MemoryEvent>,
}

impl<T> CompileClient<T> {
    /// The sending half on which the client queues tasks.
    pub closed spec fn steal_sender(self) -> UnboundedSender<T> {
        self.steal_send
    }

    /// The sending half on which the client queues memory events.
    pub closed spec fn memory_sender(self) -> UnboundedSender<MemoryEvent> {
        self.memory_send
    }

    /// A client that sends on the two given channels.
    pub(crate) fn new(
        steal_send: UnboundedSender<T>,
        memory_send: UnboundedSender<MemoryEvent>,
    ) -> (client: Self)
        ensures
            client.steal_sender() == steal_send,
            client.memory_sender() == memory_send,
    {
        CompileClient { steal_send, memory_send }
    }

    /// Queues a memory event for the actor, without waiting. Where the actor
    /// is gone the event comes back.
    pub fn add_memory_changes(&self, event: MemoryEvent) -> (sent: Result<(), MemoryEvent>)
        ensures
            sent matches Err(back) ==> back == event,
    {
        send_on(&self.memory_send, event)
    }

    /// Queues a task for the actor, without waiting. Where the actor is gone
    /// the task comes back.
    pub fn steal_inner(&self, task: T) -> (sent: Result<(), T>)
        ensures
            sent matches Err(back) ==> back == task,
    {
        send_on(&self.steal_send, task)
    }
}

} // verus!
