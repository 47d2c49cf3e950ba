//! Configuration of the in-process broker.
use vstd::prelude::*;

verus! {

/// How the in-process broker treats deliveries.
#[derive(Debug, Clone, Copy, PartialEq, Eq, Structural)]
pub struct InMemoryBrokerConfig {
    /// Whether a negative acknowledgment republishes the event.
    pub requeue_on_nack: bool,
}

impl Default for InMemoryBrokerConfig {
    fn default() -> (r: Self)
        ensures
            !r.requeue_on_nack,
    {
        InMemoryBrokerConfig { requeue_on_nack: false }
    }
}

/// Accumulates the configuration of an in-process broker.
#[derive(Debug, Clone, Copy)]
pub struct InMemoryBrokerBuilder {
    requeue_on_nack: bool,
}

impl InMemoryBrokerBuilder {
    /// A builder whose broker does not requeue.
    pub fn new() -> (r: Self)
        ensures
            !r.requeue_on_nack(),
    {
        InMemoryBrokerBuilder { requeue_on_nack: false }
    }

    pub closed spec fn requeue_on_nack(&self) -> bool {
        self.requeue_on_nack
    }

    /// Sets whether a negative acknowledgment republishes the event.
    pub fn with_requeue_on_nack(self, requeue: bool) -> (r: Self)
        ensures
            r.requeue_on_nack() == requeue,
    {
        InMemoryBrokerBuilder { requeue_on_nack: requeue }
    }

    /// The configuration of the broker this builder makes.
    pub fn config(&self) -> (r: InMemoryBrokerConfig)
        ensures
            r.requeue_on_nack == self.requeue_on_nack(),
    {
        InMemoryBrokerConfig { requeue_on_nack: self.requeue_on_nack }
    }
}

} // verus!
