//! Acknowledgment: settling a delivery once, and requeueing a negatively
//! acknowledged event through the engine.
use vstd::prelude::*;

use crate::engine::{publish_model, publish_stopped, BrokerInner, GroupView};
use crate::event::{Event, EventView};

verus! {

/// The capability to settle a delivery as processed or as failed.
pub trait Acker {
    /// Settles the delivery as processed.
    fn ack(&mut self);

    /// Settles the delivery as failed.
    fn nack(&mut self);
}

/// An acknowledger for deliveries without redelivery: settling does nothing.
#[derive(Debug, Clone, Copy)]
pub struct NoOpAcker;

impl Acker for NoOpAcker {
    fn ack(&mut self) {
    }

    fn nack(&mut self) {
    }
}

/// The model of an in-process acknowledger.
pub ghost struct AckerView {
    pub channel: Seq<char>,
    pub event: EventView,
    pub requeue: bool,
    pub settled: bool,
}

/// An acknowledger after any settling call: only the first one counts.
pub open spec fn settle(a: AckerView) -> AckerView {
    AckerView { settled: true, ..a }
}

/// What a negative acknowledgment does to the engine's groups when the
/// publish it makes succeeds: the first settling call of an acknowledger with
/// requeue republishes its event to its channel; any other leaves the groups
/// as they are.
pub open spec fn nack_effect(a: AckerView, groups: Seq<GroupView>) -> Seq<GroupView> {
    if !a.settled && a.requeue {
        publish_model(groups, a.channel, a.event)
    } else {
        groups
    }
}

/// The acknowledger of one in-process delivery: the channel and event it
/// came with, whether a negative acknowledgment requeues it, and whether it
/// has been settled.
#[derive(Debug)]
pub struct InMemoryAcker {
    channel: String,
    event: Event,
    requeue: bool,
    done: bool,
}

impl View for InMemoryAcker {
    type V = AckerView;

    closed spec fn view(&self) -> AckerView {
        AckerView {
            channel: self.channel@,
            event: self.event@,
            requeue: self.requeue,
            settled: self.done,
        }
    }
}

impl InMemoryAcker {
    /// An unsettled acknowledger for an event delivered from a channel.
    pub fn new(channel: String, event: Event, requeue: bool) -> (r: InMemoryAcker)
        ensures
            r@ == (AckerView { channel: channel@, event: event@, requeue, settled: false }),
    {
        InMemoryAcker { channel, event, requeue, done: false }
    }

    /// The channel the event was delivered from.
    pub fn channel(&self) -> (r: &str)
        ensures
            r@ == self@.channel,
    {
        self.channel.as_str()
    }

    /// The delivered event.
    pub fn event(&self) -> (r: &Event)
        ensures
            r@ == self@.event,
    {
        &self.event
    }

    /// Whether a settling call has been made.
    pub fn is_settled(&self) -> (r: bool)
        ensures
            r == self@.settled,
    {
        self.done
    }

    /// Settles the delivery as processed.
    pub fn ack(&mut self)
        ensures
            final(self)@ == settle(old(self)@),
    {
        self.done = true;
    }

    /// Settles the delivery as failed. The first settling call of an
    /// acknowledger with requeue republishes the event to its channel; a
    /// failure of that publish is dropped.
    pub fn nack(&mut self, engine: &mut BrokerInner)
        requires
            old(engine).wf(),
        ensures
            final(self)@ == settle(old(self)@),
            final(engine).wf(),
            final(engine)@ == nack_effect(old(self)@, old(engine)@) || (!old(self)@.settled
                && old(self)@.requeue && publish_stopped(
                old(engine)@,
                old(self)@.channel,
                old(self)@.event,
                final(engine)@,
            )),
    {
        if self.done {
            return;
        }
        self.done = true;
        if self.requeue {
            let _ = engine.publish(self.channel.as_str(), &self.event);
        }
    }
}

/// Acknowledgment idempotence: once an acknowledger is settled, by an ack or
/// a nack, a further ack or nack leaves it as it is and republishes nothing.
pub proof fn lemma_settle_once(a: AckerView, groups: Seq<GroupView>)
    ensures
        settle(settle(a)) == settle(a),
        nack_effect(settle(a), groups) == groups,
{
}

/// Requeue on nack: the first nack of an acknowledger with requeue, when its
/// publish succeeds, hands an event equal to the delivered one to a
/// subscriber of every group of its channel that has subscribers: the one
/// under that group's cursor.
pub proof fn lemma_requeue_on_nack(a: AckerView, groups: Seq<GroupView>, g: int)
    requires
        !a.settled,
        a.requeue,
        0 <= g < groups.len(),
        groups[g].channel == a.channel,
        groups[g].cursor < groups[g].sent.len(),
    ensures
        nack_effect(a, groups)[g].sent[groups[g].cursor as int].last() == a.event,
        nack_effect(a, groups)[g].sent[groups[g].cursor as int].len() == groups[g].sent[groups[g].cursor as int].len() + 1,
{
}

} // verus!
