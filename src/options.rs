//! The options that name what a publisher or a consumer is attached to.
use vstd::prelude::*;

use crate::event::opt_view;

verus! {

/// Options for a publisher: the channel it publishes to.
#[derive(Debug, Clone)]
pub struct PublisherOptions {
    pub channel: String,
}

impl PublisherOptions {
    /// A builder with nothing set.
    pub fn builder() -> (r: PublisherOptionsBuilder)
        ensures
            r@ is None,
    {
        PublisherOptionsBuilder::new()
    }
}

/// Accumulates the options of a publisher.
#[derive(Debug, Clone)]
pub struct PublisherOptionsBuilder {
    channel: Option<String>,
}

impl View for PublisherOptionsBuilder {
    type V = Option<Seq<char>>;

    closed spec fn view(&self) -> Option<Seq<char>> {
        opt_view(self.channel)
    }
}

impl Default for PublisherOptionsBuilder {
    fn default() -> (r: Self)
        ensures
            r@ is None,
    {
        PublisherOptionsBuilder { channel: None }
    }
}

impl PublisherOptionsBuilder {
    pub fn new() -> (r: Self)
        ensures
            r@ is None,
    {
        PublisherOptionsBuilder { channel: None }
    }

    /// Sets the channel to publish to.
    pub fn channel(self, channel: &str) -> (r: Self)
        ensures
            r@ == Some(channel@),
    {
        PublisherOptionsBuilder { channel: Some(channel.to_owned()) }
    }

    /// The options; the channel must have been set.
    pub fn build(self) -> (r: PublisherOptions)
        requires
            self@ is Some,
        ensures
            r.channel@ == self@->Some_0,
    {
        PublisherOptions { channel: self.channel.unwrap() }
    }
}

/// Options for a consumer: the channel it consumes from and the tag of the
/// group it competes in.
#[derive(Debug, Clone)]
pub struct ConsumerOptions {
    pub channel: String,
    pub consumer_tag: String,
}

impl ConsumerOptions {
    /// A builder with nothing set.
    pub fn builder() -> (r: ConsumerOptionsBuilder)
        ensures
            r@ == (None::<Seq<char>>, None::<Seq<char>>),
    {
        ConsumerOptionsBuilder::default()
    }
}

/// Accumulates the options of a consumer.
#[derive(Debug, Clone)]
pub struct ConsumerOptionsBuilder {
    channel: Option<String>,
    consumer_tag: Option<String>,
}

impl View for ConsumerOptionsBuilder {
    /// The channel and the consumer tag, where set.
    type V = (Option<Seq<char>>, Option<Seq<char>>);

    closed spec fn view(&self) -> (Option<Seq<char>>, Option<Seq<char>>) {
        (opt_view(self.channel), opt_view(self.consumer_tag))
    }
}

impl Default for ConsumerOptionsBuilder {
    fn default() -> (r: Self)
        ensures
            r@ == (None::<Seq<char>>, None::<Seq<char>>),
    {
        ConsumerOptionsBuilder { channel: None, consumer_tag: None }
    }
}

impl ConsumerOptionsBuilder {
    pub fn new() -> (r: Self)
        ensures
            r@ == (None::<Seq<char>>, None::<Seq<char>>),
    {
        Self::default()
    }

    /// Sets the channel to consume from.
    pub fn channel(self, channel: &str) -> (r: Self)
        ensures
            r@ == (Some(channel@), self@.1),
    {
        ConsumerOptionsBuilder { channel: Some(channel.to_owned()), consumer_tag: self.consumer_tag }
    }

    /// Sets the tag of the consumer group.
    pub fn consumer_tag(self, consumer_tag: &str) -> (r: Self)
        ensures
            r@ == (self@.0, Some(consumer_tag@)),
    {
        ConsumerOptionsBuilder { channel: self.channel, consumer_tag: Some(consumer_tag.to_owned()) }
    }

    /// The options; the channel and the consumer tag must have been set.
    pub fn build(self) -> (r: ConsumerOptions)
        requires
            self@.0 is Some,
            self@.1 is Some,
        ensures
            r.channel@ == self@.0->Some_0,
            r.consumer_tag@ == self@.1->Some_0,
    {
        ConsumerOptions { channel: self.channel.unwrap(), consumer_tag: self.consumer_tag.unwrap() }
    }
}

} // verus!
