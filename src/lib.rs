//! A backend-agnostic messaging library: a CloudEvents-shaped event model,
//! acknowledgment state, and an in-process dispatch engine that fans events
//! out to consumer groups (multicast across tags, round-robin within a tag).
pub mod acker;
pub mod engine;
pub mod error;
pub mod event;
pub mod json;
pub mod kafka;
pub mod memory;
pub mod options;
pub mod wire;

pub use acker::{Acker, InMemoryAcker, NoOpAcker};
pub use engine::BrokerInner;
pub use error::Error;
pub use event::{
    Data, EmptyEventData, Event, EventBuilder, EventData, ExtensionValue, Timestamp,
};
pub use kafka::{KafkaBroker, KafkaBrokerBuilder, KafkaBrokerConfig};
pub use memory::{InMemoryBrokerBuilder, InMemoryBrokerConfig};
pub use options::{
    ConsumerOptions, ConsumerOptionsBuilder, PublisherOptions, PublisherOptionsBuilder,
};
