use vstd::prelude::*;

verus! {

/// The kinds of failure the library reports.
#[derive(Debug, Clone, PartialEq, Eq)]
pub enum Error {
    /// A payload could not be encoded.
    Serialization(String),
    /// A payload or attribute could not be decoded.
    Deserialization(String),
    /// Data access was attempted on an event without a payload.
    MissingEventData,
    /// A transport rejected a publish.
    Publisher(String),
    /// A transport failed while streaming.
    Consumer(String),
    /// Required broker configuration is missing.
    Builder(String),
    /// Any other underlying failure, with its description.
    Unknown(String),
}

} // verus!
