//! Configuration of a Kafka-backed broker.
use vstd::prelude::*;

use std::time::Duration;

use crate::error::Error;
use crate::wire::{decimal, u128_text};

verus! {

/// Where a Kafka-backed broker connects, and how long a send may take.
#[derive(Debug, Clone)]
pub struct KafkaBrokerConfig {
    pub bootstrap_servers: Vec<String>,
    pub producer_timeout_ms: Option<Duration>,
}

/// The whole milliseconds `Duration::as_millis` gives for a duration.
pub uninterp spec fn millis_of_duration(d: Duration) -> u128;

/// Relies on `Duration::as_millis`: the whole milliseconds of a duration.
#[verifier::external_body]
fn duration_millis(d: &Duration) -> (r: u128)
    ensures
        r == millis_of_duration(*d),
{
    d.as_millis()
}

/// The texts of a list joined with commas.
pub open spec fn comma_joined(items: Seq<String>) -> Seq<char>
    decreases items.len(),
{
    if items.len() == 0 {
        Seq::empty()
    } else if items.len() == 1 {
        items[0]@
    } else {
        comma_joined(items.drop_last()) + seq![','] + items.last()@
    }
}

fn join_with_commas(items: &Vec<String>) -> (r: String)
    ensures
        r@ == comma_joined(items@),
{
    let mut r = String::new();
    let mut i: usize = 0;
    while i < items.len()
        invariant
            i <= items.len(),
            r@ == comma_joined(items@.subrange(0, i as int)),
        decreases items.len() - i,
    {
        let ghost before = r@;
        if i > 0 {
            r.append(",");
        }
        r.append(items[i].as_str());
        proof {
            reveal_strlit(",");
            let next = items@.subrange(0, i + 1);
            assert(next.drop_last() =~= items@.subrange(0, i as int));
            assert(next.last() == items@[i as int]);
            if i == 0 {
                assert(r@ =~= comma_joined(next));
            } else {
                assert(r@ =~= comma_joined(next));
            }
        }
        i = i + 1;
    }
    assert(items@.subrange(0, items.len() as int) =~= items@);
    r
}

pub open spec fn pair_view(ps: Seq<(String, String)>) -> Seq<(Seq<char>, Seq<char>)> {
    ps.map_values(|p: (String, String)| (p.0@, p.1@))
}

impl KafkaBrokerConfig {
    /// The client settings of this configuration: the bootstrap servers
    /// joined with commas, the send timeout in milliseconds where one is set,
    /// then the extra settings in order.
    pub fn client_settings(&self, options: Option<Vec<(String, String)>>) -> (r: Vec<(String, String)>)
        ensures
            pair_view(r@) == seq![("bootstrap.servers"@, comma_joined(self.bootstrap_servers@))]
                + match self.producer_timeout_ms {
                Some(t) => seq![("message.timeout.ms"@, decimal(millis_of_duration(t) as int))],
                None => Seq::empty(),
            } + match options {
                Some(o) => pair_view(o@),
                None => Seq::empty(),
            },
    {
        let mut r: Vec<(String, String)> = Vec::new();
        r.push((String::from_str("bootstrap.servers"), join_with_commas(&self.bootstrap_servers)));
        match &self.producer_timeout_ms {
            Some(t) => {
                r.push((String::from_str("message.timeout.ms"), u128_text(duration_millis(t))));
            },
            None => {},
        }
        let ghost fixed = pair_view(r@);
        match options {
            Some(o) => {
                let mut i: usize = 0;
                while i < o.len()
                    invariant
                        i <= o.len(),
                        pair_view(r@) == fixed + pair_view(o@.subrange(0, i as int)),
                    decreases o.len() - i,
                {
                    let ghost before = r@;
                    let (k, v) = &o[i];
                    r.push((k.clone(), v.clone()));
                    assert(r@ == before.push(r@.last()));
                    assert(pair_view(o@.subrange(0, i + 1)) =~= pair_view(o@.subrange(0, i as int)).push(
                        (o@[i as int].0@, o@[i as int].1@),
                    ));
                    assert(pair_view(r@) =~= pair_view(before).push((o@[i as int].0@, o@[i as int].1@)));
                    assert(pair_view(r@) =~= fixed + pair_view(o@.subrange(0, i + 1)));
                    i = i + 1;
                }
                assert(o@.subrange(0, o.len() as int) =~= o@);
            },
            None => {},
        }
        assert(pair_view(r@) =~= fixed + match options {
            Some(o) => pair_view(o@),
            None => Seq::empty(),
        });
        r
    }
}

/// A Kafka-backed broker, by its configuration.
#[derive(Debug, Clone)]
pub struct KafkaBroker {
    config: KafkaBrokerConfig,
}

impl KafkaBroker {
    pub fn new(config: KafkaBrokerConfig) -> (r: Self)
        ensures
            r.config_spec() == config,
    {
        KafkaBroker { config }
    }

    pub closed spec fn config_spec(&self) -> KafkaBrokerConfig {
        self.config
    }

    /// The configuration.
    pub fn config(&self) -> (r: &KafkaBrokerConfig)
        ensures
            *r == self.config_spec(),
    {
        &self.config
    }

    /// A builder with nothing set.
    pub fn builder() -> (r: KafkaBrokerBuilder)
        ensures
            r.servers() is None,
            r.timeout() is None,
    {
        KafkaBrokerBuilder::new()
    }
}

/// Accumulates the configuration of a Kafka-backed broker.
#[derive(Debug, Clone)]
pub struct KafkaBrokerBuilder {
    bootstrap_servers: Option<Vec<String>>,
    producer_timeout_ms: Option<Duration>,
}

impl KafkaBrokerBuilder {
    pub closed spec fn servers(&self) -> Option<Seq<String>> {
        match self.bootstrap_servers {
            Some(v) => Some(v@),
            None => None,
        }
    }

    pub closed spec fn timeout(&self) -> Option<Duration> {
        self.producer_timeout_ms
    }

    pub fn new() -> (r: Self)
        ensures
            r.servers() is None,
            r.timeout() is None,
    {
        KafkaBrokerBuilder { bootstrap_servers: None, producer_timeout_ms: None }
    }

    /// Sets the servers to bootstrap from.
    pub fn with_bootstrap_servers(self, servers: Vec<String>) -> (r: Self)
        ensures
            r.servers() == Some(servers@),
            r.timeout() == self.timeout(),
    {
        KafkaBrokerBuilder { bootstrap_servers: Some(servers), producer_timeout_ms: self.producer_timeout_ms }
    }

    /// Sets how long a send may take.
    pub fn with_producer_timeout_ms(self, timeout: Duration) -> (r: Self)
        ensures
            r.servers() == self.servers(),
            r.timeout() == Some(timeout),
    {
        KafkaBrokerBuilder { bootstrap_servers: self.bootstrap_servers, producer_timeout_ms: Some(timeout) }
    }

    /// The broker; without bootstrap servers this is a Builder error.
    pub fn build(&self) -> (r: Result<KafkaBroker, Error>)
        ensures
            self.servers() is None <==> r is Err,
            r matches Err(e) ==> e is Builder,
            r matches Ok(b) ==> Some(b.config_spec().bootstrap_servers@) == self.servers()
                && b.config_spec().producer_timeout_ms == self.timeout(),
    {
        match &self.bootstrap_servers {
            None => Err(Error::Builder(String::from_str("missing bootstrap_servers"))),
            Some(servers) => {
                let copy = servers.clone();
                assert(copy@ =~= servers@);
                Ok(
                    KafkaBroker::new(
                        KafkaBrokerConfig {
                            bootstrap_servers: copy,
                            producer_timeout_ms: self.producer_timeout_ms,
                        },
                    ),
                )
            },
        }
    }
}

} // verus!
