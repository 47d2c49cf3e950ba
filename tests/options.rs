use std::time::Duration;

use enroute::{
    ConsumerOptions, ConsumerOptionsBuilder, Error, InMemoryBrokerBuilder, InMemoryBrokerConfig,
    KafkaBroker, KafkaBrokerBuilder, PublisherOptions, PublisherOptionsBuilder,
};

#[test]
fn publisher_options_from_builder() {
    let o = PublisherOptions::builder().channel("orders").build();
    assert_eq!(o.channel, "orders");
    let o = PublisherOptionsBuilder::new().channel("a").channel("b").build();
    assert_eq!(o.channel, "b");
}

#[test]
fn consumer_options_from_builder() {
    let o = ConsumerOptions::builder().channel("orders").consumer_tag("billing").build();
    assert_eq!(o.channel, "orders");
    assert_eq!(o.consumer_tag, "billing");
    let o = ConsumerOptionsBuilder::new().consumer_tag("t").channel("c").build();
    assert_eq!(o.channel, "c");
    assert_eq!(o.consumer_tag, "t");
}

#[test]
fn in_memory_builder_sets_requeue() {
    assert!(!InMemoryBrokerBuilder::new().config().requeue_on_nack);
    assert!(InMemoryBrokerBuilder::new().with_requeue_on_nack(true).config().requeue_on_nack);
    assert!(!InMemoryBrokerConfig::default().requeue_on_nack);
}

#[test]
fn kafka_builder_needs_servers() {
    match KafkaBroker::builder().build() {
        Err(Error::Builder(m)) => assert_eq!(m, "missing bootstrap_servers"),
        other => panic!("expected a Builder error, got {:?}", other),
    }
}

#[test]
fn kafka_builder_keeps_settings() {
    let b = KafkaBrokerBuilder::new()
        .with_bootstrap_servers(vec!["k1:9092".to_string(), "k2:9092".to_string()])
        .with_producer_timeout_ms(Duration::from_millis(1500))
        .build()
        .unwrap();
    assert_eq!(b.config().bootstrap_servers, vec!["k1:9092", "k2:9092"]);
    assert_eq!(b.config().producer_timeout_ms, Some(Duration::from_millis(1500)));
}

#[test]
fn kafka_client_settings() {
    let config = enroute::KafkaBrokerConfig {
        bootstrap_servers: vec!["k1:9092".to_string(), "k2:9092".to_string()],
        producer_timeout_ms: Some(Duration::from_millis(1500)),
    };
    let settings = config.client_settings(Some(vec![("group.id".to_string(), "g".to_string())]));
    assert_eq!(
        settings,
        vec![
            ("bootstrap.servers".to_string(), "k1:9092,k2:9092".to_string()),
            ("message.timeout.ms".to_string(), "1500".to_string()),
            ("group.id".to_string(), "g".to_string()),
        ]
    );
    let bare = enroute::KafkaBrokerConfig { bootstrap_servers: vec![], producer_timeout_ms: None };
    assert_eq!(bare.client_settings(None), vec![("bootstrap.servers".to_string(), String::new())]);
}
