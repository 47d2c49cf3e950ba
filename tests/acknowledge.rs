use enroute::{Acker, BrokerInner, Event, InMemoryAcker, NoOpAcker};

fn event(id: &str) -> Event {
    Event::builder()
        .id(id)
        .source("urn:test")
        .type_("order.created")
        .build_raw(b"{\"n\":1}".to_vec())
        .unwrap()
}

#[test]
fn nack_with_requeue_republishes_the_same_event() {
    let mut engine = BrokerInner::new();
    let mut rx = engine.register_consumer("orders", "billing");
    let e = event("E1");
    engine.publish("orders", &e).unwrap();
    let delivered = rx.try_recv().unwrap();
    let mut acker = InMemoryAcker::new("orders".to_string(), delivered.clone(), true);
    acker.nack(&mut engine);
    assert!(acker.is_settled());
    let again = rx.try_recv().unwrap();
    assert_eq!(again.id(), e.id());
    assert_eq!(again.source(), e.source());
    assert_eq!(again.type_(), e.type_());
    assert_eq!(again.data_as_bytes().unwrap(), e.data_as_bytes().unwrap());
    assert_eq!(again, e);
}

#[test]
fn nack_without_requeue_republishes_nothing() {
    let mut engine = BrokerInner::new();
    let mut rx = engine.register_consumer("orders", "billing");
    let mut acker = InMemoryAcker::new("orders".to_string(), event("E1"), false);
    acker.nack(&mut engine);
    assert!(acker.is_settled());
    assert!(rx.try_recv().is_err());
}

#[test]
fn ack_then_nack_republishes_nothing() {
    let mut engine = BrokerInner::new();
    let mut rx = engine.register_consumer("orders", "billing");
    let mut acker = InMemoryAcker::new("orders".to_string(), event("E1"), true);
    acker.ack();
    acker.nack(&mut engine);
    assert!(rx.try_recv().is_err());
}

#[test]
fn second_nack_republishes_nothing() {
    let mut engine = BrokerInner::new();
    let mut rx = engine.register_consumer("orders", "billing");
    let mut acker = InMemoryAcker::new("orders".to_string(), event("E1"), true);
    acker.nack(&mut engine);
    acker.nack(&mut engine);
    assert!(rx.try_recv().is_ok());
    assert!(rx.try_recv().is_err());
}

#[test]
fn requeue_reaches_every_tag_of_the_channel() {
    let mut engine = BrokerInner::new();
    let mut billing = engine.register_consumer("orders", "billing");
    let mut shipping = engine.register_consumer("orders", "shipping");
    let mut acker = InMemoryAcker::new("orders".to_string(), event("E1"), true);
    acker.nack(&mut engine);
    assert_eq!(billing.try_recv().unwrap().id(), "E1");
    assert_eq!(shipping.try_recv().unwrap().id(), "E1");
}

#[test]
fn requeue_with_dropped_receiver_is_silent() {
    let mut engine = BrokerInner::new();
    let rx = engine.register_consumer("orders", "billing");
    drop(rx);
    let mut acker = InMemoryAcker::new("orders".to_string(), event("E1"), true);
    acker.nack(&mut engine);
    assert!(acker.is_settled());
}

#[test]
fn acker_keeps_channel_and_event() {
    let e = event("E9");
    let acker = InMemoryAcker::new("orders".to_string(), e.clone(), true);
    assert_eq!(acker.channel(), "orders");
    assert_eq!(acker.event(), &e);
    assert!(!acker.is_settled());
}

#[test]
fn noop_acker_does_nothing() {
    let mut acker = NoOpAcker;
    acker.ack();
    acker.nack();
    acker.nack();
}
