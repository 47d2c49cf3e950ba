use enroute::{BrokerInner, Error, Event};
use futures::channel::mpsc::UnboundedReceiver;

fn event(id: &str) -> Event {
    Event::builder()
        .id(id)
        .source("urn:test")
        .type_("order.created")
        .build_raw(id.as_bytes().to_vec())
        .unwrap()
}

fn drain(rx: &mut UnboundedReceiver<Event>) -> Vec<String> {
    let mut ids = Vec::new();
    while let Ok(e) = rx.try_recv() {
        ids.push(e.id().to_string());
    }
    ids
}

#[test]
fn two_subscribers_alternate() {
    let mut engine = BrokerInner::new();
    let mut a = engine.register_consumer("orders", "billing");
    let mut b = engine.register_consumer("orders", "billing");
    for id in ["E1", "E2", "E3", "E4"] {
        engine.publish("orders", &event(id)).unwrap();
    }
    assert_eq!(drain(&mut a), vec!["E1", "E3"]);
    assert_eq!(drain(&mut b), vec!["E2", "E4"]);
}

#[test]
fn every_tag_gets_a_copy() {
    let mut engine = BrokerInner::new();
    let mut billing = engine.register_consumer("orders", "billing");
    let mut shipping = engine.register_consumer("orders", "shipping");
    let e1 = event("E1");
    engine.publish("orders", &e1).unwrap();
    let got_billing = billing.try_recv().unwrap();
    let got_shipping = shipping.try_recv().unwrap();
    assert_eq!(got_billing, e1);
    assert_eq!(got_shipping, e1);
    assert!(billing.try_recv().is_err());
    assert!(shipping.try_recv().is_err());
}

#[test]
fn round_robin_over_three() {
    let mut engine = BrokerInner::new();
    let mut subs: Vec<_> = (0..3).map(|_| engine.register_consumer("c", "t")).collect();
    for k in 0..6 {
        engine.publish("c", &event(&format!("E{}", k))).unwrap();
    }
    assert_eq!(drain(&mut subs[0]), vec!["E0", "E3"]);
    assert_eq!(drain(&mut subs[1]), vec!["E1", "E4"]);
    assert_eq!(drain(&mut subs[2]), vec!["E2", "E5"]);
}

#[test]
fn tags_keep_their_own_cursor() {
    let mut engine = BrokerInner::new();
    let mut x1 = engine.register_consumer("c", "x");
    let mut x2 = engine.register_consumer("c", "x");
    let mut y1 = engine.register_consumer("c", "y");
    engine.publish("c", &event("E1")).unwrap();
    let mut y2 = engine.register_consumer("c", "y");
    engine.publish("c", &event("E2")).unwrap();
    engine.publish("c", &event("E3")).unwrap();
    assert_eq!(drain(&mut x1), vec!["E1", "E3"]);
    assert_eq!(drain(&mut x2), vec!["E2"]);
    assert_eq!(drain(&mut y1), vec!["E1", "E2"]);
    assert_eq!(drain(&mut y2), vec!["E3"]);
}

#[test]
fn publish_without_groups_is_a_no_op() {
    let mut engine = BrokerInner::new();
    let mut other = engine.register_consumer("payments", "audit");
    assert_eq!(engine.publish("orders", &event("E1")), Ok(()));
    assert!(drain(&mut other).is_empty());
}

#[test]
fn other_channels_see_nothing() {
    let mut engine = BrokerInner::new();
    let mut orders = engine.register_consumer("orders", "billing");
    let mut payments = engine.register_consumer("payments", "billing");
    engine.publish("orders", &event("E1")).unwrap();
    assert_eq!(drain(&mut orders), vec!["E1"]);
    assert!(drain(&mut payments).is_empty());
}

#[test]
fn dropped_receiver_fails_the_publish() {
    let mut engine = BrokerInner::new();
    let rx = engine.register_consumer("orders", "billing");
    drop(rx);
    match engine.publish("orders", &event("E1")) {
        Err(Error::Unknown(_)) => {}
        other => panic!("expected an Unknown error, got {:?}", other),
    }
}

#[test]
fn dropped_receiver_keeps_its_slot() {
    let mut engine = BrokerInner::new();
    let a = engine.register_consumer("orders", "billing");
    let mut b = engine.register_consumer("orders", "billing");
    drop(a);
    assert!(engine.publish("orders", &event("E1")).is_err());
    engine.publish("orders", &event("E2")).unwrap();
    assert!(engine.publish("orders", &event("E3")).is_err());
    assert_eq!(drain(&mut b), vec!["E2"]);
}
