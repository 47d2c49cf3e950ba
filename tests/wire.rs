use enroute::wire::{KafkaMessage, KafkaRecord};
use enroute::{Error, Event, ExtensionValue, Timestamp};

fn header(k: &str, v: &str) -> (String, Option<Vec<u8>>) {
    (k.to_string(), Some(v.as_bytes().to_vec()))
}

fn text(h: &(String, Option<String>)) -> (&str, Option<&str>) {
    (h.0.as_str(), h.1.as_deref())
}

#[test]
fn record_carries_attributes_as_headers() {
    let e = Event::builder()
        .id("evt-1")
        .source("urn:shop")
        .type_("order.created")
        .time(Timestamp { secs: 1_700_000_000, nanos: 123_456_789 })
        .schema_url("http://example.com/schema")
        .extension("tenant", ExtensionValue::String("acme".to_string()))
        .extension("retries", ExtensionValue::Integer(-42))
        .extension("urgent", ExtensionValue::Boolean(true))
        .build_raw(b"{}".to_vec())
        .unwrap();
    let rec = KafkaRecord::from_event(&e).unwrap();
    assert_eq!(rec.key, "evt-1");
    assert_eq!(rec.payload, b"{}".to_vec());
    assert_eq!(rec.timestamp_millis, Some(1_700_000_000_123));
    let hs: Vec<_> = rec.headers.iter().map(text).collect();
    assert_eq!(
        hs[..7].to_vec(),
        vec![
            ("ce-specversion", Some("1.0")),
            ("ce-type", Some("order.created")),
            ("ce-source", Some("urn:shop")),
            ("ce-id", Some("evt-1")),
            ("ce-time", Some("2023-11-14T22:13:20.123456789+00:00")),
            ("ce-dataschema", Some("http://example.com/schema")),
            ("ce-datacontenttype", Some("application/json")),
        ]
    );
    let mut ext = hs[7..].to_vec();
    ext.sort();
    assert_eq!(
        ext,
        vec![("retries", Some("-42")), ("tenant", Some("acme")), ("urgent", Some("true"))]
    );
}

#[test]
fn record_of_json_payload_without_schema() {
    let e = Event::builder()
        .id("x")
        .source("urn:a")
        .build_json("t", Ok(serde_json::Value::Null))
        .unwrap();
    let rec = KafkaRecord::from_event(&e).unwrap();
    assert_eq!(rec.payload, b"null".to_vec());
    assert_eq!(text(&rec.headers[5]), ("ce-dataschema", None));
    assert_eq!(rec.headers.len(), 7);
}

#[test]
fn record_of_event_without_payload_fails() {
    let e = Event::builder().build_with(None, None).unwrap();
    assert!(matches!(KafkaRecord::from_event(&e), Err(Error::MissingEventData)));
}

#[test]
fn message_becomes_an_event() {
    let msg = KafkaMessage {
        key: Some(b"k1".to_vec()),
        timestamp_millis: Some(1_700_000_000_123),
        headers: vec![
            header("ce-type", "order.created"),
            header("ce-source", "urn:shop"),
            header("ce-id", "ignored"),
            header("ce-dataschema", "http://example.com/s"),
            header("tenant", "acme"),
            ("empty".to_string(), None),
            header("tenant", "globex"),
        ],
        payload: Some(b"{\"a\":1}".to_vec()),
    };
    let e = msg.to_event().unwrap();
    assert_eq!(e.id(), "k1");
    assert_eq!(e.type_(), "order.created");
    assert_eq!(e.source(), "urn:shop");
    assert_eq!(e.time(), Some(Timestamp { secs: 1_700_000_000, nanos: 123_000_000 }));
    assert_eq!(e.dataschema(), Some("http://example.com/s"));
    assert_eq!(e.datacontenttype(), Some("application/json"));
    assert_eq!(e.data_as_bytes().unwrap(), b"{\"a\":1}".to_vec());
    assert_eq!(
        e.extensions(),
        vec![("tenant".to_string(), ExtensionValue::String("globex".to_string()))]
    );
}

#[test]
fn message_without_type_or_source_is_rejected() {
    let no_type = KafkaMessage {
        key: None,
        timestamp_millis: None,
        headers: vec![header("ce-source", "urn:shop")],
        payload: None,
    };
    assert_eq!(
        no_type.to_event(),
        Err(Error::Deserialization("Missing ce-type header".to_string()))
    );
    let no_source = KafkaMessage {
        key: None,
        timestamp_millis: None,
        headers: vec![header("ce-type", "t"), ("ce-source".to_string(), None)],
        payload: None,
    };
    assert_eq!(
        no_source.to_event(),
        Err(Error::Deserialization("Missing ce-source header".to_string()))
    );
}

#[test]
fn message_with_empty_source_or_bad_schema_fails() {
    let empty = KafkaMessage {
        key: None,
        timestamp_millis: None,
        headers: vec![header("ce-type", "t"), header("ce-source", "")],
        payload: None,
    };
    assert!(matches!(empty.to_event(), Err(Error::Unknown(_))));
    let bad = KafkaMessage {
        key: None,
        timestamp_millis: None,
        headers: vec![header("ce-type", "t"), header("ce-source", "s"), header("ce-dataschema", "::")],
        payload: None,
    };
    assert!(matches!(bad.to_event(), Err(Error::Unknown(_))));
}

#[test]
fn message_defaults_and_lossy_key() {
    let msg = KafkaMessage {
        key: Some(vec![0xff, b'a']),
        timestamp_millis: None,
        headers: vec![header("ce-type", "t"), header("ce-source", "s")],
        payload: None,
    };
    let e = msg.to_event().unwrap();
    assert_eq!(e.id(), "\u{fffd}a");
    assert!(e.time().is_some());
    assert_eq!(e.data_as_bytes().unwrap(), Vec::<u8>::new());
}

#[test]
fn record_and_message_round_trip() {
    let e = Event::builder()
        .id("evt-9")
        .source("urn:shop")
        .type_("order.paid")
        .extension("tenant", ExtensionValue::String("acme".to_string()))
        .build_raw(b"[1,2]".to_vec())
        .unwrap();
    let rec = KafkaRecord::from_event(&e).unwrap();
    let msg = KafkaMessage {
        key: Some(rec.key.as_bytes().to_vec()),
        timestamp_millis: rec.timestamp_millis,
        headers: rec
            .headers
            .iter()
            .map(|(k, v)| (k.clone(), v.as_ref().map(|s| s.as_bytes().to_vec())))
            .collect(),
        payload: Some(rec.payload.clone()),
    };
    let back = msg.to_event().unwrap();
    assert_eq!(back.id(), e.id());
    assert_eq!(back.type_(), e.type_());
    assert_eq!(back.source(), e.source());
    assert_eq!(back.data_as_bytes().unwrap(), e.data_as_bytes().unwrap());
    assert_eq!(back.extensions(), e.extensions());
}

#[test]
fn extension_with_a_reserved_name_is_not_read_back() {
    let e = Event::builder()
        .id("evt-3")
        .source("urn:shop")
        .type_("t")
        .extension("ce-id", ExtensionValue::String("shadow".to_string()))
        .extension("region", ExtensionValue::String("eu".to_string()))
        .build_raw(vec![])
        .unwrap();
    let rec = KafkaRecord::from_event(&e).unwrap();
    let msg = KafkaMessage {
        key: Some(rec.key.as_bytes().to_vec()),
        timestamp_millis: None,
        headers: rec
            .headers
            .iter()
            .map(|(k, v)| (k.clone(), v.as_ref().map(|s| s.as_bytes().to_vec())))
            .collect(),
        payload: None,
    };
    let back = msg.to_event().unwrap();
    assert_eq!(back.id(), "evt-3");
    assert_eq!(
        back.extensions(),
        vec![("region".to_string(), ExtensionValue::String("eu".to_string()))]
    );
}
