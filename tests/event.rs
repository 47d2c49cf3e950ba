use enroute::{EmptyEventData, Error, Event, EventData, ExtensionValue, Timestamp};

fn payload() -> serde_json::Value {
    serde_json::from_str("{\"amount\":12,\"items\":[\"a\",\"b\"],\"paid\":true}").unwrap()
}

#[test]
fn structured_payload_round_trips_through_bytes() {
    let p = payload();
    let e = Event::builder()
        .id("1")
        .source("urn:shop")
        .build_json("order.created", Ok(p.clone()))
        .unwrap();
    let bytes = e.data_as_bytes().unwrap();
    let raw = Event::builder().id("1").source("urn:shop").build_raw(bytes).unwrap();
    assert_eq!(raw.data_as_value().unwrap(), p);
}

#[test]
fn json_payload_as_bytes_and_text() {
    let e = Event::builder().build_json("t", Ok(payload())).unwrap();
    let expected = "{\"amount\":12,\"items\":[\"a\",\"b\"],\"paid\":true}";
    assert_eq!(e.data_as_bytes().unwrap(), expected.as_bytes().to_vec());
    assert_eq!(e.data_as_string().unwrap(), expected);
    assert_eq!(e.data_as_value().unwrap(), payload());
}

#[test]
fn raw_payload_views() {
    let e = Event::builder().build_raw(b"{ \"x\" : [1, 2] }".to_vec()).unwrap();
    assert_eq!(e.data_as_bytes().unwrap(), b"{ \"x\" : [1, 2] }".to_vec());
    assert_eq!(e.data_as_string().unwrap(), "{ \"x\" : [1, 2] }");
    let v: serde_json::Value = serde_json::from_str("{\"x\":[1,2]}").unwrap();
    assert_eq!(e.data_as_value().unwrap(), v);
}

#[test]
fn invalid_bytes_fail_to_decode() {
    let e = Event::builder().build_raw(b"not json".to_vec()).unwrap();
    assert!(matches!(e.data_as_value(), Err(Error::Deserialization(_))));
    assert!(matches!(e.data_as_string(), Err(Error::Deserialization(_))));
    assert_eq!(e.data_as_bytes().unwrap(), b"not json".to_vec());
}

#[test]
fn failed_encoding_is_a_serialization_error() {
    let r = Event::builder().build_json("t", Err("key must be a string".to_string()));
    assert_eq!(r, Err(Error::Serialization("key must be a string".to_string())));
}

#[test]
fn build_sets_attributes() {
    let t = Timestamp { secs: 1_700_000_000, nanos: 5 };
    let e = Event::builder()
        .id("abc")
        .source("urn:shop")
        .subject("order-7")
        .time(t)
        .schema_url("http://example.com/schema")
        .build_json("order.created", Ok(payload()))
        .unwrap();
    assert_eq!(e.id(), "abc");
    assert_eq!(e.source(), "urn:shop");
    assert_eq!(e.type_(), "order.created");
    assert_eq!(e.subject(), Some("order-7"));
    assert_eq!(e.time(), Some(t));
    assert_eq!(e.dataschema(), Some("http://example.com/schema"));
    assert_eq!(e.datacontenttype(), Some("application/json"));
    assert_eq!(e.specversion(), "1.0");
}

#[test]
fn schema_url_is_normalised() {
    let e = Event::builder().schema_url("HTTP://Example.COM").build_raw(vec![]).unwrap();
    assert_eq!(e.dataschema(), Some("http://example.com/"));
}

#[test]
fn invalid_schema_url_fails_the_build() {
    let r = Event::builder().schema_url("not a url").build_raw(vec![1]);
    assert!(matches!(r, Err(Error::Unknown(_))));
    let r = Event::builder().schema_url("not a url").build_json("t", Ok(payload()));
    assert!(matches!(r, Err(Error::Unknown(_))));
}

#[test]
fn encoding_error_comes_before_schema_error() {
    let r = Event::builder().schema_url("not a url").build_json("t", Err("bad".to_string()));
    assert_eq!(r, Err(Error::Serialization("bad".to_string())));
}

#[test]
fn empty_source_fails_the_build() {
    let r = Event::builder().source("").build_raw(vec![]);
    assert!(matches!(r, Err(Error::Unknown(_))));
}

#[test]
fn defaults_of_a_new_builder() {
    let e = Event::builder().build_raw(vec![]).unwrap();
    assert_eq!(e.type_(), "type");
    assert!(!e.id().is_empty());
    assert!(!e.source().is_empty());
    assert!(e.time().is_some());
    assert_eq!(e.subject(), None);
    assert_eq!(e.dataschema(), None);
    let other = Event::builder().build_raw(vec![]).unwrap();
    assert_ne!(e.id(), other.id());
}

#[test]
fn maybe_setters_skip_none() {
    let e = Event::builder()
        .id("x")
        .maybe_id(None)
        .maybe_subject(None)
        .maybe_type(Some("k"))
        .maybe_source(Some("urn:a"))
        .maybe_time(None)
        .maybe_schema_url(None)
        .build_raw(vec![])
        .unwrap();
    assert_eq!(e.id(), "x");
    assert_eq!(e.type_(), "k");
    assert_eq!(e.source(), "urn:a");
    assert_eq!(e.subject(), None);
}

#[test]
fn extensions_later_value_wins() {
    let e = Event::builder()
        .extension("tenant", ExtensionValue::String("a".to_string()))
        .extension("retries", ExtensionValue::Integer(3))
        .extension("tenant", ExtensionValue::String("b".to_string()))
        .maybe_extension("skipped", None)
        .extensions(vec![("flag".to_string(), ExtensionValue::Boolean(true))])
        .maybe_extensions(Some(vec![
            ("retries".to_string(), Some(ExtensionValue::Integer(4))),
            ("absent".to_string(), None),
        ]))
        .build_raw(vec![])
        .unwrap();
    let mut exts = e.extensions();
    exts.sort_by(|a, b| a.0.cmp(&b.0));
    assert_eq!(
        exts,
        vec![
            ("flag".to_string(), ExtensionValue::Boolean(true)),
            ("retries".to_string(), ExtensionValue::Integer(4)),
            ("tenant".to_string(), ExtensionValue::String("b".to_string())),
        ]
    );
}

#[test]
fn empty_event() {
    let e = Event::empty();
    assert_eq!(e.id(), "_empty");
    assert_eq!(e.source(), "_empty");
    assert_eq!(e.type_(), "_");
    assert_eq!(e.data_as_value().unwrap(), serde_json::Value::Null);
    assert_eq!(e.data_as_string().unwrap(), "null");
}

#[test]
fn empty_payload_declares_its_names() {
    assert_eq!(EmptyEventData::event_type(), "_");
    assert_eq!(EmptyEventData::channel_name(), "_");
}

#[test]
fn clone_keeps_everything() {
    let e = Event::builder()
        .id("c")
        .extension("k", ExtensionValue::Integer(1))
        .build_json("t", Ok(payload()))
        .unwrap();
    assert_eq!(e.clone(), e);
}

#[test]
fn event_without_payload_reports_missing_data() {
    let e = Event::builder().build_with(None, None).unwrap();
    assert_eq!(e.data_as_bytes(), Err(Error::MissingEventData));
    assert_eq!(e.data_as_value(), Err(Error::MissingEventData));
    assert_eq!(e.data_as_string(), Err(Error::MissingEventData));
    assert_eq!(e.datacontenttype(), None);
}

#[test]
fn text_payload_views() {
    let e = Event::builder()
        .build_with(Some("text/plain"), Some(enroute::Data::String("[1, 2]".to_string())))
        .unwrap();
    assert_eq!(e.datacontenttype(), Some("text/plain"));
    assert_eq!(e.data_as_string().unwrap(), "[1, 2]");
    assert_eq!(e.data_as_bytes().unwrap(), b"[1, 2]".to_vec());
    let v: serde_json::Value = serde_json::from_str("[1,2]").unwrap();
    assert_eq!(e.data_as_value().unwrap(), v);
    let bad = Event::builder()
        .build_with(None, Some(enroute::Data::String("{".to_string())))
        .unwrap();
    assert!(matches!(bad.data_as_value(), Err(Error::Deserialization(_))));
}

#[test]
fn default_builder_matches_new() {
    let e = enroute::EventBuilder::default().build_raw(vec![]).unwrap();
    assert_eq!(e.type_(), "type");
    assert!(e.extensions().is_empty());
}

#[test]
fn typed_payload_round_trip_through_json_bytes() {
    let p = payload();
    let e = Event::builder().build_json("t", Ok(p.clone())).unwrap();
    let bytes = e.data_as_bytes().unwrap();
    let back: serde_json::Value = serde_json::from_slice(&bytes).unwrap();
    assert_eq!(back, p);
    let raw = Event::builder().build_raw(bytes.clone()).unwrap();
    assert_eq!(raw.data_as_string().unwrap().as_bytes().to_vec(), bytes);
}
