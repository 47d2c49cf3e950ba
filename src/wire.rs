//! How an event travels through Kafka: its attributes as named headers
//! beside the payload, and back.
use vstd::prelude::*;
use vstd::utf8::encode_utf8;

use crate::error::Error;
use crate::event::{
    bytes_result, extension_map, opt_view, DataView, Event, EventView, ExtensionValue, Timestamp,
};
use crate::json::{lossy_text, text_of, text_of_bytes, url_serialization};

verus! {

/// The RFC 3339 text chrono writes for an instant, or `None` where the
/// instant is outside the range chrono represents.
pub uninterp spec fn rfc3339_text(t: Timestamp) -> Option<Seq<char>>;

/// Relies on `chrono::DateTime::from_timestamp` and `to_rfc3339`: the
/// RFC 3339 text of an instant that chrono can represent.
#[verifier::external_body]
fn time_text(t: Timestamp) -> (r: Option<String>)
    ensures
        r is Some <==> rfc3339_text(t) is Some,
        r matches Some(s) ==> rfc3339_text(t) == Some(s@),
{
    chrono::DateTime::from_timestamp(t.secs, t.nanos).map(|d| d.to_rfc3339())
}

/// The instant chrono makes of milliseconds since the epoch, or `None`
/// where it is outside chrono's range.
pub uninterp spec fn millis_time(ms: i64) -> Option<Timestamp>;

/// Relies on `chrono::DateTime::from_timestamp_millis`: the instant a number
/// of milliseconds after the epoch, where chrono can represent it.
#[verifier::external_body]
fn time_from_millis(ms: i64) -> (r: Option<Timestamp>)
    ensures
        r == millis_time(ms),
        r matches Some(t) ==> t.secs * 1000 + t.nanos / 1_000_000 == ms && t.nanos < 1_000_000_000,
{
    chrono::DateTime::from_timestamp_millis(ms).map(
        |d| Timestamp { secs: d.timestamp(), nanos: d.timestamp_subsec_nanos() },
    )
}

pub open spec fn digit_char(d: int) -> char {
    if d == 0 {
        '0'
    } else if d == 1 {
        '1'
    } else if d == 2 {
        '2'
    } else if d == 3 {
        '3'
    } else if d == 4 {
        '4'
    } else if d == 5 {
        '5'
    } else if d == 6 {
        '6'
    } else if d == 7 {
        '7'
    } else if d == 8 {
        '8'
    } else {
        '9'
    }
}

/// The decimal digits of a natural number, most significant first.
pub open spec fn digits(n: nat) -> Seq<char>
    decreases n,
{
    if n < 10 {
        seq![digit_char(n as int)]
    } else {
        digits(n / 10).push(digit_char(n as int % 10))
    }
}

/// The decimal text of an integer, with a leading minus sign when negative.
pub open spec fn decimal(n: int) -> Seq<char> {
    if n < 0 {
        seq!['-'] + digits((-n) as nat)
    } else {
        digits(n as nat)
    }
}

/// Relies on the `Display` of `i64` (through `to_string`): its decimal text.
#[verifier::external_body]
fn integer_text(n: i64) -> (r: String)
    ensures
        r@ == decimal(n as int),
{
    n.to_string()
}

/// Relies on the `Display` of `u128` (through `to_string`): its decimal text.
#[verifier::external_body]
pub(crate) fn u128_text(n: u128) -> (r: String)
    ensures
        r@ == decimal(n as int),
{
    n.to_string()
}

/// The text an extension value travels as.
pub open spec fn ext_text(v: ExtensionValue) -> Seq<char> {
    match v {
        ExtensionValue::String(s) => s@,
        ExtensionValue::Boolean(b) => if b {
            "true"@
        } else {
            "false"@
        },
        ExtensionValue::Integer(i) => decimal(i as int),
    }
}

fn extension_text(v: &ExtensionValue) -> (r: String)
    ensures
        r@ == ext_text(*v),
{
    match v {
        ExtensionValue::String(s) => s.clone(),
        ExtensionValue::Boolean(b) => if *b {
            String::from_str("true")
        } else {
            String::from_str("false")
        },
        ExtensionValue::Integer(i) => integer_text(*i),
    }
}

/// The milliseconds since the epoch of an instant, where they fit in an i64.
pub open spec fn epoch_millis(t: Timestamp) -> Option<i64> {
    if -9_223_372_036_854_775 <= t.secs <= 9_223_372_036_854_770 {
        Some((t.secs * 1000 + t.nanos / 1_000_000) as i64)
    } else {
        None
    }
}

fn millis_of(t: Timestamp) -> (r: Option<i64>)
    ensures
        r == epoch_millis(t),
{
    if -9_223_372_036_854_775 <= t.secs && t.secs <= 9_223_372_036_854_770 {
        assert(-9_223_372_036_854_775_000 <= t.secs * 1000 <= 9_223_372_036_854_770_000) by (
        nonlinear_arith)
            requires
                -9_223_372_036_854_775 <= t.secs <= 9_223_372_036_854_770,
        ;
        Some(t.secs * 1000 + (t.nanos / 1_000_000) as i64)
    } else {
        None
    }
}

/// The model of a header list: names and texts.
pub open spec fn header_view(hs: Seq<(String, Option<String>)>) -> Seq<(Seq<char>, Option<Seq<char>>)> {
    hs.map_values(|h: (String, Option<String>)| (h.0@, opt_view(h.1)))
}

/// The headers of the CloudEvents attributes of an event, in the order
/// they are written.
pub open spec fn attribute_headers(e: EventView) -> Seq<(Seq<char>, Option<Seq<char>>)> {
    seq![
        ("ce-specversion"@, Some("1.0"@)),
        ("ce-type"@, Some(e.ty)),
        ("ce-source"@, Some(e.source)),
        ("ce-id"@, Some(e.id)),
        ("ce-time"@, match e.time {
            Some(t) => rfc3339_text(t),
            None => None,
        }),
        ("ce-dataschema"@, e.dataschema),
        ("ce-datacontenttype"@, e.datacontenttype),
    ]
}

/// The texts that headers with a value give their names; a later header
/// overrides an earlier one of the same name.
pub open spec fn header_texts(hs: Seq<(Seq<char>, Option<Seq<char>>)>) -> Map<Seq<char>, Seq<char>>
    decreases hs.len(),
{
    if hs.len() == 0 {
        Map::empty()
    } else {
        let rest = header_texts(hs.drop_last());
        match hs.last().1 {
            Some(t) => rest.insert(hs.last().0, t),
            None => rest,
        }
    }
}

/// A record to send to Kafka.
#[derive(Debug, Clone)]
pub struct KafkaRecord {
    /// The message key: the event id.
    pub key: String,
    pub payload: Vec<u8>,
    /// The time of the event in milliseconds since the epoch, where it has one.
    pub timestamp_millis: Option<i64>,
    pub headers: Vec<(String, Option<String>)>,
}

impl KafkaRecord {
    /// The record that carries an event: the id as key, the payload as
    /// bytes, the attributes as `ce-` headers and then one header per
    /// extension. Fails where the payload cannot be read as bytes.
    pub fn from_event(event: &Event) -> (r: Result<KafkaRecord, Error>)
        ensures
            r matches Err(e) ==> bytes_result(event@.data, Err(e)),
            r matches Ok(rec) ==> {
                &&& bytes_result(event@.data, Ok(rec.payload))
                &&& rec.key@ == event@.id
                &&& rec.timestamp_millis == match event@.time {
                    Some(t) => epoch_millis(t),
                    None => None,
                }
                &&& rec.headers.len() >= 7
                &&& header_view(rec.headers@).subrange(0, 7) == attribute_headers(event@)
                &&& forall|i: int|
                    7 <= i < rec.headers.len() ==> (#[trigger] rec.headers@[i]).1 is Some
                &&& header_texts(header_view(rec.headers@).subrange(7, rec.headers.len() as int))
                    == event@.extensions.map_values(|v: ExtensionValue| ext_text(v))
            },
    {
        let payload = match event.data_as_bytes() {
            Ok(b) => b,
            Err(e) => return Err(e),
        };
        let timestamp_millis = match event.time() {
            Some(t) => millis_of(t),
            None => None,
        };
        let time = match event.time() {
            Some(t) => time_text(t),
            None => None,
        };
        let mut headers: Vec<(String, Option<String>)> = Vec::new();
        headers.push((String::from_str("ce-specversion"), Some(event.specversion())));
        headers.push((String::from_str("ce-type"), Some(event.type_().to_owned())));
        headers.push((String::from_str("ce-source"), Some(event.source().to_owned())));
        headers.push((String::from_str("ce-id"), Some(event.id().to_owned())));
        headers.push((String::from_str("ce-time"), time));
        let schema = match event.dataschema() {
            Some(s) => Some(s.to_owned()),
            None => None,
        };
        headers.push((String::from_str("ce-dataschema"), schema));
        let content_type = match event.datacontenttype() {
            Some(s) => Some(s.to_owned()),
            None => None,
        };
        headers.push((String::from_str("ce-datacontenttype"), content_type));
        assert(header_view(headers@) =~= attribute_headers(event@));
        let ghost attrs = headers@;
        let pairs = event.extensions();
        let mut i: usize = 0;
        while i < pairs.len()
            invariant
                i <= pairs.len(),
                headers.len() == 7 + i,
                headers@.subrange(0, 7) == attrs,
                forall|j: int| 7 <= j < headers.len() ==> (#[trigger] headers@[j]).1 is Some,
                header_texts(header_view(headers@).subrange(7, headers.len() as int)) == extension_map(
                    pairs@.subrange(0, i as int),
                ).map_values(|v: ExtensionValue| ext_text(v)),
            decreases pairs.len() - i,
        {
            let (name, value) = &pairs[i];
            let ghost before = header_view(headers@).subrange(7, headers.len() as int);
            headers.push((name.clone(), Some(extension_text(value))));
            let ghost after = header_view(headers@).subrange(7, headers.len() as int);
            assert(after.drop_last() =~= before);
            assert(pairs@.subrange(0, i + 1).drop_last() =~= pairs@.subrange(0, i as int));
            assert(headers@.subrange(0, 7) =~= attrs);
            assert(header_texts(after) =~= extension_map(pairs@.subrange(0, i + 1)).map_values(
                |v: ExtensionValue| ext_text(v),
            ));
            i = i + 1;
        }
        assert(pairs@.subrange(0, pairs.len() as int) =~= pairs@);
        assert(header_view(headers@).subrange(0, 7) =~= header_view(attrs));
        Ok(KafkaRecord { key: event.id().to_owned(), payload, timestamp_millis, headers })
    }
}

/// The names of the headers that carry CloudEvents attributes.
pub open spec fn reserved_name(k: Seq<char>) -> bool {
    k == "ce-type"@ || k == "ce-source"@ || k == "ce-id"@ || k == "ce-time"@ || k
        == "ce-specversion"@ || k == "ce-dataschema"@ || k == "ce-datacontenttype"@
}

fn is_reserved(k: &String) -> (r: bool)
    ensures
        r == reserved_name(k@),
{
    *k == String::from_str("ce-type") || *k == String::from_str("ce-source") || *k
        == String::from_str("ce-id") || *k == String::from_str("ce-time") || *k == String::from_str(
        "ce-specversion",
    ) || *k == String::from_str("ce-dataschema") || *k == String::from_str("ce-datacontenttype")
}

/// `i` is the first header named `k`.
pub open spec fn first_named(hs: Seq<(String, Option<Vec<u8>>)>, k: Seq<char>, i: int) -> bool {
    &&& 0 <= i < hs.len()
    &&& hs[i].0@ == k
    &&& forall|j: int| 0 <= j < i ==> (#[trigger] hs[j]).0@ != k
}

/// The value of the first header named `k`, if there is one and it has a
/// value.
pub open spec fn header_value(hs: Seq<(String, Option<Vec<u8>>)>, k: Seq<char>) -> Option<Seq<u8>> {
    if exists|i: int| first_named(hs, k, i) {
        let i = choose|i: int| first_named(hs, k, i);
        match hs[i].1 {
            Some(v) => Some(v@),
            None => None,
        }
    } else {
        None
    }
}

/// The text of a header's value, as the lossy decoding of its bytes.
pub open spec fn header_text(hs: Seq<(String, Option<Vec<u8>>)>, k: Seq<char>) -> Option<Seq<char>> {
    match header_value(hs, k) {
        Some(b) => Some(text_of(b)),
        None => None,
    }
}

/// The extension attributes that received headers carry: every header with
/// a value whose name is not reserved, by name; a later header overrides an
/// earlier one.
pub open spec fn received_extensions(hs: Seq<(String, Option<Vec<u8>>)>) -> Map<Seq<char>, Seq<char>>
    decreases hs.len(),
{
    if hs.len() == 0 {
        Map::empty()
    } else {
        let rest = received_extensions(hs.drop_last());
        let h = hs.last();
        if reserved_name(h.0@) {
            rest
        } else {
            match h.1 {
                Some(v) => rest.insert(h.0@, text_of(v@)),
                None => rest,
            }
        }
    }
}

fn find_header(hs: &Vec<(String, Option<Vec<u8>>)>, k: &str) -> (r: Option<String>)
    ensures
        r is Some <==> header_value(hs@, k@) is Some,
        r matches Some(s) ==> Some(s@) == header_text(hs@, k@),
{
    let key = k.to_owned();
    let mut i: usize = 0;
    while i < hs.len()
        invariant
            i <= hs.len(),
            key@ == k@,
            forall|j: int| 0 <= j < i ==> (#[trigger] hs@[j]).0@ != k@,
        decreases hs.len() - i,
    {
        if hs[i].0 == key {
            assert(first_named(hs@, k@, i as int));
            proof {
                let c = choose|c: int| first_named(hs@, k@, c);
                if c < i {
                    assert(hs@[c].0@ != k@);
                } else if c > i {
                    assert(hs@[i as int].0@ != k@);
                }
            }
            return match &hs[i].1 {
                Some(v) => Some(text_of_bytes(v.as_slice())),
                None => None,
            };
        }
        i = i + 1;
    }
    assert(!exists|c: int| first_named(hs@, k@, c));
    None
}

fn text_or_none(s: &Option<String>) -> (r: Option<&str>)
    ensures
        r is Some <==> s is Some,
        r matches Some(v) ==> v@ == s->Some_0@,
{
    match s {
        Some(v) => Some(v.as_str()),
        None => None,
    }
}

/// A record received from Kafka.
#[derive(Debug, Clone)]
pub struct KafkaMessage {
    pub key: Option<Vec<u8>>,
    /// The record's time in milliseconds since the epoch, where it has one.
    pub timestamp_millis: Option<i64>,
    pub headers: Vec<(String, Option<Vec<u8>>)>,
    pub payload: Option<Vec<u8>>,
}

impl KafkaMessage {
    /// The event a record carries: the key (decoded lossily) as id, the
    /// record time as time, `ce-type` and `ce-source` as type and source,
    /// `ce-dataschema` as schema URL, every other header with a value as a
    /// text extension, and the payload as raw bytes. A missing `ce-type`,
    /// then a missing `ce-source`, is a Deserialization error; an empty
    /// source or a schema URL that does not parse fails the build.
    pub fn to_event(&self) -> (r: Result<Event, Error>)
        ensures
            header_value(self.headers@, "ce-type"@) is None ==> (r matches Err(e)
                && e is Deserialization),
            header_value(self.headers@, "ce-type"@) is Some && header_value(
                self.headers@,
                "ce-source"@,
            ) is None ==> (r matches Err(e) && e is Deserialization),
            ({
                let ty = header_text(self.headers@, "ce-type"@);
                let source = header_text(self.headers@, "ce-source"@);
                let schema = header_text(self.headers@, "ce-dataschema"@);
                ty is Some && source is Some ==> {
                    &&& (source->Some_0.len() > 0 && (schema is None || url_serialization(
                        schema->Some_0,
                    ) is Some)) <==> r is Ok
                    &&& r matches Err(e) ==> e is Unknown
                }
            }),
            r matches Ok(e) ==> Some(e@.ty) == header_text(self.headers@, "ce-type"@),
            r matches Ok(e) ==> Some(e@.source) == header_text(self.headers@, "ce-source"@),
            r matches Ok(e) ==> (self.key matches Some(k) ==> e@.id == text_of(k@)),
            r matches Ok(e) ==> (self.timestamp_millis matches Some(ms) ==> (millis_time(ms) is Some
                ==> e@.time == millis_time(ms))),
            r matches Ok(e) ==> e@.dataschema == match header_text(self.headers@, "ce-dataschema"@) {
                Some(s) => url_serialization(s),
                None => None,
            },
            r matches Ok(e) ==> e@.datacontenttype == Some("application/json"@),
            r matches Ok(e) ==> e@.data == Some(
                DataView::Binary(
                    match self.payload {
                        Some(p) => p@,
                        None => Seq::empty(),
                    },
                ),
            ),
            r matches Ok(e) ==> e@.extensions.map_values(|v: ExtensionValue| ext_text(v))
                == received_extensions(self.headers@),
    {
        let ty = match find_header(&self.headers, "ce-type") {
            Some(t) => t,
            None => return Err(Error::Deserialization(String::from_str("Missing ce-type header"))),
        };
        let source = match find_header(&self.headers, "ce-source") {
            Some(s) => s,
            None => return Err(Error::Deserialization(String::from_str("Missing ce-source header"))),
        };
        let schema = find_header(&self.headers, "ce-dataschema");
        let id = match &self.key {
            Some(k) => Some(text_of_bytes(k.as_slice())),
            None => None,
        };
        let time = match self.timestamp_millis {
            Some(ms) => time_from_millis(ms),
            None => None,
        };
        let mut pairs: Vec<(String, ExtensionValue)> = Vec::new();
        let mut i: usize = 0;
        while i < self.headers.len()
            invariant
                i <= self.headers.len(),
                extension_map(pairs@).map_values(|v: ExtensionValue| ext_text(v))
                    == received_extensions(self.headers@.subrange(0, i as int)),
            decreases self.headers.len() - i,
        {
            let (name, value) = &self.headers[i];
            let ghost before = pairs@;
            assert(self.headers@.subrange(0, i + 1).drop_last() =~= self.headers@.subrange(
                0,
                i as int,
            ));
            if !is_reserved(name) {
                match value {
                    Some(v) => {
                        let text = text_of_bytes(v.as_slice());
                        pairs.push((name.clone(), ExtensionValue::String(text)));
                        assert(pairs@.drop_last() =~= before);
                        assert(extension_map(pairs@).map_values(|v: ExtensionValue| ext_text(v))
                            =~= received_extensions(self.headers@.subrange(0, i + 1)));
                    },
                    None => {},
                }
            }
            i = i + 1;
        }
        assert(self.headers@.subrange(0, self.headers.len() as int) =~= self.headers@);
        let payload = match &self.payload {
            Some(p) => {
                let c = p.clone();
                assert(c@ =~= p@);
                c
            },
            None => Vec::new(),
        };
        let b = Event::builder();
        let b = b.maybe_id(text_or_none(&id));
        let b = b.maybe_time(time);
        let b = b.type_(ty.as_str());
        let b = b.source(source.as_str());
        let b = b.maybe_schema_url(text_or_none(&schema));
        let b = b.extensions(pairs);
        b.build_raw(payload)
    }
}

/// Headers as received: each name as sent, each text as its UTF-8 bytes.
pub open spec fn sent_as(hs: Seq<(Seq<char>, Option<Seq<char>>)>, received: Seq<(String, Option<Vec<u8>>)>) -> bool {
    &&& received.len() == hs.len()
    &&& forall|i: int|
        0 <= i < hs.len() ==> (#[trigger] received[i]).0@ == hs[i].0 && match hs[i].1 {
            Some(t) => received[i].1 matches Some(b) && b@ == encode_utf8(t),
            None => received[i].1 is None,
        }
}

proof fn lemma_text_of_encoding(s: Seq<char>)
    ensures
        text_of(encode_utf8(s)) == s,
{
    vstd::utf8::encode_utf8_valid_utf8(s);
    vstd::utf8::encode_utf8_decode_utf8(s);
}

proof fn lemma_named_in_texts(hs: Seq<(Seq<char>, Option<Seq<char>>)>, i: int)
    requires
        0 <= i < hs.len(),
        hs[i].1 is Some,
    ensures
        header_texts(hs).dom().contains(hs[i].0),
    decreases hs.len(),
{
    if i < hs.len() - 1 {
        lemma_named_in_texts(hs.drop_last(), i);
    }
}

proof fn lemma_attribute_header_read(
    e: EventView,
    hs: Seq<(Seq<char>, Option<Seq<char>>)>,
    received: Seq<(String, Option<Vec<u8>>)>,
    i: int,
)
    requires
        hs.len() >= 7,
        hs.subrange(0, 7) == attribute_headers(e),
        sent_as(hs, received),
        0 <= i < 7,
        forall|j: int| 0 <= j < i ==> hs[j].0 != hs[i].0,
    ensures
        header_text(received, hs[i].0) == hs[i].1,
{
    let k = hs[i].0;
    assert(hs[i] == attribute_headers(e)[i]);
    assert(first_named(received, k, i)) by {
        assert forall|j: int| 0 <= j < i implies (#[trigger] received[j]).0@ != k by {
            assert(received[j].0@ == hs[j].0);
        }
    }
    let c = choose|c: int| first_named(received, k, c);
    if c < i {
        assert(received[c].0@ == hs[c].0);
    } else if c > i {
        assert(received[i].0@ == k);
    }
    match hs[i].1 {
        Some(t) => lemma_text_of_encoding(t),
        None => {},
    }
}

proof fn lemma_reserved_prefix(
    e: EventView,
    hs: Seq<(Seq<char>, Option<Seq<char>>)>,
    received: Seq<(String, Option<Vec<u8>>)>,
    m: int,
)
    requires
        hs.len() >= 7,
        hs.subrange(0, 7) == attribute_headers(e),
        sent_as(hs, received),
        0 <= m <= 7,
    ensures
        received_extensions(received.subrange(0, m)) == Map::<Seq<char>, Seq<char>>::empty(),
    decreases m,
{
    if m > 0 {
        assert(received.subrange(0, m).drop_last() =~= received.subrange(0, m - 1));
        lemma_reserved_prefix(e, hs, received, m - 1);
        assert(hs[m - 1] == attribute_headers(e)[m - 1]);
        assert(received[m - 1].0@ == hs[m - 1].0);
    }
}

proof fn lemma_extension_headers(
    e: EventView,
    hs: Seq<(Seq<char>, Option<Seq<char>>)>,
    received: Seq<(String, Option<Vec<u8>>)>,
    j: int,
)
    requires
        hs.len() >= 7,
        hs.subrange(0, 7) == attribute_headers(e),
        forall|i: int| 7 <= i < hs.len() ==> (#[trigger] hs[i]).1 is Some,
        header_texts(hs.subrange(7, hs.len() as int)) == e.extensions.map_values(
            |v: ExtensionValue| ext_text(v),
        ),
        forall|k: Seq<char>| #[trigger] e.extensions.dom().contains(k) ==> !reserved_name(k),
        sent_as(hs, received),
        0 <= j <= hs.len() - 7,
    ensures
        received_extensions(received.subrange(0, 7 + j)) == header_texts(
            hs.subrange(7, hs.len() as int).subrange(0, j),
        ),
    decreases j,
{
    let ext = hs.subrange(7, hs.len() as int);
    if j == 0 {
        lemma_reserved_prefix(e, hs, received, 7);
        assert(ext.subrange(0, 0) =~= Seq::<(Seq<char>, Option<Seq<char>>)>::empty());
    } else {
        let i = j - 1;
        lemma_extension_headers(e, hs, received, i);
        let k = ext[i].0;
        assert(received.subrange(0, 7 + j).drop_last() =~= received.subrange(0, 7 + i));
        assert(ext.subrange(0, j).drop_last() =~= ext.subrange(0, i));
        assert(ext[i] == hs[7 + i]);
        assert(received[7 + i].0@ == k);
        lemma_named_in_texts(ext, i);
        assert(e.extensions.dom().contains(k));
        let t = ext[i].1->Some_0;
        lemma_text_of_encoding(t);
        assert(ext.subrange(0, j).last() == ext[i]);
    }
}

/// Wire round trip: when the headers of an event's record (as `from_event`
/// gives them) are received as UTF-8 bytes, and no extension of the event has
/// a reserved name, reading them gives back the event's type, source and
/// schema URL, and its extensions as text.
pub proof fn lemma_record_round_trip(
    e: EventView,
    hs: Seq<(Seq<char>, Option<Seq<char>>)>,
    received: Seq<(String, Option<Vec<u8>>)>,
)
    requires
        hs.len() >= 7,
        hs.subrange(0, 7) == attribute_headers(e),
        forall|i: int| 7 <= i < hs.len() ==> (#[trigger] hs[i]).1 is Some,
        header_texts(hs.subrange(7, hs.len() as int)) == e.extensions.map_values(
            |v: ExtensionValue| ext_text(v),
        ),
        forall|k: Seq<char>| #[trigger] e.extensions.dom().contains(k) ==> !reserved_name(k),
        sent_as(hs, received),
    ensures
        header_text(received, "ce-type"@) == Some(e.ty),
        header_text(received, "ce-source"@) == Some(e.source),
        header_text(received, "ce-dataschema"@) == e.dataschema,
        received_extensions(received) == e.extensions.map_values(|v: ExtensionValue| ext_text(v)),
{
    reveal_strlit("ce-specversion");
    reveal_strlit("ce-type");
    reveal_strlit("ce-source");
    reveal_strlit("ce-id");
    reveal_strlit("ce-time");
    reveal_strlit("ce-dataschema");
    reveal_strlit("ce-datacontenttype");
    assert(hs[0] == attribute_headers(e)[0]);
    assert(hs[1] == attribute_headers(e)[1]);
    assert(hs[2] == attribute_headers(e)[2]);
    assert(hs[3] == attribute_headers(e)[3]);
    assert(hs[4] == attribute_headers(e)[4]);
    assert(hs[5] == attribute_headers(e)[5]);
    assert("ce-specversion"@.len() != "ce-type"@.len());
    lemma_attribute_header_read(e, hs, received, 1);
    assert("ce-source"@[4] != "ce-specversion"@[4]);
    assert("ce-source"@.len() != "ce-type"@.len());
    lemma_attribute_header_read(e, hs, received, 2);
    assert("ce-dataschema"@.len() != "ce-specversion"@.len());
    assert("ce-dataschema"@.len() != "ce-type"@.len());
    assert("ce-dataschema"@.len() != "ce-source"@.len());
    assert("ce-dataschema"@.len() != "ce-id"@.len());
    assert("ce-dataschema"@.len() != "ce-time"@.len());
    lemma_attribute_header_read(e, hs, received, 5);
    let ext = hs.subrange(7, hs.len() as int);
    let n = ext.len() as int;
    lemma_extension_headers(e, hs, received, n);
    assert(ext.subrange(0, n) =~= ext);
    assert(received.subrange(0, 7 + n) =~= received);
}

} // verus!
