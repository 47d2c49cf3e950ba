//! The event model: a CloudEvents-shaped envelope with its attributes and a
//! payload held as raw bytes, a JSON value or text.
use vstd::prelude::*;

use vstd::slice::slice_to_vec;
use vstd::utf8::encode_utf8;

use crate::error::Error;
use crate::json::{
    decode_json, encode_json, json_decoding, json_encoding, json_text, json_to_text, parse_url,
    text_of, text_of_bytes, url_serialization,
};
use cloudevents::AttributesReader;

verus! {

/// An instant as seconds and nanoseconds since the Unix epoch (UTC).
#[derive(Clone, Copy, Debug, PartialEq, Eq, Structural)]
pub struct Timestamp {
    pub secs: i64,
    pub nanos: u32,
}

impl Timestamp {
    /// The nanoseconds lie within the second.
    pub open spec fn wf(self) -> bool {
        self.nanos < 1_000_000_000
    }
}

/// The value of an extension attribute.
#[derive(Debug, PartialEq, Eq)]
pub enum ExtensionValue {
    String(String),
    Boolean(bool),
    Integer(i64),
}

impl Clone for ExtensionValue {
    fn clone(&self) -> (r: Self)
        ensures
            r == *self,
    {
        match self {
            ExtensionValue::String(s) => ExtensionValue::String(s.clone()),
            ExtensionValue::Boolean(b) => ExtensionValue::Boolean(*b),
            ExtensionValue::Integer(i) => ExtensionValue::Integer(*i),
        }
    }
}

/// The payload of an event, in the form it was stored.
#[derive(Debug, PartialEq)]
pub enum Data {
    Binary(Vec<u8>),
    Json(serde_json::Value),
    String(String),
}

/// The model of a payload.
pub ghost enum DataView {
    Binary(Seq<u8>),
    Json(serde_json::Value),
    String(Seq<char>),
}

impl View for Data {
    type V = DataView;

    open spec fn view(&self) -> DataView {
        match self {
            Data::Binary(b) => DataView::Binary(b@),
            Data::Json(v) => DataView::Json(*v),
            Data::String(s) => DataView::String(s@),
        }
    }
}

impl Clone for Data {
    fn clone(&self) -> (r: Self)
        ensures
            r@ == self@,
    {
        match self {
            Data::Binary(b) => {
                let c = b.clone();
                assert(c@ =~= b@);
                Data::Binary(c)
            },
            Data::Json(v) => Data::Json(v.clone()),
            Data::String(s) => Data::String(s.clone()),
        }
    }
}

/// The extension attributes that a list of (name, value) pairs sets when
/// applied in order onto `m`: a later pair overrides an earlier one.
pub open spec fn insert_all(
    m: Map<Seq<char>, ExtensionValue>,
    pairs: Seq<(String, ExtensionValue)>,
) -> Map<Seq<char>, ExtensionValue>
    decreases pairs.len(),
{
    if pairs.len() == 0 {
        m
    } else {
        let last = pairs.last();
        insert_all(m, pairs.drop_last()).insert(last.0@, last.1)
    }
}

/// The extension attributes held by a list of (name, value) pairs.
pub open spec fn extension_map(pairs: Seq<(String, ExtensionValue)>) -> Map<
    Seq<char>,
    ExtensionValue,
> {
    insert_all(Map::empty(), pairs)
}

/// No two pairs share a name.
pub open spec fn unique_names(pairs: Seq<(String, ExtensionValue)>) -> bool {
    forall|i: int, j: int|
        0 <= i < pairs.len() && 0 <= j < pairs.len() && i != j ==> #[trigger] pairs[i].0@
            != #[trigger] pairs[j].0@
}

/// Setting the value of an existing name in place sets it in the map.
pub proof fn lemma_update_extension(
    pairs: Seq<(String, ExtensionValue)>,
    i: int,
    pair: (String, ExtensionValue),
)
    requires
        unique_names(pairs),
        0 <= i < pairs.len(),
        pairs[i].0@ == pair.0@,
    ensures
        extension_map(pairs.update(i, pair)) == extension_map(pairs).insert(pair.0@, pair.1),
        unique_names(pairs.update(i, pair)),
    decreases pairs.len(),
{
    let updated = pairs.update(i, pair);
    if i == pairs.len() - 1 {
        assert(updated.drop_last() =~= pairs.drop_last());
        assert(extension_map(updated) =~= extension_map(pairs).insert(pair.0@, pair.1));
    } else {
        let init = pairs.drop_last();
        assert(updated.drop_last() =~= init.update(i, pair));
        assert(unique_names(init));
        lemma_update_extension(init, i, pair);
        let last = pairs.last();
        assert(last.0@ != pair.0@) by {
            assert(pairs[pairs.len() - 1].0@ != pairs[i].0@);
        }
        assert(extension_map(updated) =~= extension_map(pairs).insert(pair.0@, pair.1));
    }
    assert forall|a: int, b: int|
        0 <= a < updated.len() && 0 <= b < updated.len() && a != b implies #[trigger] updated[a].0@
        != #[trigger] updated[b].0@ by {
        assert(pairs[a].0@ != pairs[b].0@);
    }
}

/// Clones a list of extension pairs.
fn clone_extensions(pairs: &Vec<(String, ExtensionValue)>) -> (r: Vec<(String, ExtensionValue)>)
    ensures
        r@ == pairs@,
{
    let mut r: Vec<(String, ExtensionValue)> = Vec::new();
    let mut i: usize = 0;
    while i < pairs.len()
        invariant
            i <= pairs.len(),
            r@ == pairs@.subrange(0, i as int),
        decreases pairs.len() - i,
    {
        let (name, value) = &pairs[i];
        r.push((name.clone(), value.clone()));
        i = i + 1;
        assert(r@ =~= pairs@.subrange(0, i as int));
    }
    assert(pairs@.subrange(0, pairs.len() as int) =~= pairs@);
    r
}

fn clone_opt_string(s: &Option<String>) -> (r: Option<String>)
    ensures
        r == *s,
{
    match s {
        Some(v) => Some(v.clone()),
        None => None,
    }
}

fn opt_str(s: &Option<String>) -> (r: Option<&str>)
    ensures
        r is Some <==> s is Some,
        r matches Some(v) ==> v@ == s->Some_0@,
{
    match s {
        Some(v) => Some(v.as_str()),
        None => None,
    }
}

/// The model of an event.
pub ghost struct EventView {
    pub id: Seq<char>,
    pub source: Seq<char>,
    pub ty: Seq<char>,
    pub time: Option<Timestamp>,
    pub datacontenttype: Option<Seq<char>>,
    pub dataschema: Option<Seq<char>>,
    pub subject: Option<Seq<char>>,
    pub extensions: Map<Seq<char>, ExtensionValue>,
    pub data: Option<DataView>,
}

pub open spec fn opt_view(s: Option<String>) -> Option<Seq<char>> {
    match s {
        Some(v) => Some(v@),
        None => None,
    }
}

/// An event: its attributes are fixed when it is built.
#[derive(Debug, PartialEq)]
pub struct Event {
    id: String,
    source: String,
    ty: String,
    time: Option<Timestamp>,
    datacontenttype: Option<String>,
    dataschema: Option<String>,
    subject: Option<String>,
    extensions: Vec<(String, ExtensionValue)>,
    data: Option<Data>,
}

impl View for Event {
    type V = EventView;

    closed spec fn view(&self) -> EventView {
        EventView {
            id: self.id@,
            source: self.source@,
            ty: self.ty@,
            time: self.time,
            datacontenttype: opt_view(self.datacontenttype),
            dataschema: opt_view(self.dataschema),
            subject: opt_view(self.subject),
            extensions: extension_map(self.extensions@),
            data: match self.data {
                Some(d) => Some(d@),
                None => None,
            },
        }
    }
}

impl Clone for Event {
    fn clone(&self) -> (r: Self)
        ensures
            r@ == self@,
    {
        let data = match &self.data {
            Some(d) => Some(d.clone()),
            None => None,
        };
        Event {
            id: self.id.clone(),
            source: self.source.clone(),
            ty: self.ty.clone(),
            time: self.time,
            datacontenttype: clone_opt_string(&self.datacontenttype),
            dataschema: clone_opt_string(&self.dataschema),
            subject: clone_opt_string(&self.subject),
            extensions: clone_extensions(&self.extensions),
            data,
        }
    }
}

/// What `data_as_bytes` gives for a payload.
pub open spec fn bytes_result(d: Option<DataView>, r: Result<Vec<u8>, Error>) -> bool {
    match d {
        None => r == Err::<Vec<u8>, Error>(Error::MissingEventData),
        Some(DataView::Binary(b)) => r matches Ok(v) && v@ == b,
        Some(DataView::String(s)) => r matches Ok(v) && v@ == encode_utf8(s),
        Some(DataView::Json(j)) => r matches Ok(v) && v@ == json_encoding(j),
    }
}

/// What parsing JSON text gives as a value, or a Deserialization error.
pub open spec fn decoded_result(b: Seq<u8>, r: Result<serde_json::Value, Error>) -> bool {
    match json_decoding(b) {
        Some(v) => r == Ok::<serde_json::Value, Error>(v),
        None => r matches Err(e) && e is Deserialization,
    }
}

/// What `data_as_value` gives for a payload.
pub open spec fn value_result(d: Option<DataView>, r: Result<serde_json::Value, Error>) -> bool {
    match d {
        None => r == Err::<serde_json::Value, Error>(Error::MissingEventData),
        Some(DataView::Json(j)) => r == Ok::<serde_json::Value, Error>(j),
        Some(DataView::Binary(b)) => decoded_result(b, r),
        Some(DataView::String(s)) => decoded_result(encode_utf8(s), r),
    }
}

/// What `data_as_string` gives for a payload.
pub open spec fn string_result(d: Option<DataView>, r: Result<String, Error>) -> bool {
    match d {
        None => r == Err::<String, Error>(Error::MissingEventData),
        Some(DataView::String(s)) => r matches Ok(v) && v@ == s,
        Some(DataView::Json(j)) => r matches Ok(v) && v@ == json_text(j),
        Some(DataView::Binary(b)) => match json_decoding(b) {
            Some(_) => r matches Ok(v) && v@ == text_of(b),
            None => r matches Err(e) && e is Deserialization,
        },
    }
}

fn decode_bytes(b: &[u8]) -> (r: Result<serde_json::Value, Error>)
    ensures
        decoded_result(b@, r),
{
    match decode_json(b) {
        Ok(v) => Ok(v),
        Err(e) => Err(Error::Deserialization(e)),
    }
}

impl Event {
    /// The CloudEvents specification version of every event.
    pub fn specversion(&self) -> (r: String)
        ensures
            r@ == "1.0"@,
    {
        String::from_str("1.0")
    }

    pub fn id(&self) -> (r: &str)
        ensures
            r@ == self@.id,
    {
        self.id.as_str()
    }

    pub fn source(&self) -> (r: &str)
        ensures
            r@ == self@.source,
    {
        self.source.as_str()
    }

    pub fn type_(&self) -> (r: &str)
        ensures
            r@ == self@.ty,
    {
        self.ty.as_str()
    }

    pub fn time(&self) -> (r: Option<Timestamp>)
        ensures
            r == self@.time,
    {
        self.time
    }

    pub fn datacontenttype(&self) -> (r: Option<&str>)
        ensures
            r is Some <==> self@.datacontenttype is Some,
            r matches Some(v) ==> Some(v@) == self@.datacontenttype,
    {
        opt_str(&self.datacontenttype)
    }

    /// The data schema URL, in its normalised form.
    pub fn dataschema(&self) -> (r: Option<&str>)
        ensures
            r is Some <==> self@.dataschema is Some,
            r matches Some(v) ==> Some(v@) == self@.dataschema,
    {
        opt_str(&self.dataschema)
    }

    pub fn subject(&self) -> (r: Option<&str>)
        ensures
            r is Some <==> self@.subject is Some,
            r matches Some(v) ==> Some(v@) == self@.subject,
    {
        opt_str(&self.subject)
    }

    /// The payload in the form it was stored.
    pub fn payload(&self) -> (r: Option<&Data>)
        ensures
            r is Some <==> self@.data is Some,
            r matches Some(d) ==> self@.data == Some(d@),
    {
        match &self.data {
            Some(d) => Some(d),
            None => None,
        }
    }

    /// The extension attributes, one pair per name.
    pub fn extensions(&self) -> (r: Vec<(String, ExtensionValue)>)
        ensures
            extension_map(r@) == self@.extensions,
    {
        clone_extensions(&self.extensions)
    }

    /// The payload as bytes: raw bytes as stored, text as its UTF-8
    /// encoding, a JSON value as its encoding.
    pub fn data_as_bytes(&self) -> (r: Result<Vec<u8>, Error>)
        ensures
            bytes_result(self@.data, r),
    {
        match &self.data {
            None => Err(Error::MissingEventData),
            Some(Data::Binary(b)) => {
                let c = b.clone();
                assert(c@ =~= b@);
                Ok(c)
            },
            Some(Data::Json(v)) => Ok(encode_json(v).unwrap()),
            Some(Data::String(s)) => Ok(slice_to_vec(s.as_str().as_bytes())),
        }
    }

    /// The payload as a JSON value: a stored value as it is, bytes and text
    /// parsed as JSON.
    pub fn data_as_value(&self) -> (r: Result<serde_json::Value, Error>)
        ensures
            value_result(self@.data, r),
    {
        match &self.data {
            None => Err(Error::MissingEventData),
            Some(Data::Json(v)) => Ok(v.clone()),
            Some(Data::Binary(b)) => decode_bytes(b.as_slice()),
            Some(Data::String(s)) => decode_bytes(s.as_str().as_bytes()),
        }
    }

    /// The payload as JSON text: stored text as it is, a value written out,
    /// bytes that parse as JSON as their text. Bytes that are not JSON are a
    /// Deserialization error.
    pub fn data_as_string(&self) -> (r: Result<String, Error>)
        ensures
            string_result(self@.data, r),
    {
        match &self.data {
            None => Err(Error::MissingEventData),
            Some(Data::String(s)) => Ok(s.clone()),
            Some(Data::Json(v)) => Ok(json_to_text(v).unwrap()),
            Some(Data::Binary(b)) => match decode_json(b.as_slice()) {
                Ok(_) => Ok(text_of_bytes(b.as_slice())),
                Err(e) => Err(Error::Deserialization(e)),
            },
        }
    }
}

/// A payload shape with a fixed event type and channel.
pub trait EventData {
    /// The event type of events that carry this payload.
    fn event_type() -> &'static str;

    /// The channel that events with this payload go to.
    fn channel_name() -> &'static str;
}

/// A payload without content.
#[derive(Debug, Clone)]
pub struct EmptyEventData;

impl EventData for EmptyEventData {
    fn event_type() -> &'static str {
        "_"
    }

    fn channel_name() -> &'static str {
        "_"
    }
}

/// The model of an event builder.
pub ghost struct EventBuilderView {
    pub id: Seq<char>,
    pub source: Seq<char>,
    pub ty: Seq<char>,
    pub time: Option<Timestamp>,
    pub subject: Option<Seq<char>>,
    pub extensions: Map<Seq<char>, ExtensionValue>,
    pub schema_url: Option<Seq<char>>,
    /// The last schema URL that could not be parsed, as its error.
    pub error: Option<Error>,
    /// The error of an attribute that was given an invalid value.
    pub attribute_error: Option<Error>,
}

/// The error a build reports before building: a rejected schema URL first,
/// then an invalid attribute.
pub open spec fn deferred_error(b: EventBuilderView) -> Option<Error> {
    if b.error is Some {
        b.error
    } else {
        b.attribute_error
    }
}

/// The event a builder produces with the given type, content type and
/// payload.
pub open spec fn assembled_event(
    b: EventBuilderView,
    ty: Seq<char>,
    datacontenttype: Option<Seq<char>>,
    data: Option<DataView>,
) -> EventView {
    EventView {
        id: b.id,
        source: b.source,
        ty,
        time: b.time,
        datacontenttype,
        dataschema: b.schema_url,
        subject: b.subject,
        extensions: b.extensions,
        data,
    }
}

/// The event a builder produces with the given type and a JSON-declared
/// payload.
pub open spec fn built_event(b: EventBuilderView, ty: Seq<char>, data: DataView) -> EventView {
    assembled_event(b, ty, Some("application/json"@), Some(data))
}

pub open spec fn opt_data_view(d: Option<Data>) -> Option<DataView> {
    match d {
        Some(v) => Some(v@),
        None => None,
    }
}

/// The pairs of a list whose value is present.
pub open spec fn present_pairs(pairs: Seq<(String, Option<ExtensionValue>)>) -> Seq<
    (String, ExtensionValue),
>
    decreases pairs.len(),
{
    if pairs.len() == 0 {
        Seq::empty()
    } else {
        let last = pairs.last();
        let init = present_pairs(pairs.drop_last());
        match last.1 {
            Some(v) => init.push((last.0, v)),
            None => init,
        }
    }
}

/// Accumulates the attributes of an event and builds it.
#[derive(Debug)]
pub struct EventBuilder {
    id: String,
    source: String,
    ty: String,
    time: Option<Timestamp>,
    subject: Option<String>,
    extensions: Vec<(String, ExtensionValue)>,
    schema_url: Option<String>,
    error: Option<Error>,
    attribute_error: Option<Error>,
}

impl View for EventBuilder {
    type V = EventBuilderView;

    closed spec fn view(&self) -> EventBuilderView {
        EventBuilderView {
            id: self.id@,
            source: self.source@,
            ty: self.ty@,
            time: self.time,
            subject: opt_view(self.subject),
            extensions: extension_map(self.extensions@),
            schema_url: opt_view(self.schema_url),
            error: self.error,
            attribute_error: self.attribute_error,
        }
    }
}

/// Relies on `cloudevents::Event::default` for the attributes a new event
/// starts from: a fresh v4 UUID as id, the host's URL as source, the type
/// "type" and the current time.
#[verifier::external_body]
fn default_attributes() -> (r: (String, String, String, Option<Timestamp>))
    ensures
        r.2@ == "type"@,
        r.3 matches Some(t) ==> t.wf(),
{
    let e = cloudevents::Event::default();
    let time = e.time().map(|t| Timestamp { secs: t.timestamp(), nanos: t.timestamp_subsec_nanos() });
    (e.id().to_string(), e.source().to_string(), e.ty().to_string(), time)
}

impl Event {
    /// A new builder.
    pub fn builder() -> (r: EventBuilder)
        ensures
            r.wf(),
            r@.ty == "type"@,
            r@.subject is None,
            r@.extensions == Map::<Seq<char>, ExtensionValue>::empty(),
            r@.schema_url is None,
            r@.error is None,
            r@.attribute_error is None,
    {
        EventBuilder::new()
    }

    /// A placeholder event: id and source "_empty", type "_", a JSON null
    /// payload.
    pub fn empty() -> (r: Event)
        ensures
            r@.id == "_empty"@,
            r@.source == "_empty"@,
            r@.ty == "_"@,
            r@.datacontenttype == Some("application/json"@),
            r@.data matches Some(DataView::Json(v)) && json_text(v) == seq!['n', 'u', 'l', 'l']
                && json_encoding(v) == seq![110u8, 117u8, 108u8, 108u8],
    {
        proof {
            reveal_strlit("_empty");
        }
        let b = EventBuilder::new().id("_empty").source("_empty");
        let r = b.build_json("_", Ok(crate::json::json_null()));
        r.unwrap()
    }
}

impl Default for EventBuilder {
    fn default() -> (r: EventBuilder)
        ensures
            r.wf(),
            r@.ty == "type"@,
            r@.subject is None,
            r@.extensions == Map::<Seq<char>, ExtensionValue>::empty(),
            r@.schema_url is None,
            r@.error is None,
            r@.attribute_error is None,
    {
        EventBuilder::new()
    }
}

impl EventBuilder {
    /// The builder's own invariant: one entry per extension name, and a
    /// valid time.
    pub closed spec fn wf(&self) -> bool {
        &&& unique_names(self.extensions@)
        &&& self.time matches Some(t) ==> t.wf()
    }

    /// A builder that starts from a generated id, the host as source, the
    /// type "type" and the current time.
    pub fn new() -> (r: EventBuilder)
        ensures
            r.wf(),
            r@.ty == "type"@,
            r@.subject is None,
            r@.extensions == Map::<Seq<char>, ExtensionValue>::empty(),
            r@.schema_url is None,
            r@.error is None,
            r@.attribute_error is None,
    {
        let (id, source, ty, time) = default_attributes();
        let r = EventBuilder {
            id,
            source,
            ty,
            time,
            subject: None,
            extensions: Vec::new(),
            schema_url: None,
            error: None,
            attribute_error: None,
        };
        assert(r@.extensions =~= Map::empty());
        r
    }

    pub fn id(self, id: &str) -> (r: EventBuilder)
        requires
            self.wf(),
        ensures
            r.wf(),
            r@ == (EventBuilderView { id: id@, ..self@ }),
    {
        let mut b = self;
        b.id = id.to_owned();
        b
    }

    pub fn maybe_id(self, id: Option<&str>) -> (r: EventBuilder)
        requires
            self.wf(),
        ensures
            r.wf(),
            r@ == (match id {
                Some(v) => EventBuilderView { id: v@, ..self@ },
                None => self@,
            }),
    {
        match id {
            Some(v) => self.id(v),
            None => self,
        }
    }

    /// Sets the source; an empty source is invalid and fails the build.
    pub fn source(self, source: &str) -> (r: EventBuilder)
        requires
            self.wf(),
        ensures
            r.wf(),
            source@.len() > 0 ==> r@ == (EventBuilderView { source: source@, ..self@ }),
            source@.len() == 0 ==> (r@.attribute_error matches Some(e) && e is Unknown && r@ == (
            EventBuilderView { attribute_error: r@.attribute_error, ..self@ })),
    {
        let mut b = self;
        if source.is_empty() {
            b.attribute_error = Some(
                Error::Unknown(
                    String::from_str("Invalid value setting attribute 'source' with uriref type"),
                ),
            );
        } else {
            b.source = source.to_owned();
        }
        b
    }

    pub fn maybe_source(self, source: Option<&str>) -> (r: EventBuilder)
        requires
            self.wf(),
        ensures
            r.wf(),
            match source {
                None => r@ == self@,
                Some(s) => if s@.len() > 0 {
                    r@ == (EventBuilderView { source: s@, ..self@ })
                } else {
                    r@.attribute_error matches Some(e) && e is Unknown && r@ == (EventBuilderView {
                        attribute_error: r@.attribute_error,
                        ..self@
                    })
                },
            },
    {
        match source {
            Some(v) => self.source(v),
            None => self,
        }
    }

    pub fn subject(self, subject: &str) -> (r: EventBuilder)
        requires
            self.wf(),
        ensures
            r.wf(),
            r@ == (EventBuilderView { subject: Some(subject@), ..self@ }),
    {
        let mut b = self;
        b.subject = Some(subject.to_owned());
        b
    }

    pub fn maybe_subject(self, subject: Option<&str>) -> (r: EventBuilder)
        requires
            self.wf(),
        ensures
            r.wf(),
            r@ == (match subject {
                Some(v) => EventBuilderView { subject: Some(v@), ..self@ },
                None => self@,
            }),
    {
        match subject {
            Some(v) => self.subject(v),
            None => self,
        }
    }

    pub fn time(self, time: Timestamp) -> (r: EventBuilder)
        requires
            self.wf(),
            time.wf(),
        ensures
            r.wf(),
            r@ == (EventBuilderView { time: Some(time), ..self@ }),
    {
        let mut b = self;
        b.time = Some(time);
        b
    }

    pub fn maybe_time(self, time: Option<Timestamp>) -> (r: EventBuilder)
        requires
            self.wf(),
            time matches Some(t) ==> t.wf(),
        ensures
            r.wf(),
            r@ == (match time {
                Some(t) => EventBuilderView { time: Some(t), ..self@ },
                None => self@,
            }),
    {
        match time {
            Some(t) => self.time(t),
            None => self,
        }
    }

    /// Sets an extension attribute, replacing any earlier value of that name.
    pub fn extension(self, name: &str, value: ExtensionValue) -> (r: EventBuilder)
        requires
            self.wf(),
        ensures
            r.wf(),
            r@ == (EventBuilderView { extensions: self@.extensions.insert(name@, value), ..self@ }),
    {
        let ghost start = self@;
        let mut b = self;
        let key = name.to_owned();
        let mut i: usize = 0;
        while i < b.extensions.len()
            invariant
                i <= b.extensions.len(),
                unique_names(b.extensions@),
                b.wf(),
                b@ == start,
                start == self@,
                key@ == name@,
                forall|j: int| 0 <= j < i ==> (#[trigger] b.extensions@[j]).0@ != key@,
            decreases b.extensions.len() - i,
        {
            if b.extensions[i].0 == key {
                let ghost prior = b.extensions@;
                let ghost pair = (key, value);
                proof {
                    lemma_update_extension(prior, i as int, pair);
                }
                b.extensions[i] = (key, value);
                assert(b.extensions@ == prior.update(i as int, pair));
                return b;
            }
            i = i + 1;
        }
        let ghost before = b.extensions@;
        b.extensions.push((key, value));
        assert(b.extensions@.drop_last() =~= before);
        assert(unique_names(b.extensions@)) by {
            assert forall|x: int, y: int|
                0 <= x < b.extensions@.len() && 0 <= y < b.extensions@.len() && x != y implies #[trigger] b.extensions@[x].0@
                != #[trigger] b.extensions@[y].0@ by {
                if x < before.len() && y < before.len() {
                    assert(before[x].0@ != before[y].0@);
                }
            }
        }
        b
    }

    pub fn maybe_extension(self, name: &str, value: Option<ExtensionValue>) -> (r: EventBuilder)
        requires
            self.wf(),
        ensures
            r.wf(),
            r@ == (match value {
                Some(v) => EventBuilderView { extensions: self@.extensions.insert(name@, v), ..self@ },
                None => self@,
            }),
    {
        match value {
            Some(v) => self.extension(name, v),
            None => self,
        }
    }

    /// Sets each extension attribute of the list in order.
    pub fn extensions(self, extensions: Vec<(String, ExtensionValue)>) -> (r: EventBuilder)
        requires
            self.wf(),
        ensures
            r.wf(),
            r@ == (EventBuilderView {
                extensions: insert_all(self@.extensions, extensions@),
                ..self@
            }),
    {
        let ghost start = self@;
        let mut b = self;
        let mut i: usize = 0;
        while i < extensions.len()
            invariant
                i <= extensions.len(),
                b.wf(),
                b@ == (EventBuilderView {
                    extensions: insert_all(start.extensions, extensions@.subrange(0, i as int)),
                    ..start
                }),
            decreases extensions.len() - i,
        {
            let (name, value) = &extensions[i];
            b = b.extension(name.as_str(), value.clone());
            assert(extensions@.subrange(0, i + 1).drop_last() =~= extensions@.subrange(0, i as int));
            i = i + 1;
        }
        assert(extensions@.subrange(0, extensions.len() as int) =~= extensions@);
        b
    }

    /// Sets, in order, each extension attribute of the list whose value is
    /// present.
    pub fn maybe_extensions(self, extensions: Option<Vec<(String, Option<ExtensionValue>)>>) -> (r:
        EventBuilder)
        requires
            self.wf(),
        ensures
            r.wf(),
            r@ == (match extensions {
                Some(exts) => EventBuilderView {
                    extensions: insert_all(self@.extensions, present_pairs(exts@)),
                    ..self@
                },
                None => self@,
            }),
    {
        match extensions {
            None => self,
            Some(exts) => {
                let ghost start = self@;
                let mut b = self;
                let mut i: usize = 0;
                while i < exts.len()
                    invariant
                        i <= exts.len(),
                        b.wf(),
                        b@ == (EventBuilderView {
                            extensions: insert_all(
                                start.extensions,
                                present_pairs(exts@.subrange(0, i as int)),
                            ),
                            ..start
                        }),
                    decreases exts.len() - i,
                {
                    let (name, value) = &exts[i];
                    assert(exts@.subrange(0, i + 1).drop_last() =~= exts@.subrange(0, i as int));
                    match value {
                        Some(v) => {
                            let ghost p = present_pairs(exts@.subrange(0, i as int));
                            assert(p.push((*name, *v)).drop_last() =~= p);
                            b = b.extension(name.as_str(), v.clone());
                        },
                        None => {},
                    }
                    i = i + 1;
                }
                assert(exts@.subrange(0, exts.len() as int) =~= exts@);
                b
            },
        }
    }

    /// Sets the data schema URL; one that does not parse is kept as the
    /// error the build reports.
    pub fn schema_url(self, schema_url: &str) -> (r: EventBuilder)
        requires
            self.wf(),
        ensures
            r.wf(),
            url_serialization(schema_url@) matches Some(u) ==> r@ == (EventBuilderView {
                schema_url: Some(u),
                ..self@
            }),
            url_serialization(schema_url@) is None ==> (r@.error matches Some(e) && e is Unknown
                && r@ == (EventBuilderView { error: r@.error, ..self@ })),
    {
        let mut b = self;
        match parse_url(schema_url) {
            Ok(u) => {
                b.schema_url = Some(u);
            },
            Err(e) => {
                b.error = Some(Error::Unknown(e));
            },
        }
        b
    }

    pub fn maybe_schema_url(self, schema_url: Option<&str>) -> (r: EventBuilder)
        requires
            self.wf(),
        ensures
            r.wf(),
            match schema_url {
                None => r@ == self@,
                Some(s) => match url_serialization(s@) {
                    Some(u) => r@ == (EventBuilderView { schema_url: Some(u), ..self@ }),
                    None => r@.error matches Some(e) && e is Unknown && r@ == (EventBuilderView {
                        error: r@.error,
                        ..self@
                    }),
                },
            },
    {
        match schema_url {
            Some(s) => self.schema_url(s),
            None => self,
        }
    }

    pub fn type_(self, ty: &str) -> (r: EventBuilder)
        requires
            self.wf(),
        ensures
            r.wf(),
            r@ == (EventBuilderView { ty: ty@, ..self@ }),
    {
        let mut b = self;
        b.ty = ty.to_owned();
        b
    }

    pub fn maybe_type(self, ty: Option<&str>) -> (r: EventBuilder)
        requires
            self.wf(),
        ensures
            r.wf(),
            r@ == (match ty {
                Some(v) => EventBuilderView { ty: v@, ..self@ },
                None => self@,
            }),
    {
        match ty {
            Some(v) => self.type_(v),
            None => self,
        }
    }

    fn finish(self, ty: String, datacontenttype: Option<String>, data: Option<Data>) -> (r: Result<
        Event,
        Error,
    >)
        requires
            self.wf(),
        ensures
            deferred_error(self@) matches Some(e) ==> r == Err::<Event, Error>(e),
            deferred_error(self@) is None ==> (r matches Ok(ev) && ev@ == assembled_event(
                self@,
                ty@,
                opt_view(datacontenttype),
                opt_data_view(data),
            )),
    {
        if let Some(e) = self.error {
            return Err(e);
        }
        if let Some(e) = self.attribute_error {
            return Err(e);
        }
        Ok(
            Event {
                id: self.id,
                source: self.source,
                ty,
                time: self.time,
                datacontenttype,
                dataschema: self.schema_url,
                subject: self.subject,
                extensions: self.extensions,
                data,
            },
        )
    }

    /// Builds an event whose payload is the JSON encoding of a typed payload
    /// of the given event type; `encoded` is that encoding or the reason it
    /// failed.
    pub fn build_json(self, event_type: &str, encoded: Result<serde_json::Value, String>) -> (r:
        Result<Event, Error>)
        requires
            self.wf(),
        ensures
            encoded matches Err(m) ==> r == Err::<Event, Error>(Error::Serialization(m)),
            encoded is Ok && deferred_error(self@) is Some ==> r == Err::<Event, Error>(
                deferred_error(self@)->Some_0,
            ),
            encoded is Ok && deferred_error(self@) is None ==> (r matches Ok(ev) && ev@
                == built_event(self@, event_type@, DataView::Json(encoded->Ok_0))),
    {
        match encoded {
            Err(m) => Err(Error::Serialization(m)),
            Ok(v) => self.finish(
                event_type.to_owned(),
                Some(String::from_str("application/json")),
                Some(Data::Json(v)),
            ),
        }
    }

    /// Builds an event whose payload is raw bytes; the type is the one set
    /// on the builder.
    pub fn build_raw(self, data: Vec<u8>) -> (r: Result<Event, Error>)
        requires
            self.wf(),
        ensures
            deferred_error(self@) matches Some(e) ==> r == Err::<Event, Error>(e),
            deferred_error(self@) is None ==> (r matches Ok(ev) && ev@ == built_event(
                self@,
                self@.ty,
                DataView::Binary(data@),
            )),
    {
        let ty = self.ty.clone();
        self.finish(ty, Some(String::from_str("application/json")), Some(Data::Binary(data)))
    }

    /// Builds an event with the given content type and payload, either of
    /// which may be absent; the type is the one set on the builder.
    pub fn build_with(self, datacontenttype: Option<&str>, data: Option<Data>) -> (r: Result<
        Event,
        Error,
    >)
        requires
            self.wf(),
        ensures
            deferred_error(self@) matches Some(e) ==> r == Err::<Event, Error>(e),
            deferred_error(self@) is None ==> (r matches Ok(ev) && ev@ == assembled_event(
                self@,
                self@.ty,
                match datacontenttype {
                    Some(c) => Some(c@),
                    None => None,
                },
                opt_data_view(data),
            )),
    {
        let ty = self.ty.clone();
        let ct = match datacontenttype {
            Some(c) => Some(c.to_owned()),
            None => None,
        };
        self.finish(ty, ct, data)
    }
}

/// Event round trip, as far as it is the library's: an event built from a
/// JSON payload `p` reads back as the bytes serde_json encodes `p` to, and an
/// event built from those bytes reads back as the value serde_json decodes
/// them to. That this value is `p` again is serde_json's own round trip.
pub proof fn lemma_payload_round_trip(
    b: EventBuilderView,
    ty: Seq<char>,
    p: serde_json::Value,
    bytes: Vec<u8>,
    raw: EventBuilderView,
    value: Result<serde_json::Value, Error>,
)
    requires
        bytes_result(built_event(b, ty, DataView::Json(p)).data, Ok(bytes)),
        value_result(built_event(raw, raw.ty, DataView::Binary(bytes@)).data, value),
    ensures
        bytes@ == json_encoding(p),
        value is Ok <==> json_decoding(json_encoding(p)) is Some,
        value matches Ok(v) ==> json_decoding(json_encoding(p)) == Some(v),
{
}

} // verus!
