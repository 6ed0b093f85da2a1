use std::fmt;

use serde::de::{Deserialize, Deserializer, MapAccess as SerdeMapAccess, SeqAccess as SerdeSeqAccess};
use serde_bufferless::private::access::{EntryVisitor, ValueDeserializer};
use serde_bufferless::private::capture::{Field, SlotCapture, StructVisitor};
use serde_bufferless::private::content::{Error, Kind, Value};
use serde_bufferless::private::flatten::{FlattenDeserializer, KeyCapture};

/// A value read from any self-describing format, in the library's own terms.
struct Parsed(Value);

struct ParsedVisitor;

impl<'de> serde::de::Visitor<'de> for ParsedVisitor {
    type Value = Parsed;

    fn expecting(&self, formatter: &mut fmt::Formatter) -> fmt::Result {
        formatter.write_str("any value")
    }

    fn visit_bool<E>(self, v: bool) -> Result<Parsed, E> {
        Ok(Parsed(Value::Bool(v)))
    }

    fn visit_i64<E>(self, v: i64) -> Result<Parsed, E> {
        Ok(Parsed(Value::I64(v)))
    }

    fn visit_u64<E>(self, v: u64) -> Result<Parsed, E> {
        Ok(Parsed(Value::U64(v)))
    }

    fn visit_f64<E>(self, v: f64) -> Result<Parsed, E> {
        Ok(Parsed(Value::F64(v.to_bits())))
    }

    fn visit_str<E>(self, v: &str) -> Result<Parsed, E> {
        Ok(Parsed(Value::Str(v.to_owned())))
    }

    fn visit_unit<E>(self) -> Result<Parsed, E> {
        Ok(Parsed(Value::Unit))
    }

    fn visit_seq<A>(self, mut seq: A) -> Result<Parsed, A::Error>
    where
        A: SerdeSeqAccess<'de>,
    {
        let mut list = Vec::new();
        while let Some(Parsed(element)) = seq.next_element()? {
            list.push(element);
        }
        Ok(Parsed(Value::List(list)))
    }

    fn visit_map<A>(self, mut map: A) -> Result<Parsed, A::Error>
    where
        A: SerdeMapAccess<'de>,
    {
        let mut entries = Vec::new();
        while let Some((Parsed(key), Parsed(value))) = map.next_entry()? {
            entries.push((key, value));
        }
        Ok(Parsed(Value::Record(entries)))
    }
}

impl<'de> Deserialize<'de> for Parsed {
    fn deserialize<D>(deserializer: D) -> Result<Self, D::Error>
    where
        D: Deserializer<'de>,
    {
        deserializer.deserialize_any(ParsedVisitor)
    }
}

fn field(name: &str, default: Option<Value>) -> Field {
    match default {
        Some(value) => Field::new(name).or(value),
        None => Field::new(name),
    }
}

#[derive(Debug, PartialEq)]
struct Inner {
    integer: i32,
    string: String,
    before: f32,
}

#[derive(Debug, PartialEq)]
struct Outer {
    before: Option<f32>,
    inner: Inner,
    after: Option<bool>,
}

fn float_of(value: &Value) -> f32 {
    match value {
        Value::F32(bits) => f32::from_bits(*bits),
        Value::F64(bits) => f64::from_bits(*bits) as f32,
        other => panic!("not a float: {:?}", other),
    }
}

fn integer_of(value: &Value) -> i32 {
    match value {
        Value::I64(v) => *v as i32,
        Value::U64(v) => *v as i32,
        other => panic!("not an integer: {:?}", other),
    }
}

fn string_of(value: &Value) -> String {
    match value {
        Value::Str(s) => s.clone(),
        other => panic!("not a string: {:?}", other),
    }
}

fn bool_of(value: &Value) -> bool {
    match value {
        Value::Bool(v) => *v,
        other => panic!("not a boolean: {:?}", other),
    }
}

/// Decodes an `Outer` from a source: `before` and `after` are its own
/// fields, both optional; everything else goes to `inner`.
fn decode_outer(source: Value) -> Result<Outer, Error> {
    let capture = SlotCapture::new(
        "struct Outer",
        vec![field("before", Some(Value::Absent)), field("after", Some(Value::Absent))],
    );
    let inner = StructVisitor::new(
        "struct Inner",
        vec![
            field("integer", None),
            field("string", None),
            field("before", Some(Value::F32(0.0f32.to_bits()))),
        ],
    );
    let flatten = FlattenDeserializer::new(ValueDeserializer::new(source), capture);
    let (inner, capture) = flatten.deserialize_any(inner)?;
    let outer = capture.finish()?;
    Ok(Outer {
        before: match &outer[0] {
            Value::Absent => None,
            present => Some(float_of(present)),
        },
        inner: Inner {
            integer: integer_of(&inner[0]),
            string: string_of(&inner[1]),
            before: float_of(&inner[2]),
        },
        after: match &outer[1] {
            Value::Absent => None,
            present => Some(bool_of(present)),
        },
    })
}

#[test]
fn one_field() {
    let Parsed(source) = serde_json::from_str(
        r#"{
            "_1": 1,
            "integer": 10,
            "_2": 2,
            "before": 10.5,
            "_3": 3,
            "string": "hello",
            "_4": 4,
            "after": true,
            "_5": 5
        }"#,
    )
    .expect("failed to parse JSON");

    let data = decode_outer(source).expect("failed to decode");

    assert_eq!(
        data,
        Outer {
            before: Some(10.5),
            inner: Inner {
                integer: 10,
                string: "hello".to_string(),
                before: 0.0,
            },
            after: Some(true),
        }
    );
}

#[derive(Debug, PartialEq)]
struct Strict {
    float: f32,
    boolean: bool,
    inner: Inner,
}

/// Decodes a `Strict` from a source: `float` and `boolean` are its own
/// fields, both required; everything else goes to `inner`.
fn decode_strict(source: Value) -> Result<Strict, Error> {
    let capture = SlotCapture::new("struct Outer", vec![field("float", None), field("boolean", None)]);
    let inner = StructVisitor::new(
        "struct Inner",
        vec![
            field("integer", None),
            field("string", None),
            field("float", Some(Value::F32(0.0f32.to_bits()))),
        ],
    );
    let flatten = FlattenDeserializer::new(ValueDeserializer::new(source), capture);
    let (inner, capture) = flatten.deserialize_any(inner)?;
    let outer = capture.finish()?;
    Ok(Strict {
        float: float_of(&outer[0]),
        boolean: bool_of(&outer[1]),
        inner: Inner {
            integer: integer_of(&inner[0]),
            string: string_of(&inner[1]),
            before: float_of(&inner[2]),
        },
    })
}

#[test]
fn outer_takes_its_fields_from_between_the_inner_ones() {
    let Parsed(source) = serde_json::from_str(
        r#"{
            "integer": 10,
            "float": 10.5,
            "string": "hello",
            "boolean": true
        }"#,
    )
    .expect("failed to parse json");

    assert_eq!(
        decode_strict(source),
        Ok(Strict {
            float: 10.5,
            boolean: true,
            inner: Inner {
                integer: 10,
                string: "hello".to_string(),
                before: 0.0,
            },
        })
    );
}

#[test]
fn outer_misses_a_field_that_the_input_lacks() {
    let Parsed(source) =
        serde_json::from_str(r#"{"integer": 10, "float": 10.5, "string": "hello"}"#)
            .expect("failed to parse json");

    assert_eq!(decode_strict(source), Err(Error::MissingField("boolean".to_owned())));
}

#[test]
fn parsed_record_keeps_source_order() {
    let Parsed(source) = serde_json::from_str(r#"{"b": 1, "a": [true, null], "c": -2}"#)
        .expect("failed to parse JSON");
    assert_eq!(
        source,
        Value::Record(vec![
            (Value::Str("b".to_owned()), Value::U64(1)),
            (
                Value::Str("a".to_owned()),
                Value::List(vec![Value::Bool(true), Value::Unit]),
            ),
            (Value::Str("c".to_owned()), Value::I64(-2)),
        ])
    );
    assert_eq!(source.kind(), Kind::Record);
}

#[test]
fn fields_behind_an_early_stop_are_still_captured() {
    let Parsed(source) = serde_json::from_str(
        r#"{"integer": 10, "before": 10.5, "string": "hello", "after": true, "_5": 5}"#,
    )
    .expect("failed to parse JSON");
    let capture = SlotCapture::new(
        "struct Outer",
        vec![field("before", None), field("after", None)],
    );
    let flatten = FlattenDeserializer::new(ValueDeserializer::new(source), capture);
    let (seen, mut capture) = flatten
        .deserialize_any(EntryVisitor::at_most(1))
        .expect("failed to decode");
    assert_eq!(seen, vec![(Value::Str("integer".to_owned()), Value::U64(10))]);
    assert_eq!(capture.try_send_key(b"after"), Some(1));
    assert_eq!(
        capture.finish(),
        Ok(vec![Value::F64(10.5f64.to_bits()), Value::Bool(true)])
    );
}
