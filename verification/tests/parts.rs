use std::cell::Cell;

use serde_bufferless::private::access::{
    Deserializer, IgnoredAny, ListAccess, MapAccess, SeqAccess, SliceAccess, ValueDeserializer,
    Visitor,
};
use serde_bufferless::private::content::{Error, Fault, Kind, Value};
use serde_bufferless::private::{
    ByteBufDeserializer, Callback, EnumDeserializer, FusedAccess, NewtypeDeserializer, Request,
    SomeDeserializer,
};

fn text(s: &str) -> Value {
    Value::Str(s.to_owned())
}

/// Counts down: hands out its number until it has reached zero.
fn count_down(left: &mut u32) -> Result<Option<u32>, String> {
    if *left == 0 {
        Ok(None)
    } else {
        *left -= 1;
        Ok(Some(*left))
    }
}

const EVERY_REQUEST: [Request; 31] = [
    Request::Any,
    Request::Bool,
    Request::I8,
    Request::I16,
    Request::I32,
    Request::I64,
    Request::I128,
    Request::U8,
    Request::U16,
    Request::U32,
    Request::U64,
    Request::U128,
    Request::F32,
    Request::F64,
    Request::Char,
    Request::Str,
    Request::OwnedStr,
    Request::Bytes,
    Request::ByteBuf,
    Request::Optional,
    Request::Unit,
    Request::UnitStruct,
    Request::NewtypeStruct,
    Request::Sequence,
    Request::Tuple,
    Request::TupleStruct,
    Request::Record,
    Request::Struct,
    Request::Enum,
    Request::Identifier,
    Request::IgnoredAny,
];

#[test]
fn fused_hands_on_what_the_cursor_gives() {
    let mut fused = FusedAccess::new(2u32);
    assert!(fused.is_live());
    assert_eq!(fused.next_item(count_down), Ok(Some(1)));
    assert_eq!(fused.next_item(count_down), Ok(Some(0)));
    assert!(fused.is_live());
    assert_eq!(fused.next_item(count_down), Ok(None));
    assert!(!fused.is_live());
}

#[test]
fn fused_does_not_ask_again_after_the_end() {
    let asked = Cell::new(0u32);
    let mut fused = FusedAccess::new(1u32);
    for _ in 0..5 {
        let _ = fused.next_item(|left| {
            asked.set(asked.get() + 1);
            count_down(left)
        });
    }
    assert_eq!(asked.get(), 2);
    let item: Result<Option<u32>, String> =
        fused.next_item(|_| panic!("asked a cursor that had ended"));
    assert_eq!(item, Ok(None));
}

#[test]
fn fused_stays_live_after_a_failure() {
    let mut fused = FusedAccess::new(1u32);
    let failed: Result<Option<u32>, String> = fused.next_item(|_| Err("broken".to_owned()));
    assert_eq!(failed, Err("broken".to_owned()));
    assert!(fused.is_live());
    assert_eq!(fused.next_item(count_down), Ok(Some(0)));
}

#[test]
fn fused_runs_the_value_operation_on_its_cursor() {
    let mut fused = FusedAccess::new(3u32);
    let doubled = fused.next_value_with(|left| {
        *left *= 2;
        *left
    });
    assert_eq!(doubled, 6);
    assert!(fused.is_live());
    assert_eq!(fused.next_item(count_down), Ok(Some(5)));
}

#[test]
fn fused_map_cursor_advances_as_the_cursor_does() {
    let mut fused = FusedAccess::new(SliceAccess::new(
        vec![(text("a"), Value::U8(1)), (Value::I16(-2), Value::Unit)],
        None,
    ));
    assert_eq!(fused.next_key(), Ok(Some(text("a"))));
    assert_eq!(fused.next_value(), Ok(Value::U8(1)));
    assert_eq!(fused.next_entry(), Ok(Some((Value::I16(-2), Value::Unit))));
    assert!(fused.is_live());
    assert_eq!(fused.next_entry(), Ok(None));
    assert!(!fused.is_live());
    assert_eq!(fused.next_key(), Ok(None));
    assert_eq!(fused.next_entry(), Ok(None));
}

#[test]
fn fused_map_cursor_hands_on_the_fault() {
    let mut fused = FusedAccess::new(SliceAccess::new(
        vec![(text("a"), Value::U8(1))],
        Some(Fault::AtKey(Error::Malformed("cut".to_owned()))),
    ));
    assert_eq!(fused.next_entry(), Ok(Some((text("a"), Value::U8(1)))));
    assert_eq!(fused.next_key(), Err(Error::Malformed("cut".to_owned())));
    assert!(fused.is_live());
}

#[test]
fn fused_map_cursor_hands_on_a_malformed_value() {
    let cut = || {
        SliceAccess::new(
            vec![(text("a"), Value::U8(1))],
            Some(Fault::AtValue(text("b"), Error::Malformed("bad value".to_owned()))),
        )
    };
    let mut fused = FusedAccess::new(cut());
    assert_eq!(fused.next_entry(), Ok(Some((text("a"), Value::U8(1)))));
    assert_eq!(fused.next_key(), Ok(Some(text("b"))));
    assert_eq!(fused.next_value(), Err(Error::Malformed("bad value".to_owned())));
    assert!(fused.is_live());
    let mut fused = FusedAccess::new(cut());
    assert_eq!(fused.next_entry(), Ok(Some((text("a"), Value::U8(1)))));
    assert_eq!(fused.next_entry(), Err(Error::Malformed("bad value".to_owned())));
    assert!(fused.is_live());
}

#[test]
fn fused_seq_cursor_advances_as_the_cursor_does() {
    let mut fused = FusedAccess::new(ListAccess::new(vec![Value::Char('x'), Value::Unit], None));
    assert_eq!(fused.next_element(), Ok(Some(Value::Char('x'))));
    assert_eq!(fused.next_element(), Ok(Some(Value::Unit)));
    assert_eq!(fused.next_element(), Ok(None));
    assert!(!fused.is_live());
    assert_eq!(fused.next_element(), Ok(None));
}

#[test]
fn list_cursor_ends_with_its_fault() {
    let mut list = ListAccess::new(vec![Value::U8(1)], Some(Error::Malformed("cut".to_owned())));
    assert_eq!(list.next_element(), Ok(Some(Value::U8(1))));
    assert_eq!(list.next_element(), Err(Error::Malformed("cut".to_owned())));
}

#[test]
fn slice_cursor_keeps_the_order_of_the_entries() {
    let mut map = SliceAccess::new(
        vec![
            (text("first"), Value::U8(1)),
            (text("second"), Value::U8(2)),
            (text("third"), Value::U8(3)),
        ],
        None,
    );
    assert_eq!(map.next_key(), Ok(Some(text("first"))));
    assert_eq!(map.next_value(), Ok(Value::U8(1)));
    assert_eq!(map.next_key(), Ok(Some(text("second"))));
    assert_eq!(map.next_value(), Ok(Value::U8(2)));
    assert_eq!(map.next_key(), Ok(Some(text("third"))));
    assert_eq!(map.next_value(), Ok(Value::U8(3)));
    assert_eq!(map.next_key(), Ok(None));
}

#[test]
fn ignored_any_reads_to_the_end() {
    let mut map = SliceAccess::new(
        vec![(text("a"), Value::U8(1)), (text("b"), Value::U8(2))],
        None,
    );
    assert_eq!(IgnoredAny.visit_map(&mut map), Ok(()));
    assert_eq!(map.next_key(), Ok(None));
    let mut cut = SliceAccess::new(
        vec![(text("a"), Value::U8(1))],
        Some(Fault::AtKey(Error::Malformed("cut".to_owned()))),
    );
    assert_eq!(IgnoredAny.visit_map(&mut cut), Err(Error::Malformed("cut".to_owned())));
    let mut cut = SliceAccess::new(
        vec![(text("a"), Value::U8(1))],
        Some(Fault::AtValue(text("b"), Error::Malformed("bad value".to_owned()))),
    );
    assert_eq!(IgnoredAny.visit_map(&mut cut), Err(Error::Malformed("bad value".to_owned())));
}

#[test]
fn value_source_opens_a_record_only() {
    let record = ValueDeserializer::new(Value::Record(vec![(text("a"), Value::U8(1))]));
    let mut map = record.deserialize_map("a record".to_owned()).expect("not a record");
    assert_eq!(map.next_key(), Ok(Some(text("a"))));
    let scalar = ValueDeserializer::new(Value::Newtype(Box::new(Value::U8(1))));
    assert_eq!(
        scalar.deserialize_map("a record".to_owned()).err(),
        Some(Error::InvalidType { unexpected: Kind::Newtype, expected: "a record".to_owned() })
    );
    assert_eq!(ValueDeserializer::new(Value::Unit).deserialize_ignored_any(), Ok(()));
    assert_eq!(
        ValueDeserializer::broken(
            Vec::new(),
            Fault::AtValue(text("a"), Error::Malformed("bad value".to_owned()))
        )
        .deserialize_ignored_any(),
        Err(Error::Malformed("bad value".to_owned()))
    );
}

#[test]
fn enum_source_hands_its_access_to_the_enum_callback() {
    assert_eq!(EnumDeserializer::new("access").deserialize_any(), (Callback::VisitEnum, "access"));
    for request in EVERY_REQUEST {
        assert_eq!(
            EnumDeserializer::new("access").deserialize(request),
            (Callback::VisitEnum, "access")
        );
    }
}

#[test]
fn newtype_source_hands_its_source_to_the_newtype_callback() {
    assert_eq!(
        NewtypeDeserializer::new(7u8).deserialize_any(),
        (Callback::VisitNewtypeStruct, 7u8)
    );
    for request in EVERY_REQUEST {
        assert_eq!(
            NewtypeDeserializer::new(7u8).deserialize(request),
            (Callback::VisitNewtypeStruct, 7u8)
        );
    }
}

#[test]
fn some_source_hands_its_source_to_the_some_callback() {
    assert_eq!(SomeDeserializer::new(text("in")).deserialize_any(), (Callback::VisitSome, text("in")));
    for request in EVERY_REQUEST {
        assert_eq!(
            SomeDeserializer::new(text("in")).deserialize(request),
            (Callback::VisitSome, text("in"))
        );
    }
}

#[test]
fn byte_buf_source_hands_its_buffer_to_the_byte_buf_callback() {
    assert_eq!(
        ByteBufDeserializer::<Error>::new(vec![1, 2, 3]).deserialize_any(),
        (Callback::VisitByteBuf, vec![1u8, 2, 3])
    );
    for request in EVERY_REQUEST {
        assert_eq!(
            ByteBufDeserializer::<Error>::new(Vec::new()).deserialize(request),
            (Callback::VisitByteBuf, Vec::<u8>::new())
        );
    }
}

#[test]
fn every_shape_has_its_kind() {
    let shapes = [
        (Value::Bool(true), Kind::Bool),
        (Value::I8(-1), Kind::Integer),
        (Value::I16(-1), Kind::Integer),
        (Value::I32(-1), Kind::Integer),
        (Value::I64(-1), Kind::Integer),
        (Value::I128(-1), Kind::Integer),
        (Value::U8(1), Kind::Integer),
        (Value::U16(1), Kind::Integer),
        (Value::U32(1), Kind::Integer),
        (Value::U64(1), Kind::Integer),
        (Value::U128(1), Kind::Integer),
        (Value::F32(1.5f32.to_bits()), Kind::Float),
        (Value::F64(1.5f64.to_bits()), Kind::Float),
        (Value::Char('c'), Kind::Char),
        (text("s"), Kind::Str),
        (Value::Bytes(vec![0]), Kind::Bytes),
        (Value::Absent, Kind::Absent),
        (Value::Present(Box::new(Value::Unit)), Kind::Present),
        (Value::Unit, Kind::Unit),
        (Value::Newtype(Box::new(Value::Unit)), Kind::Newtype),
        (Value::List(Vec::new()), Kind::List),
        (Value::Record(Vec::new()), Kind::Record),
        (Value::Variant(Box::new(text("V")), Box::new(Value::Unit)), Kind::Variant),
    ];
    for (value, kind) in shapes {
        assert_eq!(value.kind(), kind);
    }
}
