//! The data model: what a source can hold, and how a decode can fail.

use vstd::prelude::*;

verus! {

/// The shape of a value, without its contents.
#[derive(Clone, Copy, Debug, PartialEq, Eq, Structural)]
pub enum Kind {
    Bool,
    Integer,
    Float,
    Char,
    Str,
    Bytes,
    Absent,
    Present,
    Unit,
    Newtype,
    List,
    Record,
    Variant,
}

/// A decoded value in the shape in which the source presented it. Keys and
/// values of a record are both of this type: a key may have any shape.
///
/// Floats are held by their IEEE-754 bit pattern.
#[derive(Debug, PartialEq)]
pub enum Value {
    Bool(bool),
    I8(i8),
    I16(i16),
    I32(i32),
    I64(i64),
    I128(i128),
    U8(u8),
    U16(u16),
    U32(u32),
    U64(u64),
    U128(u128),
    F32(u32),
    F64(u64),
    Char(char),
    Str(String),
    Bytes(Vec<u8>),
    Absent,
    Present(Box<Value>),
    Unit,
    Newtype(Box<Value>),
    List(Vec<Value>),
    Record(Vec<(Value, Value)>),
    Variant(Box<Value>, Box<Value>),
}

/// Why a decode stopped. A failure is final for the decode that met it.
#[derive(Debug, PartialEq)]
pub enum Error {
    /// The source reported invalid data; the text is the source's own.
    Malformed(String),
    /// A value of one shape stood where another was expected.
    InvalidType { unexpected: Kind, expected: String },
    /// A value was sent to a field that does not take its shape.
    Mismatch { field: String, found: Kind, wanted: Kind },
    /// A field without a default was not in the input.
    MissingField(String),
}

/// How a source breaks off in the middle of a record.
#[derive(Debug, PartialEq)]
pub enum Fault {
    /// The source fails as it is asked for the next key.
    AtKey(Error),
    /// The source hands out one more key, and fails as it is asked for the
    /// value that belongs to it.
    AtValue(Value, Error),
}

impl Fault {
    /// The failure that the source reports.
    pub open spec fn error(self) -> Error {
        match self {
            Fault::AtKey(e) => e,
            Fault::AtValue(_, e) => e,
        }
    }
}

impl Value {
    /// The shape of this value.
    pub open spec fn shape(self) -> Kind {
        match self {
            Value::Bool(_) => Kind::Bool,
            Value::I8(_) | Value::I16(_) | Value::I32(_) | Value::I64(_) | Value::I128(_) => Kind::Integer,
            Value::U8(_) | Value::U16(_) | Value::U32(_) | Value::U64(_) | Value::U128(_) => Kind::Integer,
            Value::F32(_) | Value::F64(_) => Kind::Float,
            Value::Char(_) => Kind::Char,
            Value::Str(_) => Kind::Str,
            Value::Bytes(_) => Kind::Bytes,
            Value::Absent => Kind::Absent,
            Value::Present(_) => Kind::Present,
            Value::Unit => Kind::Unit,
            Value::Newtype(_) => Kind::Newtype,
            Value::List(_) => Kind::List,
            Value::Record(_) => Kind::Record,
            Value::Variant(_, _) => Kind::Variant,
        }
    }

    /// The bytes by which a key of this shape is matched against field
    /// names: the UTF-8 encoding of a text key, the contents of a binary key.
    /// A key of any other shape has none.
    pub open spec fn key_bytes(self) -> Option<Seq<u8>> {
        match self {
            Value::Str(s) => Some(vstd::utf8::encode_utf8(s@)),
            Value::Bytes(b) => Some(b@),
            _ => None,
        }
    }

    /// The shape of this value.
    pub fn kind(&self) -> (k: Kind)
        ensures
            k == self.shape(),
    {
        match self {
            Value::Bool(_) => Kind::Bool,
            Value::I8(_) | Value::I16(_) | Value::I32(_) | Value::I64(_) | Value::I128(_) => Kind::Integer,
            Value::U8(_) | Value::U16(_) | Value::U32(_) | Value::U64(_) | Value::U128(_) => Kind::Integer,
            Value::F32(_) | Value::F64(_) => Kind::Float,
            Value::Char(_) => Kind::Char,
            Value::Str(_) => Kind::Str,
            Value::Bytes(_) => Kind::Bytes,
            Value::Absent => Kind::Absent,
            Value::Present(_) => Kind::Present,
            Value::Unit => Kind::Unit,
            Value::Newtype(_) => Kind::Newtype,
            Value::List(_) => Kind::List,
            Value::Record(_) => Kind::Record,
            Value::Variant(_, _) => Kind::Variant,
        }
    }

    /// The bytes of a text or binary key, borrowed from it.
    pub fn as_key_bytes(&self) -> (bytes: Option<&[u8]>)
        ensures
            match bytes {
                Some(b) => self.key_bytes() == Some(b@),
                None => self.key_bytes() is None,
            },
    {
        match self {
            Value::Str(s) => Some(s.as_str().as_bytes()),
            Value::Bytes(b) => Some(b.as_slice()),
            _ => None,
        }
    }
}

} // verus!
