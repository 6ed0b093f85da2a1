//! The parts of a bufferless decode: the cursor wrapper that remembers the
//! end of a record, and the adapters that hand an already decoded value on
//! to a consumer.

use std::marker::PhantomData;
use vstd::prelude::*;
use crate::private::access::{awaited, upcoming, MapAccess, SeqAccess};
use crate::private::content::{Error, Fault, Value};

pub mod access;
pub mod capture;
pub mod content;
pub mod flatten;
pub mod laws;

verus! {

/// A cursor that remembers that it has reported the end.
///
/// While it is live it holds the wrapped cursor. Once an advance has
/// returned "no more items" the wrapped cursor is let go, and every later
/// advance answers "no more items" without asking it again.
pub struct FusedAccess<A> {
    access: Option<A>,
}

impl<A> View for FusedAccess<A> {
    type V = Option<A>;

    /// The wrapped cursor while the wrapper is live, `None` once it has
    /// reported the end.
    closed spec fn view(&self) -> Option<A> {
        self.access
    }
}

impl<A> FusedAccess<A> {
    /// A live wrapper around `access`.
    pub fn new(access: A) -> (fused: Self)
        ensures
            fused@ == Some(access),
    {
        Self { access: Some(access) }
    }

    /// Whether the wrapper still holds its cursor.
    pub fn is_live(&self) -> (live: bool)
        ensures
            live == (self@ is Some),
    {
        self.access.is_some()
    }

    /// Runs `op` on the wrapped cursor, for what is no advance: the value
    /// that goes with a key already handed out. The wrapper stays live
    /// whatever `op` returns. On a wrapper that is not live there is nothing
    /// to run `op` on.
    pub fn next_value_with<T>(&mut self, op: impl FnOnce(&mut A) -> T) -> (value: T)
        requires
            old(self)@ is Some,
            forall|access: &mut A| *access == old(self)@->0 ==> call_requires(op, (access,)),
        ensures
            exists|access: &mut A|
                *access == old(self)@->0 && #[trigger] call_ensures(op, (access,), value)
                    && final(self)@ == Some(*final(access)),
    {
        match self.access {
            Some(ref mut access) => op(access),
            None => vstd::pervasive::unreached(),
        }
    }

    /// One advance. On a live wrapper `op` is run on the wrapped cursor and
    /// its answer is handed on; if the answer is "no more items" the wrapper
    /// stops being live. On a wrapper that is not live `op` is not run.
    pub fn next_item<T, E>(&mut self, op: impl FnOnce(&mut A) -> Result<Option<T>, E>) -> (item:
        Result<Option<T>, E>)
        requires
            old(self)@ is Some ==> forall|access: &mut A|
                *access == old(self)@->0 ==> call_requires(op, (access,)),
        ensures
            old(self)@ is None ==> item == Ok::<Option<T>, E>(None) && final(self)@ is None,
            old(self)@ is Some ==> exists|access: &mut A|
                *access == old(self)@->0 && #[trigger] call_ensures(op, (access,), item)
                    && final(self)@ == (if item == Ok::<Option<T>, E>(None) {
                    None
                } else {
                    Some(*final(access))
                }),
    {
        match self.access {
            None => Ok(None),
            Some(ref mut access) => {
                match op(access) {
                    Ok(None) => {
                        self.access = None;
                        Ok(None)
                    },
                    Ok(Some(item)) => Ok(Some(item)),
                    Err(e) => Err(e),
                }
            },
        }
    }
}

/// One request for a key, as the operation that a fused wrapper runs on the
/// cursor it holds.
fn poll_key<A: MapAccess>(access: &mut A) -> (key: Result<Option<Value>, Error>)
    requires
        old(access).wf(),
        old(access).pending() is None,
    ensures
        key == upcoming(old(access).entries(), old(access).fault()),
        key is Ok ==> final(access).wf() && final(access).fault() == old(access).fault(),
        key matches Ok(Some(_)) ==> final(access).pending() == Some(
            awaited(old(access).entries(), old(access).fault()),
        ) && final(access).entries() == (if old(access).entries().len() > 0 {
            old(access).entries().drop_first()
        } else {
            old(access).entries()
        }),
{
    access.next_key()
}

/// One request for a value, as the operation that a fused wrapper runs on
/// the cursor it holds.
fn take_value<A: MapAccess>(access: &mut A) -> (value: Result<Value, Error>)
    requires
        old(access).wf(),
        old(access).pending() is Some,
    ensures
        Some(value) == old(access).pending(),
        value is Ok ==> final(access).wf() && final(access).entries() == old(access).entries()
            && final(access).fault() == old(access).fault() && final(access).pending() is None,
{
    access.next_value()
}

impl<A: MapAccess> MapAccess for FusedAccess<A> {
    type Origin = ();

    open spec fn wf(&self) -> bool {
        self@ matches Some(access) ==> access.wf()
    }

    open spec fn origin(&self) -> () {
        ()
    }

    open spec fn entries(&self) -> Seq<(Value, Value)> {
        match self@ {
            Some(access) => access.entries(),
            None => Seq::empty(),
        }
    }

    open spec fn pending(&self) -> Option<Result<Value, Error>> {
        match self@ {
            Some(access) => access.pending(),
            None => None,
        }
    }

    open spec fn fault(&self) -> Option<Fault> {
        match self@ {
            Some(access) => access.fault(),
            None => None,
        }
    }

    open spec fn finished(&self) -> bool {
        self@ is None
    }

    fn next_key(&mut self) -> (key: Result<Option<Value>, Error>) {
        self.next_item(poll_key::<A>)
    }

    fn next_value(&mut self) -> (value: Result<Value, Error>) {
        self.next_value_with(take_value::<A>)
    }
}

/// One request for an element, as the operation that a fused wrapper runs
/// on the cursor it holds.
fn poll_element<A: SeqAccess>(access: &mut A) -> (element: Result<Option<Value>, Error>)
    requires
        old(access).wf(),
    ensures
        element == (if old(access).elements().len() > 0 {
            Ok::<Option<Value>, Error>(Some(old(access).elements()[0]))
        } else {
            match old(access).fault() {
                Some(e) => Err::<Option<Value>, Error>(e),
                None => Ok::<Option<Value>, Error>(None),
            }
        }),
        element is Ok ==> final(access).wf() && final(access).fault() == old(access).fault(),
        element matches Ok(Some(_)) ==> final(access).elements() == old(
            access,
        ).elements().drop_first(),
{
    access.next_element()
}

impl<A: SeqAccess> SeqAccess for FusedAccess<A> {
    open spec fn wf(&self) -> bool {
        self@ matches Some(access) ==> access.wf()
    }

    open spec fn elements(&self) -> Seq<Value> {
        match self@ {
            Some(access) => access.elements(),
            None => Seq::empty(),
        }
    }

    open spec fn fault(&self) -> Option<Error> {
        match self@ {
            Some(access) => access.fault(),
            None => None,
        }
    }

    fn next_element(&mut self) -> (element: Result<Option<Value>, Error>)
        ensures
            element matches Ok(None) ==> final(self)@ is None,
    {
        self.next_item(poll_element::<A>)
    }
}

/// What the request for a whole entry returns, on a cursor that has
/// `entries` still to come and then breaks off with `fault`: the first
/// entry; behind the last entry the failure of the fault; without a fault the
/// end of the record.
pub open spec fn upcoming_entry(entries: Seq<(Value, Value)>, fault: Option<Fault>) -> Result<
    Option<(Value, Value)>,
    Error,
> {
    if entries.len() > 0 {
        Ok(Some(entries[0]))
    } else {
        match fault {
            Some(fault) => Err(fault.error()),
            None => Ok(None),
        }
    }
}

/// One request for a whole entry, as the operation that a fused wrapper runs
/// on the cursor it holds.
fn poll_entry<A: MapAccess>(access: &mut A) -> (entry: Result<Option<(Value, Value)>, Error>)
    requires
        old(access).wf(),
        old(access).pending() is None,
    ensures
        entry == upcoming_entry(old(access).entries(), old(access).fault()),
        entry is Ok ==> final(access).wf() && final(access).fault() == old(access).fault()
            && final(access).pending() is None,
        entry matches Ok(Some(_)) ==> final(access).entries() == old(access).entries().drop_first(),
{
    match access.next_key() {
        Ok(Some(key)) => match access.next_value() {
            Ok(value) => Ok(Some((key, value))),
            Err(e) => Err(e),
        },
        Ok(None) => Ok(None),
        Err(e) => Err(e),
    }
}

impl<A: MapAccess> FusedAccess<A> {
    /// Hands out the next entry whole, key and value, or `None` at the end
    /// of the record.
    pub fn next_entry(&mut self) -> (entry: Result<Option<(Value, Value)>, Error>)
        requires
            old(self).wf(),
            old(self).pending() is None,
        ensures
            entry == upcoming_entry(old(self).entries(), old(self).fault()),
            entry is Ok ==> final(self).wf() && final(self).fault() == old(self).fault()
                && final(self).pending() is None,
            entry matches Ok(Some(_)) ==> final(self).entries() == old(self).entries().drop_first(),
            entry matches Ok(None) ==> final(self).finished(),
    {
        self.next_item(poll_entry::<A>)
    }
}

/// The ways in which a consumer can ask a source for a value: for whatever
/// the source holds (`Any`), or for one shape by name.
#[derive(Clone, Copy, Debug, PartialEq, Eq, Structural)]
pub enum Request {
    Any,
    Bool,
    I8,
    I16,
    I32,
    I64,
    I128,
    U8,
    U16,
    U32,
    U64,
    U128,
    F32,
    F64,
    Char,
    Str,
    OwnedStr,
    Bytes,
    ByteBuf,
    Optional,
    Unit,
    UnitStruct,
    NewtypeStruct,
    Sequence,
    Tuple,
    TupleStruct,
    Record,
    Struct,
    Enum,
    Identifier,
    IgnoredAny,
}

/// The callbacks of a consumer that the forwarding sources hand their
/// value to.
#[derive(Clone, Copy, Debug, PartialEq, Eq, Structural)]
pub enum Callback {
    VisitEnum,
    VisitNewtypeStruct,
    VisitSome,
    VisitByteBuf,
}

/// The access to a tagged variant, as a source: it hands the access to the
/// consumer's callback for enums.
pub struct EnumDeserializer<T> {
    value: T,
}

impl<T> View for EnumDeserializer<T> {
    type V = T;

    closed spec fn view(&self) -> T {
        self.value
    }
}

impl<T> EnumDeserializer<T> {
    /// The source that hands on `value`.
    pub fn new(value: T) -> (source: Self)
        ensures
            source@ == value,
    {
        Self { value }
    }

    /// The callback to call, and what to call it with. The source is used
    /// up: it hands its value on once.
    pub fn deserialize_any(self) -> (visit: (Callback, T))
        ensures
            visit == (Callback::VisitEnum, self@),
    {
        (Callback::VisitEnum, self.value)
    }

    /// A request for any one shape is answered as the request for `Any`
    /// is.
    pub fn deserialize(self, request: Request) -> (visit: (Callback, T))
        ensures
            visit == (Callback::VisitEnum, self@),
    {
        match request {
            _ => self.deserialize_any(),
        }
    }
}

/// The source behind a newtype wrapper, as a source: it hands the inner
/// source to the consumer's callback for newtype wrappers.
pub struct NewtypeDeserializer<T> {
    deserializer: T,
}

impl<T> View for NewtypeDeserializer<T> {
    type V = T;

    closed spec fn view(&self) -> T {
        self.deserializer
    }
}

impl<T> NewtypeDeserializer<T> {
    /// The source that hands on `deserializer`.
    pub fn new(deserializer: T) -> (source: Self)
        ensures
            source@ == deserializer,
    {
        Self { deserializer }
    }

    /// The callback to call, and what to call it with. The source is used
    /// up: it hands its value on once.
    pub fn deserialize_any(self) -> (visit: (Callback, T))
        ensures
            visit == (Callback::VisitNewtypeStruct, self@),
    {
        (Callback::VisitNewtypeStruct, self.deserializer)
    }

    /// A request for any one shape is answered as the request for `Any`
    /// is.
    pub fn deserialize(self, request: Request) -> (visit: (Callback, T))
        ensures
            visit == (Callback::VisitNewtypeStruct, self@),
    {
        match request {
            _ => self.deserialize_any(),
        }
    }
}

/// The source of a value that is present, as a source: it hands the inner
/// source to the consumer's callback for present optional values.
pub struct SomeDeserializer<T> {
    deserializer: T,
}

impl<T> View for SomeDeserializer<T> {
    type V = T;

    closed spec fn view(&self) -> T {
        self.deserializer
    }
}

impl<T> SomeDeserializer<T> {
    /// The source that hands on `deserializer`.
    pub fn new(deserializer: T) -> (source: Self)
        ensures
            source@ == deserializer,
    {
        Self { deserializer }
    }

    /// The callback to call, and what to call it with. The source is used
    /// up: it hands its value on once.
    pub fn deserialize_any(self) -> (visit: (Callback, T))
        ensures
            visit == (Callback::VisitSome, self@),
    {
        (Callback::VisitSome, self.deserializer)
    }

    /// A request for any one shape is answered as the request for `Any`
    /// is.
    pub fn deserialize(self, request: Request) -> (visit: (Callback, T))
        ensures
            visit == (Callback::VisitSome, self@),
    {
        match request {
            _ => self.deserialize_any(),
        }
    }
}

/// An owned byte buffer, as a source: it hands the buffer to the consumer's
/// callback for owned bytes. `E` is the kind of failure of the decode that
/// the buffer is part of; the source itself never fails.
pub struct ByteBufDeserializer<E> {
    buf: Vec<u8>,
    phantom: PhantomData<E>,
}

impl<E> View for ByteBufDeserializer<E> {
    type V = Seq<u8>;

    closed spec fn view(&self) -> Seq<u8> {
        self.buf@
    }
}

impl<E> ByteBufDeserializer<E> {
    /// The source that hands on `buf`.
    pub fn new(buf: Vec<u8>) -> (source: Self)
        ensures
            source@ == buf@,
    {
        Self { buf, phantom: PhantomData }
    }

    /// The callback to call, and what to call it with. The source is used
    /// up: it hands its buffer on once.
    pub fn deserialize_any(self) -> (visit: (Callback, Vec<u8>))
        ensures
            visit.0 == Callback::VisitByteBuf,
            visit.1@ == self@,
    {
        (Callback::VisitByteBuf, self.buf)
    }

    /// A request for any one shape is answered as the request for `Any`
    /// is.
    pub fn deserialize(self, request: Request) -> (visit: (Callback, Vec<u8>))
        ensures
            visit.0 == Callback::VisitByteBuf,
            visit.1@ == self@,
    {
        match request {
            _ => self.deserialize_any(),
        }
    }
}

} // verus!
