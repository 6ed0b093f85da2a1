//! Decoding a record with one flattened field.
//!
//! [`FlattenDeserializer`] reads the nested record of an outer record from
//! the outer record's own source. Every key of the source is first offered to
//! a [`KeyCapture`], which stands for the named fields of the outer record.
//! A key that the capture claims has its value sent to the capture; every
//! other key goes to the nested record, in the order of the source.

use vstd::prelude::*;
use crate::private::access::{Deserializer, IgnoredAny, MapAccess, Visitor};
use crate::private::content::{Error, Fault, Kind, Value};
use crate::private::{FusedAccess, Request};

verus! {

/// The named fields of an outer record, as the destination of the keys that
/// belong to it.
///
/// A capture is what it is declared with, its `schema`, and what has been
/// sent to it, `stored`. The schema does not change while the capture is
/// filled. It holds the rules of the capture: which keys it takes (`claim`),
/// and which values it turns down (`refusal`).
pub trait KeyCapture: Sized {
    /// What the capture hands out for a key that it claims, to get it back
    /// together with the value.
    type Token;

    /// What a capture is declared with.
    type Schema;

    spec fn wf(&self) -> bool;

    spec fn schema(&self) -> Self::Schema;

    /// The token for `key`, if a capture of this schema claims that key.
    spec fn claim(schema: Self::Schema, key: Seq<u8>) -> Option<Self::Token>;

    /// The failure with which a capture of this schema turns `value` down
    /// when it is sent with `token`, if it does.
    spec fn refusal(schema: Self::Schema, token: Self::Token, value: Value) -> Option<Error>;

    /// What a capture of this schema says it expects, for messages.
    spec fn expected(schema: Self::Schema) -> Seq<char>;

    /// The values sent so far, each with its token.
    spec fn stored(&self) -> Seq<(Self::Token, Value)>;

    /// Offers a key. A token means that the capture claims the key, and that
    /// the value is to be sent with that token; otherwise the key is free to
    /// go elsewhere. Keys of records are text or bytes, so bytes are all that
    /// is offered. Offering changes nothing.
    fn try_send_key(&mut self, key: &[u8]) -> (token: Option<Self::Token>)
        requires
            old(self).wf(),
        ensures
            token == Self::claim(old(self).schema(), key@),
            final(self).wf(),
            final(self).schema() == old(self).schema(),
            final(self).stored() == old(self).stored(),
    ;

    /// Sends the value for a claimed key. The capture keeps it, or turns it
    /// down with a failure.
    fn send_value(&mut self, token: Self::Token, value: Value) -> (sent: Result<(), Error>)
        requires
            old(self).wf(),
            exists|key: Seq<u8>| Self::claim(old(self).schema(), key) == Some(token),
        ensures
            match Self::refusal(old(self).schema(), token, value) {
                Some(e) => sent == Err::<(), Error>(e),
                None => sent == Ok::<(), Error>(()) && final(self).wf() && final(self).schema()
                    == old(self).schema() && final(self).stored() == old(self).stored().push(
                    (token, value),
                ),
            },
    ;

    fn expecting(&self) -> (text: String)
        requires
            self.wf(),
        ensures
            text@ == Self::expected(self.schema()),
    ;
}

/// The token under which the capture takes the entry with this key, if it
/// claims it. Only a text or binary key can be claimed.
pub open spec fn claim_of<C: KeyCapture>(capture: &C, key: Value) -> Option<C::Token> {
    match key.key_bytes() {
        Some(bytes) => C::claim(capture.schema(), bytes),
        None => None,
    }
}

/// The entries that reach the nested record: those that the capture does not
/// claim, in source order, as far as the pass gets. The pass stops at the
/// first value that the capture turns down.
pub open spec fn forwarded<C: KeyCapture>(capture: &C, entries: Seq<(Value, Value)>) -> Seq<
    (Value, Value),
>
    decreases entries.len(),
{
    if entries.len() == 0 {
        Seq::empty()
    } else {
        match claim_of(capture, entries[0].0) {
            None => seq![entries[0]] + forwarded(capture, entries.drop_first()),
            Some(token) => if C::refusal(capture.schema(), token, entries[0].1) is Some {
                Seq::empty()
            } else {
                forwarded(capture, entries.drop_first())
            },
        }
    }
}

/// The values that reach the capture, each with its token: those of the
/// entries that the capture claims, in source order, as far as the pass gets.
pub open spec fn captured<C: KeyCapture>(capture: &C, entries: Seq<(Value, Value)>) -> Seq<
    (C::Token, Value),
>
    decreases entries.len(),
{
    if entries.len() == 0 {
        Seq::empty()
    } else {
        match claim_of(capture, entries[0].0) {
            None => captured(capture, entries.drop_first()),
            Some(token) => if C::refusal(capture.schema(), token, entries[0].1) is Some {
                Seq::empty()
            } else {
                seq![(token, entries[0].1)] + captured(capture, entries.drop_first())
            },
        }
    }
}

/// How the pass breaks off: with the failure of the first value that the
/// capture turns down, else as the source does. Where the source fails at
/// the value of a key that the capture claims, the pass fails as it reaches
/// for that value, with no key to hand out.
pub open spec fn failure<C: KeyCapture>(
    capture: &C,
    entries: Seq<(Value, Value)>,
    fault: Option<Fault>,
) -> Option<Fault>
    decreases entries.len(),
{
    if entries.len() == 0 {
        match fault {
            Some(Fault::AtValue(key, e)) if claim_of(capture, key) is Some => Some(Fault::AtKey(e)),
            _ => fault,
        }
    } else {
        match claim_of(capture, entries[0].0) {
            None => failure(capture, entries.drop_first(), fault),
            Some(token) => match C::refusal(capture.schema(), token, entries[0].1) {
                Some(e) => Some(Fault::AtKey(e)),
                None => failure(capture, entries.drop_first(), fault),
            },
        }
    }
}

/// What became of one key.
#[derive(Debug, PartialEq)]
pub enum FlattenKeySeedOutcome<T> {
    /// The capture claimed the key; the value is to be sent with the token.
    Accepted(T),
    /// The capture did not want the key. It is handed back as it was decoded.
    Rejected(Value),
}

/// The routing of one key: the key with the capture that gets the first say.
pub struct FlattenKeySeed<'a, C> {
    capture: &'a mut C,
}

impl<'a, C: KeyCapture> FlattenKeySeed<'a, C> {
    /// The capture that is offered the key.
    pub closed spec fn capture(&self) -> &mut C {
        self.capture
    }

    /// The routing of one key with `capture`.
    pub fn new(capture: &'a mut C) -> (seed: Self)
        ensures
            *seed.capture() == *old(capture),
            *final(capture) == *final(seed.capture()),
    {
        FlattenKeySeed { capture }
    }

    /// Routes `key` by its shape: a text or binary key is offered to the
    /// capture, a key of any other shape is not.
    pub fn deserialize(self, key: Value) -> (outcome: FlattenKeySeedOutcome<C::Token>)
        requires
            self.capture().wf(),
        ensures
            outcome == (match claim_of(self.capture(), key) {
                Some(token) => FlattenKeySeedOutcome::Accepted(token),
                None => FlattenKeySeedOutcome::Rejected(key),
            }),
            final(self.capture()).wf(),
            final(self.capture()).schema() == self.capture().schema(),
            final(self.capture()).stored() == self.capture().stored(),
    {
        match key {
            Value::Str(_) | Value::Bytes(_) => self.send_to_capture(key),
            Value::Bool(_) | Value::Char(_) => self.send_to_seed(key),
            Value::I8(_) | Value::I16(_) | Value::I32(_) | Value::I64(_) | Value::I128(_) => {
                self.send_to_seed(key)
            },
            Value::U8(_) | Value::U16(_) | Value::U32(_) | Value::U64(_) | Value::U128(_) => {
                self.send_to_seed(key)
            },
            Value::F32(_) | Value::F64(_) => self.send_to_seed(key),
            Value::Absent | Value::Present(_) | Value::Unit | Value::Newtype(_) => {
                self.send_to_seed(key)
            },
            Value::List(_) | Value::Record(_) | Value::Variant(_, _) => self.send_to_seed(key),
        }
    }

    /// What the routing expects a key to be, for messages.
    pub fn expecting(&self) -> (text: String)
        ensures
            text@ == "field identifier"@,
    {
        "field identifier".to_owned()
    }

    /// Hands the key on: the capture has no part in it.
    pub fn send_to_seed(self, key: Value) -> (outcome: FlattenKeySeedOutcome<C::Token>)
        ensures
            outcome == FlattenKeySeedOutcome::<C::Token>::Rejected(key),
            *final(self.capture()) == *self.capture(),
    {
        FlattenKeySeedOutcome::Rejected(key)
    }

    /// Offers the bytes of a text or binary key to the capture, and hands the
    /// key on if the capture does not claim it.
    pub fn send_to_capture(self, key: Value) -> (outcome: FlattenKeySeedOutcome<C::Token>)
        requires
            self.capture().wf(),
            key.key_bytes() is Some,
        ensures
            outcome == (match C::claim(self.capture().schema(), key.key_bytes()->0) {
                Some(token) => FlattenKeySeedOutcome::Accepted(token),
                None => FlattenKeySeedOutcome::Rejected(key),
            }),
            final(self.capture()).wf(),
            final(self.capture()).schema() == self.capture().schema(),
            final(self.capture()).stored() == self.capture().stored(),
    {
        let claimed = match key.as_key_bytes() {
            Some(bytes) => self.capture.try_send_key(bytes),
            None => None,
        };
        match claimed {
            Some(token) => FlattenKeySeedOutcome::Accepted(token),
            None => self.send_to_seed(key),
        }
    }
}

/// The sending of one value: the token of a claimed key with the capture
/// that issued it.
pub struct FlattenValueSeed<'a, C: KeyCapture> {
    token: C::Token,
    capture: &'a mut C,
}

impl<'a, C: KeyCapture> FlattenValueSeed<'a, C> {
    /// The token under which the value is sent.
    pub closed spec fn token(&self) -> C::Token {
        self.token
    }

    /// The capture that is sent the value.
    pub closed spec fn capture(&self) -> &mut C {
        self.capture
    }

    /// The sending of one value to `capture` under `token`.
    pub fn new(token: C::Token, capture: &'a mut C) -> (seed: Self)
        ensures
            seed.token() == token,
            *seed.capture() == *old(capture),
            *final(capture) == *final(seed.capture()),
    {
        FlattenValueSeed { token, capture }
    }

    /// Sends `value` to the capture under the token.
    pub fn deserialize(self, value: Value) -> (sent: Result<(), Error>)
        requires
            self.capture().wf(),
            exists|key: Seq<u8>| C::claim(self.capture().schema(), key) == Some(self.token()),
        ensures
            match C::refusal(self.capture().schema(), self.token(), value) {
                Some(e) => sent == Err::<(), Error>(e),
                None => sent == Ok::<(), Error>(()) && final(self.capture()).wf()
                    && final(self.capture()).schema() == self.capture().schema()
                    && final(self.capture()).stored() == self.capture().stored().push(
                    (self.token(), value),
                ),
            },
    {
        self.capture.send_value(self.token, value)
    }
}

/// What a pass over one record is bound to do, fixed when the pass starts.
pub struct Plan<C: KeyCapture> {
    /// The capture as it was at the start: its schema is that of the pass.
    pub start: C,
    /// Everything that the capture will hold when the pass is through.
    pub total: Seq<(C::Token, Value)>,
    /// How the pass will break off, if it will.
    pub failure: Option<Fault>,
}

/// The cursor that the nested record reads from. It shows the entries that
/// the capture does not claim; on the way to the next such entry it sends
/// the values of the claimed entries to the capture.
pub struct FlattenMapAccess<M: MapAccess, C: KeyCapture> {
    map: FusedAccess<M>,
    capture: C,
    plan: Ghost<Plan<C>>,
}

impl<M: MapAccess, C: KeyCapture> FlattenMapAccess<M, C> {
    /// The capture as it is filled so far.
    pub closed spec fn capture(&self) -> C {
        self.capture
    }

    /// The cursor over the source.
    pub closed spec fn source(&self) -> FusedAccess<M> {
        self.map
    }

    /// A cursor at the start of a pass over `map` that fills `capture`.
    pub fn new(map: M, capture: C) -> (access: Self)
        requires
            map.wf(),
            map.pending() is None,
            capture.wf(),
        ensures
            access.wf(),
            access.pending() is None,
            access.capture() == capture,
            access.source()@ == Some(map),
            access.origin() == (Plan {
                start: capture,
                total: capture.stored() + captured(&capture, map.entries()),
                failure: failure(&capture, map.entries(), map.fault()),
            }),
    {
        let ghost plan = Plan {
            start: capture,
            total: capture.stored() + captured(&capture, map.entries()),
            failure: failure(&capture, map.entries(), map.fault()),
        };
        FlattenMapAccess { map: FusedAccess::new(map), capture, plan: Ghost(plan) }
    }

    /// Ends the pass and gives the capture back.
    pub fn into_capture(self) -> (capture: C)
        ensures
            capture == self.capture(),
    {
        self.capture
    }
}

impl<M: MapAccess, C: KeyCapture> MapAccess for FlattenMapAccess<M, C> {
    type Origin = Plan<C>;

    /// The capture keeps the schema it started with, and what it holds and
    /// what the rest of the source has for it make up the total of the plan.
    open spec fn wf(&self) -> bool {
        &&& self.source().wf()
        &&& self.capture().wf()
        &&& self.capture().schema() == self.origin().start.schema()
        &&& self.capture().stored() + captured(&self.origin().start, self.source().entries())
            == self.origin().total
        &&& failure(&self.origin().start, self.source().entries(), self.source().fault())
            == self.origin().failure
    }

    closed spec fn origin(&self) -> Plan<C> {
        self.plan@
    }

    /// The entries of the source that the capture does not claim.
    open spec fn entries(&self) -> Seq<(Value, Value)> {
        forwarded(&self.origin().start, self.source().entries())
    }

    open spec fn pending(&self) -> Option<Result<Value, Error>> {
        self.source().pending()
    }

    /// How the pass breaks off.
    open spec fn fault(&self) -> Option<Fault> {
        failure(&self.origin().start, self.source().entries(), self.source().fault())
    }

    open spec fn finished(&self) -> bool {
        self.source().finished()
    }

    /// Hands out the next key that the capture does not claim. Each key of
    /// the source is offered to the capture first; for a key that it claims,
    /// the value is sent to it and the search goes on.
    fn next_key(&mut self) -> (key: Result<Option<Value>, Error>) {
        loop
            invariant
                self.wf(),
                self.pending() is None,
                self.origin() == old(self).origin(),
                self.entries() == old(self).entries(),
                self.fault() == old(self).fault(),
            decreases self.source().entries().len(),
        {
            let ghost entries = self.map.entries();
            let ghost stored = self.capture.stored();
            match self.map.next_key() {
                Err(e) => {
                    return Err(e);
                },
                Ok(None) => {
                    return Ok(None);
                },
                Ok(Some(key)) => {
                    let ghost bytes = key.key_bytes();
                    let seed = FlattenKeySeed { capture: &mut self.capture };
                    match seed.deserialize(key) {
                        FlattenKeySeedOutcome::Rejected(key) => {
                            return Ok(Some(key));
                        },
                        FlattenKeySeedOutcome::Accepted(token) => {
                            let value = match self.map.next_value() {
                                Ok(value) => value,
                                Err(e) => {
                                    return Err(e);
                                },
                            };
                            assert(C::claim(self.capture.schema(), bytes->0) == Some(token));
                            let seed = FlattenValueSeed { token, capture: &mut self.capture };
                            match seed.deserialize(value) {
                                Err(e) => {
                                    return Err(e);
                                },
                                Ok(()) => {
                                    assert(stored.push((token, value)) + captured(
                                        &self.plan@.start,
                                        entries.drop_first(),
                                    ) =~= stored + captured(&self.plan@.start, entries));
                                },
                            }
                        },
                    }
                },
            }
        }
    }

    fn next_value(&mut self) -> (value: Result<Value, Error>) {
        self.map.next_value()
    }
}

/// Whether `result` is what a pass over a record makes of it: a record that
/// holds `entries` and then breaks off with `fault`, or ends where there is
/// none, read by `visitor` as the nested record while `capture` takes the
/// outer fields.
///
/// The visitor is shown the entries that the capture does not claim. What
/// it leaves unread is read to the end afterwards, so that the capture gets
/// every value that is its own. The pass succeeds if the visitor does and
/// nothing fails up to the end of the record; the capture then holds, after
/// what it held before, exactly the values of the claimed entries, in source
/// order. A failure of the visitor is the failure of the pass; else the pass
/// fails as the record breaks off.
pub open spec fn flattened<V: Visitor, C: KeyCapture>(
    visitor: &V,
    capture: &C,
    entries: Seq<(Value, Value)>,
    fault: Option<Fault>,
    result: Result<(V::Value, C), Error>,
) -> bool {
    let shown = forwarded(capture, entries);
    let end = failure(capture, entries, fault);
    match result {
        Ok((value, filled)) => {
            &&& visitor.yields(shown, end, Ok(value))
            &&& end is None
            &&& filled.wf()
            &&& filled.schema() == capture.schema()
            &&& filled.stored() == capture.stored() + captured(capture, entries)
        },
        Err(e) => {
            ||| visitor.yields(shown, end, Err(e))
            ||| end is Some && end->0.error() == e && exists|value: V::Value| #[trigger]
                visitor.yields(shown, end, Ok(value))
        },
    }
}

/// The visitor of the outer record's source: it hands the record on to the
/// visitor of the nested record, with the capture in between.
pub struct FlattenVisitor<V, C> {
    visitor: V,
    capture: C,
}

impl<V: Visitor, C: KeyCapture> FlattenVisitor<V, C> {
    /// The visitor of the nested record.
    pub closed spec fn visitor(&self) -> V {
        self.visitor
    }

    /// The capture for the outer record's own fields.
    pub closed spec fn capture(&self) -> C {
        self.capture
    }

    /// The visitor that runs the pass for `visitor` and `capture`.
    pub fn new(visitor: V, capture: C) -> (flatten: Self)
        ensures
            flatten.visitor() == visitor,
            flatten.capture() == capture,
    {
        FlattenVisitor { visitor, capture }
    }

    /// What is expected of the source is what the outer record expects.
    pub fn expecting(&self) -> (text: String)
        requires
            self.capture().wf(),
        ensures
            text@ == C::expected(self.capture().schema()),
    {
        self.capture.expecting()
    }

    /// Runs the pass over the record under `map`: the nested record's
    /// visitor reads what it wants of the unclaimed entries, then the rest
    /// of the record is read to its end.
    pub fn visit_map<A: MapAccess>(self, map: A) -> (result: Result<(V::Value, C), Error>)
        requires
            self.visitor().wf(),
            self.capture().wf(),
            map.wf(),
            map.pending() is None,
        ensures
            flattened(&self.visitor(), &self.capture(), map.entries(), map.fault(), result),
    {
        let mut map = FlattenMapAccess::new(map, self.capture);
        let value = match self.visitor.visit_map(&mut map) {
            Ok(value) => value,
            Err(e) => {
                return Err(e);
            },
        };
        match IgnoredAny.visit_map(&mut map) {
            Ok(()) => {},
            Err(e) => {
                return Err(e);
            },
        }
        Ok((value, map.into_capture()))
    }
}

/// Whether `result` is what decoding the nested record from `source` gives,
/// with `capture` for the outer fields and `visitor` for the nested record.
/// A source that holds a record is passed over as [`flattened`] says. A source
/// of any other shape fails with `InvalidType`, which names the shape found
/// and what the capture expects.
pub open spec fn decoded<D: Deserializer, V: Visitor, C: KeyCapture>(
    source: &D,
    visitor: &V,
    capture: &C,
    result: Result<(V::Value, C), Error>,
) -> bool {
    if source.kind() == Kind::Record {
        flattened(visitor, capture, source.entries(), source.fault(), result)
    } else {
        result matches Err(Error::InvalidType { unexpected, expected }) && unexpected
            == source.kind() && expected@ == C::expected(capture.schema())
    }
}

/// The source of the nested record: the outer record's source, with the
/// capture that takes the outer record's own fields out of it.
pub struct FlattenDeserializer<D, C> {
    deserializer: D,
    capture: C,
}

impl<D: Deserializer, C: KeyCapture> FlattenDeserializer<D, C> {
    /// The source of the outer record.
    pub closed spec fn deserializer(&self) -> D {
        self.deserializer
    }

    /// The capture for the outer record's own fields.
    pub closed spec fn capture(&self) -> C {
        self.capture
    }

    /// The source of the nested record that is read from `deserializer`
    /// while `capture` takes what is its own.
    pub fn new(deserializer: D, capture: C) -> (flatten: Self)
        ensures
            flatten.deserializer() == deserializer,
            flatten.capture() == capture,
    {
        Self { deserializer, capture }
    }

    /// Decodes the nested record: the source is read as a record, whatever
    /// it holds.
    pub fn deserialize_any<V: Visitor>(self, visitor: V) -> (result: Result<(V::Value, C), Error>)
        requires
            visitor.wf(),
            self.capture().wf(),
        ensures
            decoded(&self.deserializer(), &visitor, &self.capture(), result),
    {
        let flatten = FlattenVisitor::new(visitor, self.capture);
        let expected = flatten.expecting();
        match self.deserializer.deserialize_map(expected) {
            Ok(map) => flatten.visit_map(map),
            Err(e) => Err(e),
        }
    }

    /// Decodes as asked. A request to pass the value over is handed to the
    /// source as it is: nothing is decoded, and the visitor has no part in
    /// it. Every other request is answered as the request for `Any` is, with
    /// a pass over the record.
    pub fn deserialize<V: Visitor>(self, request: Request, visitor: V) -> (result: Result<
        (Option<V::Value>, C),
        Error,
    >)
        requires
            visitor.wf(),
            self.capture().wf(),
        ensures
            request == Request::IgnoredAny ==> result == (match self.deserializer().fault() {
                Some(fault) if self.deserializer().kind() == Kind::Record => Err::<
                    (Option<V::Value>, C),
                    Error,
                >(fault.error()),
                _ => Ok::<(Option<V::Value>, C), Error>((None, self.capture())),
            }),
            request != Request::IgnoredAny ==> (match result {
                Ok((Some(value), capture)) => decoded(
                    &self.deserializer(),
                    &visitor,
                    &self.capture(),
                    Ok((value, capture)),
                ),
                Ok((None, _)) => false,
                Err(e) => decoded(&self.deserializer(), &visitor, &self.capture(), Err(e)),
            }),
    {
        match request {
            Request::IgnoredAny => match self.deserialize_ignored_any() {
                Ok(capture) => Ok((None, capture)),
                Err(e) => Err(e),
            },
            _ => match self.deserialize_any(visitor) {
                Ok((value, capture)) => Ok((Some(value), capture)),
                Err(e) => Err(e),
            },
        }
    }

    /// Reads the source through without decoding it. No key is routed and
    /// the capture comes back as it was.
    pub fn deserialize_ignored_any(self) -> (result: Result<C, Error>)
        ensures
            result == (match self.deserializer().fault() {
                Some(fault) if self.deserializer().kind() == Kind::Record => Err::<C, Error>(
                    fault.error(),
                ),
                _ => Ok::<C, Error>(self.capture()),
            }),
    {
        match self.deserializer.deserialize_ignored_any() {
            Ok(()) => Ok(self.capture),
            Err(e) => Err(e),
        }
    }
}

} // verus!
