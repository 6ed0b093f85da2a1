//! A record given by a table of named fields: as the capture of an outer
//! record, and as the visitor of a record of its own.

use vstd::prelude::*;
use crate::private::access::{MapAccess, Visitor};
use crate::private::content::{Error, Fault, Kind, Value};
use crate::private::flatten::{captured, failure, KeyCapture};

verus! {

/// One declared field of a record.
#[derive(Debug, PartialEq)]
pub struct Field {
    /// The key under which the field stands in the input.
    pub name: String,
    /// The shape that the field takes, where it takes only one.
    pub kind: Option<Kind>,
    /// The value of the field where the input has none.
    pub default: Option<Value>,
}

impl Field {
    /// The bytes that a key must have to be this field's.
    pub open spec fn key(&self) -> Seq<u8> {
        vstd::utf8::encode_utf8(self.name@)
    }

    /// A field called `name` that takes a value of any shape and has no
    /// default.
    pub fn new(name: &str) -> (field: Field)
        ensures
            field.name@ == name@,
            field.kind is None,
            field.default is None,
    {
        Field { name: name.to_owned(), kind: None, default: None }
    }

    /// The same field, taking values of the shape `kind` only.
    pub fn of_kind(self, kind: Kind) -> (field: Field)
        ensures
            field == (Field { kind: Some(kind), ..self }),
    {
        Field { name: self.name, kind: Some(kind), default: self.default }
    }

    /// The same field, with `value` for a record that has none for it.
    pub fn or(self, value: Value) -> (field: Field)
        ensures
            field == (Field { default: Some(value), ..self }),
    {
        Field { name: self.name, kind: self.kind, default: Some(value) }
    }
}

/// The first field with the key `key`, by its place in `fields`.
pub open spec fn position(fields: Seq<Field>, key: Seq<u8>) -> Option<usize>
    decreases fields.len(),
{
    if fields.len() == 0 {
        None
    } else {
        match position(fields.drop_last(), key) {
            Some(i) => Some(i),
            None => if fields.last().key() == key {
                Some((fields.len() - 1) as usize)
            } else {
                None
            },
        }
    }
}

/// The value sent last with `token`, if any was.
pub open spec fn latest(log: Seq<(usize, Value)>, token: usize) -> Option<Value>
    decreases log.len(),
{
    if log.len() == 0 {
        None
    } else if log.last().0 == token {
        Some(log.last().1)
    } else {
        latest(log.drop_last(), token)
    }
}

/// What a field comes to at the end of a pass: the value that the input had
/// for it; without one its default; without either a failure by its name.
pub open spec fn resolved(field: Field, slot: Option<Value>) -> Result<Value, Error> {
    match slot {
        Some(value) => Ok(value),
        None => match field.default {
            Some(value) => Ok(value),
            None => Err(Error::MissingField(field.name)),
        },
    }
}

/// Whether `result` is what the fields come to after the values in `log`
/// were sent: all their values in the order of declaration, or the failure
/// of the first field that has neither a value nor a default.
pub open spec fn settled(
    fields: Seq<Field>,
    log: Seq<(usize, Value)>,
    result: Result<Vec<Value>, Error>,
) -> bool {
    match result {
        Ok(values) => {
            &&& values@.len() == fields.len()
            &&& forall|i: int|
                0 <= i < fields.len() ==> resolved(fields[i], latest(log, i as usize)) == Ok::<
                    Value,
                    Error,
                >(#[trigger] values@[i])
        },
        Err(e) => exists|i: int|
            {
                &&& 0 <= i < fields.len()
                &&& #[trigger] resolved(fields[i], latest(log, i as usize)) == Err::<Value, Error>(e)
                &&& forall|j: int|
                    0 <= j < i ==> (#[trigger] resolved(fields[j], latest(log, j as usize))) is Ok
            },
    }
}

/// The fields settle on one thing only: two results for the same fields
/// and the same values sent are both failures, and then the same failure,
/// or both hold the same values.
pub proof fn settled_once(
    fields: Seq<Field>,
    log: Seq<(usize, Value)>,
    once: Result<Vec<Value>, Error>,
    again: Result<Vec<Value>, Error>,
)
    requires
        settled(fields, log, once),
        settled(fields, log, again),
    ensures
        once is Ok <==> again is Ok,
        once is Ok ==> once->Ok_0@ == again->Ok_0@,
        once is Err ==> once->Err_0 == again->Err_0,
{
    match (once, again) {
        (Ok(a), Ok(b)) => {
            assert forall|i: int| 0 <= i < a@.len() implies a@[i] == b@[i] by {
                assert(resolved(fields[i], latest(log, i as usize)) == Ok::<Value, Error>(a@[i]));
                assert(resolved(fields[i], latest(log, i as usize)) == Ok::<Value, Error>(b@[i]));
            }
            assert(a@ =~= b@);
        },
        (Ok(a), Err(e)) => {
            let i = first_missing(fields, log, e);
            assert(resolved(fields[i], latest(log, i as usize)) == Ok::<Value, Error>(a@[i]));
        },
        (Err(e), Ok(b)) => {
            let i = first_missing(fields, log, e);
            assert(resolved(fields[i], latest(log, i as usize)) == Ok::<Value, Error>(b@[i]));
        },
        (Err(e), Err(f)) => {
            let i = first_missing(fields, log, e);
            let j = first_missing(fields, log, f);
            if i < j {
                assert(resolved(fields[i], latest(log, i as usize)) is Ok);
            } else if j < i {
                assert(resolved(fields[j], latest(log, j as usize)) is Ok);
            }
        },
    }
}

/// The fields settle by what their slots hold: two logs that leave every
/// slot with the same value settle the fields alike.
pub proof fn settled_by_slots(
    fields: Seq<Field>,
    log: Seq<(usize, Value)>,
    other: Seq<(usize, Value)>,
    result: Result<Vec<Value>, Error>,
)
    requires
        forall|token: usize| latest(log, token) == latest(other, token),
    ensures
        settled(fields, log, result) == settled(fields, other, result),
{
    assert forall|i: int| 0 <= i < fields.len() implies #[trigger] resolved(
        fields[i],
        latest(log, i as usize),
    ) == resolved(fields[i], latest(other, i as usize)) by {
        assert(latest(log, i as usize) == latest(other, i as usize));
    }
    if settled(fields, log, result) {
        match result {
            Ok(values) => {
                assert forall|i: int| 0 <= i < fields.len() implies resolved(
                    fields[i],
                    latest(other, i as usize),
                ) == Ok::<Value, Error>(#[trigger] values@[i]) by {
                    assert(resolved(fields[i], latest(log, i as usize)) == Ok::<Value, Error>(
                        values@[i],
                    ));
                }
            },
            Err(e) => {
                let i = first_missing(fields, log, e);
                assert(resolved(fields[i], latest(other, i as usize)) == Err::<Value, Error>(e));
                assert forall|j: int| 0 <= j < i implies (#[trigger] resolved(
                    fields[j],
                    latest(other, j as usize),
                )) is Ok by {
                    assert(resolved(fields[j], latest(log, j as usize)) is Ok);
                }
            },
        }
    }
    if settled(fields, other, result) {
        match result {
            Ok(values) => {
                assert forall|i: int| 0 <= i < fields.len() implies resolved(
                    fields[i],
                    latest(log, i as usize),
                ) == Ok::<Value, Error>(#[trigger] values@[i]) by {
                    assert(resolved(fields[i], latest(other, i as usize)) == Ok::<Value, Error>(
                        values@[i],
                    ));
                }
            },
            Err(e) => {
                let i = first_missing(fields, other, e);
                assert(resolved(fields[i], latest(log, i as usize)) == Err::<Value, Error>(e));
                assert forall|j: int| 0 <= j < i implies (#[trigger] resolved(
                    fields[j],
                    latest(log, j as usize),
                )) is Ok by {
                    assert(resolved(fields[j], latest(other, j as usize)) is Ok);
                }
            },
        }
    }
}

/// The place of the first field that has neither a value nor a default,
/// where the fields settle on the failure `e`.
proof fn first_missing(fields: Seq<Field>, log: Seq<(usize, Value)>, e: Error) -> (i: int)
    requires
        settled(fields, log, Err(e)),
    ensures
        0 <= i < fields.len(),
        resolved(fields[i], latest(log, i as usize)) == Err::<Value, Error>(e),
        forall|j: int| 0 <= j < i ==> (#[trigger] resolved(fields[j], latest(log, j as usize))) is Ok,
{
    choose|i: int|
        {
            &&& 0 <= i < fields.len()
            &&& #[trigger] resolved(fields[i], latest(log, i as usize)) == Err::<Value, Error>(e)
            &&& forall|j: int|
                0 <= j < i ==> (#[trigger] resolved(fields[j], latest(log, j as usize))) is Ok
        }
}

proof fn lemma_position_bound(fields: Seq<Field>, key: Seq<u8>)
    requires
        fields.len() <= usize::MAX,
    ensures
        position(fields, key) matches Some(i) ==> i < fields.len() && fields[i as int].key() == key,
    decreases fields.len(),
{
    if fields.len() > 0 {
        lemma_position_bound(fields.drop_last(), key);
    }
}

proof fn lemma_position_first(fields: Seq<Field>, key: Seq<u8>, i: int)
    requires
        0 <= i < fields.len(),
        fields.len() <= usize::MAX,
        fields[i].key() == key,
        forall|j: int| 0 <= j < i ==> fields[j].key() != key,
    ensures
        position(fields, key) == Some(i as usize),
    decreases fields.len(),
{
    if i < fields.len() - 1 {
        lemma_position_first(fields.drop_last(), key, i);
    } else {
        lemma_position_none(fields.drop_last(), key);
    }
}

proof fn lemma_position_none(fields: Seq<Field>, key: Seq<u8>)
    requires
        forall|j: int| 0 <= j < fields.len() ==> fields[j].key() != key,
    ensures
        position(fields, key) is None,
    decreases fields.len(),
{
    if fields.len() > 0 {
        lemma_position_none(fields.drop_last(), key);
    }
}

fn same_bytes(a: &[u8], b: &[u8]) -> (same: bool)
    ensures
        same == (a@ == b@),
{
    if a.len() != b.len() {
        return false;
    }
    let mut i: usize = 0;
    while i < a.len()
        invariant
            a@.len() == b@.len(),
            i <= a@.len(),
            forall|j: int| 0 <= j < i ==> a@[j] == b@[j],
        decreases a@.len() - i,
    {
        if a[i] != b[i] {
            return false;
        }
        i += 1;
    }
    assert(a@ =~= b@);
    true
}

/// Takes the value out of the slot at `i`.
fn take_slot(slots: &mut Vec<Option<Value>>, i: usize) -> (slot: Option<Value>)
    requires
        i < old(slots)@.len(),
    ensures
        slot == old(slots)@[i as int],
        final(slots)@ == old(slots)@.update(i as int, None),
{
    slots[i].take()
}

/// Takes the default out of the field at `i`.
fn take_default(fields: &mut Vec<Field>, i: usize) -> (default: Option<Value>)
    requires
        i < old(fields)@.len(),
    ensures
        default == old(fields)@[i as int].default,
        final(fields)@ == old(fields)@.update(
            i as int,
            Field { default: None, ..old(fields)@[i as int] },
        ),
{
    fields[i].default.take()
}

/// What a record of named fields is declared with.
pub struct Table {
    /// The name of the record, for messages.
    pub label: Seq<char>,
    /// The fields in the order of declaration.
    pub fields: Seq<Field>,
}

/// The named fields of one record, each with a slot for its value.
///
/// As a capture it claims the keys that are names of its fields; the token
/// of a field is its place in the table. A value sent for a field takes the
/// place of one sent before.
pub struct SlotCapture {
    label: String,
    fields: Vec<Field>,
    slots: Vec<Option<Value>>,
    sent: Ghost<Seq<(usize, Value)>>,
}

impl SlotCapture {
    /// The declared fields.
    pub open spec fn fields(&self) -> Seq<Field> {
        self.schema().fields
    }

    /// The value that the slot of the field at `token` holds.
    pub open spec fn slot(&self, token: usize) -> Option<Value> {
        latest(self.stored(), token)
    }

    /// The capture of the record called `label`, with `fields` and with all
    /// slots empty.
    pub fn new(label: &str, fields: Vec<Field>) -> (capture: Self)
        ensures
            capture.wf(),
            capture.schema() == (Table { label: label@, fields: fields@ }),
            capture.stored() == Seq::<(usize, Value)>::empty(),
    {
        let mut slots: Vec<Option<Value>> = Vec::new();
        let mut i: usize = 0;
        while i < fields.len()
            invariant
                i <= fields.len(),
                slots@.len() == i,
                forall|j: int| 0 <= j < i ==> slots@[j] is None,
            decreases fields.len() - i,
        {
            slots.push(None);
            i += 1;
        }
        SlotCapture { label: label.to_owned(), fields, slots, sent: Ghost(Seq::empty()) }
    }

    /// Ends the filling: every field's value in the order of declaration. A
    /// field that got no value comes with its default; the first one that
    /// has neither fails the whole with `MissingField`.
    pub fn finish(self) -> (result: Result<Vec<Value>, Error>)
        requires
            self.wf(),
        ensures
            settled(self.fields(), self.stored(), result),
    {
        let mut fields = self.fields;
        let mut slots = self.slots;
        let n: usize = fields.len();
        let mut values: Vec<Value> = Vec::new();
        let mut i: usize = 0;
        while i < n
            invariant
                self.wf(),
                i <= n,
                n == self.fields@.len(),
                fields@.len() == n,
                slots@.len() == n,
                values@.len() == i,
                forall|j: int| i <= j < n ==> fields@[j] == self.fields@[j],
                forall|j: int| i <= j < n ==> slots@[j] == self.slots@[j],
                forall|j: int|
                    0 <= j < i ==> resolved(self.fields@[j], self.slots@[j]) == Ok::<Value, Error>(
                        #[trigger] values@[j],
                    ),
            decreases n - i,
        {
            let value = match take_slot(&mut slots, i) {
                Some(value) => value,
                None => match take_default(&mut fields, i) {
                    Some(value) => value,
                    None => {
                        let e = Error::MissingField(fields[i].name.clone());
                        proof {
                            assert(resolved(self.fields@[i as int], self.slots@[i as int]) == Err::<
                                Value,
                                Error,
                            >(e));
                            assert forall|j: int| 0 <= j < i implies (#[trigger] resolved(
                                self.fields@[j],
                                latest(self.sent@, j as usize),
                            )) is Ok by {
                                assert(resolved(self.fields@[j], self.slots@[j]) == Ok::<
                                    Value,
                                    Error,
                                >(values@[j]));
                            }
                        }
                        return Err(e);
                    },
                },
            };
            values.push(value);
            i += 1;
        }
        Ok(values)
    }
}

impl KeyCapture for SlotCapture {
    type Token = usize;

    type Schema = Table;

    closed spec fn wf(&self) -> bool {
        &&& self.slots@.len() == self.fields@.len()
        &&& forall|i: int| 0 <= i < self.slots@.len() ==> self.slots@[i] == latest(self.sent@, i as usize)
    }

    closed spec fn schema(&self) -> Table {
        Table { label: self.label@, fields: self.fields@ }
    }

    /// The place of the first field with that key.
    open spec fn claim(schema: Table, key: Seq<u8>) -> Option<usize> {
        position(schema.fields, key)
    }

    /// A field that takes one shape only turns down a value of any other
    /// shape, with `Mismatch`.
    open spec fn refusal(schema: Table, token: usize, value: Value) -> Option<Error> {
        if token < schema.fields.len() {
            match schema.fields[token as int].kind {
                Some(kind) if kind != value.shape() => Some(
                    Error::Mismatch {
                        field: schema.fields[token as int].name,
                        found: value.shape(),
                        wanted: kind,
                    },
                ),
                _ => None,
            }
        } else {
            None
        }
    }

    open spec fn expected(schema: Table) -> Seq<char> {
        schema.label
    }

    closed spec fn stored(&self) -> Seq<(usize, Value)> {
        self.sent@
    }

    fn try_send_key(&mut self, key: &[u8]) -> (token: Option<usize>) {
        let mut i: usize = 0;
        while i < self.fields.len()
            invariant
                *self == *old(self),
                self.wf(),
                i <= self.fields@.len(),
                forall|j: int| 0 <= j < i ==> self.fields@[j].key() != key@,
            decreases self.fields@.len() - i,
        {
            if same_bytes(self.fields[i].name.as_str().as_bytes(), key) {
                proof {
                    lemma_position_first(self.fields@, key@, i as int);
                }
                return Some(i);
            }
            i += 1;
        }
        proof {
            lemma_position_none(self.fields@, key@);
        }
        None
    }

    fn send_value(&mut self, token: usize, value: Value) -> (sent: Result<(), Error>) {
        proof {
            vstd::std_specs::vec::axiom_spec_len(&self.fields);
            let key = choose|key: Seq<u8>| Self::claim(self.schema(), key) == Some(token);
            lemma_position_bound(self.fields@, key);
        }
        match self.fields[token].kind {
            Some(kind) if kind != value.kind() => {
                return Err(
                    Error::Mismatch {
                        field: self.fields[token].name.clone(),
                        found: value.kind(),
                        wanted: kind,
                    },
                );
            },
            _ => {},
        }
        self.slots[token] = Some(value);
        self.sent = Ghost(self.sent@.push((token, value)));
        proof {
            assert(self.sent@.drop_last() =~= old(self).sent@);
            assert(self.sent@.last() == (token, value));
            assert forall|i: int| 0 <= i < self.slots@.len() implies self.slots@[i] == latest(
                self.sent@,
                i as usize,
            ) by {
                assert(old(self).slots@[i] == latest(old(self).sent@, i as usize));
            }
        }
        Ok(())
    }

    fn expecting(&self) -> (text: String) {
        self.label.clone()
    }
}

/// The visitor of a record that is nothing but its named fields. It reads
/// the record to its end, keeps the values of its fields and passes over
/// every entry with a key that is none of theirs.
pub struct StructVisitor {
    capture: SlotCapture,
}

impl StructVisitor {
    /// The fields that the visitor fills.
    pub closed spec fn capture(&self) -> SlotCapture {
        self.capture
    }

    /// The visitor of the record called `label`, with `fields`.
    pub fn new(label: &str, fields: Vec<Field>) -> (visitor: Self)
        ensures
            visitor.wf(),
            visitor.capture().schema() == (Table { label: label@, fields: fields@ }),
            visitor.capture().stored() == Seq::<(usize, Value)>::empty(),
    {
        StructVisitor { capture: SlotCapture::new(label, fields) }
    }
}

impl Visitor for StructVisitor {
    type Value = Vec<Value>;

    closed spec fn wf(&self) -> bool {
        self.capture.wf()
    }

    open spec fn expected(&self) -> Seq<char> {
        self.capture().schema().label
    }

    /// A value that a field turns down, or a fault of the source, fails
    /// the record. Else the fields settle on the values that the record has
    /// for them.
    open spec fn yields(
        &self,
        entries: Seq<(Value, Value)>,
        fault: Option<Fault>,
        result: Result<Vec<Value>, Error>,
    ) -> bool {
        match failure(&self.capture(), entries, fault) {
            Some(end) => result == Err::<Vec<Value>, Error>(end.error()),
            None => settled(
                self.capture().fields(),
                self.capture().stored() + captured(&self.capture(), entries),
                result,
            ),
        }
    }

    fn expecting(&self) -> (text: String) {
        self.capture.expecting()
    }

    fn visit_map<A: MapAccess>(self, map: &mut A) -> (result: Result<Vec<Value>, Error>)
        ensures
            result is Ok ==> final(map).finished(),
    {
        let mut capture = self.capture;
        loop
            invariant
                map.wf(),
                map.pending() is None,
                map.origin() == old(map).origin(),
                capture.wf(),
                capture.schema() == self.capture.schema(),
                failure(&self.capture, map.entries(), map.fault()) == failure(
                    &self.capture,
                    old(map).entries(),
                    old(map).fault(),
                ),
                failure(&self.capture, old(map).entries(), old(map).fault()) is None
                    ==> capture.stored() + captured(&self.capture, map.entries())
                    == self.capture.stored() + captured(&self.capture, old(map).entries()),
            decreases map.entries().len(),
        {
            let ghost entries = map.entries();
            let ghost stored = capture.stored();
            match map.next_key() {
                Err(e) => {
                    return Err(e);
                },
                Ok(None) => {
                    assert(capture.stored() + captured(&self.capture, map.entries())
                        =~= capture.stored());
                    return capture.finish();
                },
                Ok(Some(key)) => {
                    let value = match map.next_value() {
                        Ok(value) => value,
                        Err(e) => {
                            return Err(e);
                        },
                    };
                    let claimed = match key.as_key_bytes() {
                        Some(bytes) => capture.try_send_key(bytes),
                        None => None,
                    };
                    match claimed {
                        None => {},
                        Some(token) => {
                            assert(SlotCapture::claim(capture.schema(), key.key_bytes()->0)
                                == Some(token));
                            match capture.send_value(token, value) {
                                Err(e) => {
                                    return Err(e);
                                },
                                Ok(()) => {
                                    assert(stored.push((token, value)) + captured(
                                        &self.capture,
                                        entries.drop_first(),
                                    ) =~= stored + captured(&self.capture, entries));
                                },
                            }
                        },
                    }
                },
            }
        }
    }
}

} // verus!
