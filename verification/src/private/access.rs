//! The decoding protocol: a source that can be read as a record, the cursor
//! over the entries of a record, and the visitor that a cursor is handed to.

use vstd::prelude::*;
use crate::private::content::{Error, Fault, Kind, Value};

verus! {

/// What the next request for a key returns, on a cursor that has `entries`
/// still to come and then breaks off with `fault`: the key of the first
/// entry; behind the last entry what the fault has, its failure or the key
/// that it still hands out; without a fault the end of the record.
pub open spec fn upcoming(entries: Seq<(Value, Value)>, fault: Option<Fault>) -> Result<
    Option<Value>,
    Error,
> {
    if entries.len() > 0 {
        Ok(Some(entries[0].0))
    } else {
        match fault {
            Some(Fault::AtKey(e)) => Err(e),
            Some(Fault::AtValue(key, _)) => Ok(Some(key)),
            None => Ok(None),
        }
    }
}

/// What the request for a value returns, once the key that `upcoming` gives
/// has been handed out: the value of the first entry, or the failure of the
/// fault whose key it was.
pub open spec fn awaited(entries: Seq<(Value, Value)>, fault: Option<Fault>) -> Result<
    Value,
    Error,
> {
    if entries.len() > 0 {
        Ok(entries[0].1)
    } else {
        Err(fault->0.error())
    }
}

/// A cursor over the entries of one record.
///
/// Keys and values are asked for in turn. The state of a cursor is the
/// entries it has not started (`entries`), what the request for a value will
/// return while one is due (`pending`), and the way in which the source
/// breaks off behind the last entry (`fault`). After a failure a cursor is
/// not used again.
pub trait MapAccess: Sized {
    /// What the cursor keeps fixed while it advances.
    type Origin;

    spec fn wf(&self) -> bool;

    /// What this cursor was opened on; no step changes it.
    spec fn origin(&self) -> Self::Origin;

    /// The entries whose key has not been handed out yet, in source order.
    spec fn entries(&self) -> Seq<(Value, Value)>;

    /// What belongs to the key handed out last, until it is asked for: its
    /// value, or the failure to read it.
    spec fn pending(&self) -> Option<Result<Value, Error>>;

    /// How the source breaks off once `entries` are used up, if it does.
    spec fn fault(&self) -> Option<Fault>;

    /// The end of the record has been reported.
    spec fn finished(&self) -> bool;

    /// Hands out the key of the next entry, or `None` at the end of the
    /// record.
    fn next_key(&mut self) -> (key: Result<Option<Value>, Error>)
        requires
            old(self).wf(),
            old(self).pending() is None,
        ensures
            key == upcoming(old(self).entries(), old(self).fault()),
            key is Ok ==> final(self).wf() && final(self).origin() == old(self).origin()
                && final(self).fault() == old(self).fault(),
            key matches Ok(Some(_)) ==> final(self).pending() == Some(
                awaited(old(self).entries(), old(self).fault()),
            ) && final(self).entries() == (if old(self).entries().len() > 0 {
                old(self).entries().drop_first()
            } else {
                old(self).entries()
            }),
            key matches Ok(None) ==> final(self).finished() && final(self).entries().len() == 0
                && final(self).pending() is None,
    ;

    /// Hands out the value that belongs to the key handed out last.
    fn next_value(&mut self) -> (value: Result<Value, Error>)
        requires
            old(self).wf(),
            old(self).pending() is Some,
        ensures
            Some(value) == old(self).pending(),
            value is Ok ==> final(self).wf() && final(self).origin() == old(self).origin()
                && final(self).entries() == old(self).entries() && final(self).fault() == old(
                self,
            ).fault() && final(self).pending() is None,
    ;
}

/// A cursor over the elements of one sequence. Its state is the elements it
/// has not handed out and the failure with which the source breaks off after
/// the last of them.
pub trait SeqAccess: Sized {
    spec fn wf(&self) -> bool;

    /// The elements that have not been handed out yet, in source order.
    spec fn elements(&self) -> Seq<Value>;

    /// The failure that the source reports once `elements` are used up.
    spec fn fault(&self) -> Option<Error>;

    /// Hands out the next element, or `None` at the end of the sequence.
    fn next_element(&mut self) -> (element: Result<Option<Value>, Error>)
        requires
            old(self).wf(),
        ensures
            element == (if old(self).elements().len() > 0 {
                Ok::<Option<Value>, Error>(Some(old(self).elements()[0]))
            } else {
                match old(self).fault() {
                    Some(e) => Err::<Option<Value>, Error>(e),
                    None => Ok::<Option<Value>, Error>(None),
                }
            }),
            element is Ok ==> final(self).wf() && final(self).fault() == old(self).fault(),
            element matches Ok(Some(_)) ==> final(self).elements() == old(
                self,
            ).elements().drop_first(),
            element matches Ok(None) ==> final(self).elements().len() == 0,
    ;
}

/// The consumer of a record: it is handed a cursor and pulls from it what it
/// needs. It may stop before the end of the record, but not between a key
/// and its value.
pub trait Visitor: Sized {
    type Value;

    spec fn wf(&self) -> bool;

    /// What the visitor says it expects, for messages.
    spec fn expected(&self) -> Seq<char>;

    /// Whether `result` is what the visitor makes of a record that shows it
    /// `entries` and then breaks off with `fault`, or ends where there is
    /// none.
    spec fn yields(
        &self,
        entries: Seq<(Value, Value)>,
        fault: Option<Fault>,
        result: Result<Self::Value, Error>,
    ) -> bool;

    fn expecting(&self) -> (text: String)
        requires
            self.wf(),
        ensures
            text@ == self.expected(),
    ;

    fn visit_map<A: MapAccess>(self, map: &mut A) -> (result: Result<Self::Value, Error>)
        requires
            self.wf(),
            old(map).wf(),
            old(map).pending() is None,
        ensures
            self.yields(old(map).entries(), old(map).fault(), result),
            result is Ok ==> final(map).wf() && final(map).origin() == old(map).origin()
                && final(map).pending() is None,
    ;
}

/// A source of one value, which can be asked to present it as a record.
pub trait Deserializer: Sized {
    type Access: MapAccess;

    /// The shape of the value that the source holds.
    spec fn kind(&self) -> Kind;

    /// The entries of the record, where the source holds one.
    spec fn entries(&self) -> Seq<(Value, Value)>;

    /// How the source breaks off after the entries, if it does.
    spec fn fault(&self) -> Option<Fault>;

    /// Opens the source as a record. A source of another shape refuses with
    /// `InvalidType`, naming its own shape and what was `expected`.
    fn deserialize_map(self, expected: String) -> (map: Result<Self::Access, Error>)
        ensures
            match map {
                Ok(access) => self.kind() == Kind::Record && access.wf() && access.pending() is None
                    && access.entries() == self.entries() && access.fault() == self.fault(),
                Err(e) => self.kind() != Kind::Record && e == (Error::InvalidType {
                    unexpected: self.kind(),
                    expected,
                }),
            },
    ;

    /// Reads the value through without decoding it. Only malformed input
    /// makes this fail.
    fn deserialize_ignored_any(self) -> (skipped: Result<(), Error>)
        ensures
            skipped == (match self.fault() {
                Some(fault) if self.kind() == Kind::Record => Err::<(), Error>(fault.error()),
                _ => Ok::<(), Error>(()),
            }),
    ;
}

/// The cursor over the entries of a record held in memory.
pub struct SliceAccess {
    /// The entries not yet started, last one first.
    rest: Vec<(Value, Value)>,
    held: Option<Result<Value, Error>>,
    /// The fault, until the cursor has come to it.
    fault: Option<Fault>,
    ends: Ghost<Option<Fault>>,
}

impl SliceAccess {
    /// A cursor at the start of `entries`; once they are used up it breaks
    /// off with `fault`, if there is one, and reports the end of the record
    /// if not.
    pub fn new(entries: Vec<(Value, Value)>, fault: Option<Fault>) -> (access: Self)
        ensures
            access.wf(),
            access.entries() == entries@,
            access.pending() is None,
            access.fault() == fault,
    {
        let mut entries = entries;
        let ghost all = entries@;
        let mut rest: Vec<(Value, Value)> = Vec::new();
        while entries.len() > 0
            invariant
                entries@ + rest@.reverse() == all,
            decreases entries.len(),
        {
            let ghost before = rest@;
            let entry = entries.pop().unwrap();
            rest.push(entry);
            assert(rest@.reverse() =~= seq![entry] + before.reverse());
            assert(entries@ + rest@.reverse() =~= entries@.push(entry) + before.reverse());
        }
        assert(entries@ + rest@.reverse() =~= rest@.reverse());
        SliceAccess { rest, held: None, fault, ends: Ghost(fault) }
    }
}

impl MapAccess for SliceAccess {
    type Origin = ();

    /// The fault is still to come, unless its key has been handed out and
    /// its failure is due.
    closed spec fn wf(&self) -> bool {
        match self.held {
            Some(Err(e)) => {
                &&& self.rest@.len() == 0
                &&& self.fault is None
                &&& self.ends@ matches Some(Fault::AtValue(_, due))
                &&& due == e
            },
            _ => self.fault == self.ends@,
        }
    }

    open spec fn origin(&self) -> () {
        ()
    }

    closed spec fn entries(&self) -> Seq<(Value, Value)> {
        self.rest@.reverse()
    }

    closed spec fn pending(&self) -> Option<Result<Value, Error>> {
        self.held
    }

    closed spec fn fault(&self) -> Option<Fault> {
        self.ends@
    }

    open spec fn finished(&self) -> bool {
        self.entries().len() == 0 && self.fault() is None && self.pending() is None
    }

    fn next_key(&mut self) -> (key: Result<Option<Value>, Error>) {
        match self.rest.pop() {
            Some((key, value)) => {
                self.held = Some(Ok(value));
                assert(self.rest@.reverse() =~= old(self).rest@.reverse().drop_first());
                Ok(Some(key))
            },
            None => match self.fault.take() {
                Some(Fault::AtKey(e)) => Err(e),
                Some(Fault::AtValue(key, e)) => {
                    self.held = Some(Err(e));
                    Ok(Some(key))
                },
                None => Ok(None),
            },
        }
    }

    fn next_value(&mut self) -> (value: Result<Value, Error>) {
        self.held.take().unwrap()
    }
}

/// The cursor over the elements of a sequence held in memory.
pub struct ListAccess {
    /// The elements not yet handed out, last one first.
    rest: Vec<Value>,
    fault: Option<Error>,
}

impl ListAccess {
    /// A cursor at the start of `elements`; once they are used up it reports
    /// `fault`, if there is one, and the end of the sequence if not.
    pub fn new(elements: Vec<Value>, fault: Option<Error>) -> (access: Self)
        ensures
            access.wf(),
            access.elements() == elements@,
            access.fault() == fault,
    {
        let mut elements = elements;
        let ghost all = elements@;
        let mut rest: Vec<Value> = Vec::new();
        while elements.len() > 0
            invariant
                elements@ + rest@.reverse() == all,
            decreases elements.len(),
        {
            let ghost before = rest@;
            let element = elements.pop().unwrap();
            rest.push(element);
            assert(rest@.reverse() =~= seq![element] + before.reverse());
            assert(elements@ + rest@.reverse() =~= elements@.push(element) + before.reverse());
        }
        assert(elements@ + rest@.reverse() =~= rest@.reverse());
        ListAccess { rest, fault }
    }
}

impl SeqAccess for ListAccess {
    open spec fn wf(&self) -> bool {
        true
    }

    closed spec fn elements(&self) -> Seq<Value> {
        self.rest@.reverse()
    }

    closed spec fn fault(&self) -> Option<Error> {
        self.fault
    }

    fn next_element(&mut self) -> (element: Result<Option<Value>, Error>) {
        match self.rest.pop() {
            Some(element) => {
                assert(self.rest@.reverse() =~= old(self).rest@.reverse().drop_first());
                Ok(Some(element))
            },
            None => match self.fault.take() {
                Some(e) => Err(e),
                None => Ok(None),
            },
        }
    }
}

/// A source that holds one value in memory.
pub struct ValueDeserializer {
    value: Value,
    fault: Option<Fault>,
}

impl ValueDeserializer {
    /// The value that the source holds.
    pub closed spec fn value(&self) -> Value {
        self.value
    }

    /// A sound source that holds `value`.
    pub fn new(value: Value) -> (source: Self)
        ensures
            source.value() == value,
            source.fault() is None,
    {
        ValueDeserializer { value, fault: None }
    }

    /// The source of a record that holds `entries` and then breaks off with
    /// `fault`, as malformed input does.
    pub fn broken(entries: Vec<(Value, Value)>, fault: Fault) -> (source: Self)
        ensures
            source.value() == Value::Record(entries),
            source.fault() == Some(fault),
    {
        ValueDeserializer { value: Value::Record(entries), fault: Some(fault) }
    }
}

impl Deserializer for ValueDeserializer {
    type Access = SliceAccess;

    open spec fn kind(&self) -> Kind {
        self.value().shape()
    }

    open spec fn entries(&self) -> Seq<(Value, Value)> {
        match self.value() {
            Value::Record(entries) => entries@,
            _ => Seq::empty(),
        }
    }

    closed spec fn fault(&self) -> Option<Fault> {
        self.fault
    }

    fn deserialize_map(self, expected: String) -> (map: Result<SliceAccess, Error>) {
        match self.value {
            Value::Record(entries) => Ok(SliceAccess::new(entries, self.fault)),
            other => Err(Error::InvalidType { unexpected: other.kind(), expected }),
        }
    }

    fn deserialize_ignored_any(self) -> (skipped: Result<(), Error>) {
        match self.value {
            Value::Record(_) => match self.fault {
                Some(Fault::AtKey(e)) => Err(e),
                Some(Fault::AtValue(_, e)) => Err(e),
                None => Ok(()),
            },
            _ => Ok(()),
        }
    }
}

/// The visitor that reads a record to its end and keeps nothing.
pub struct IgnoredAny;

impl Visitor for IgnoredAny {
    type Value = ();

    open spec fn wf(&self) -> bool {
        true
    }

    closed spec fn expected(&self) -> Seq<char> {
        "anything at all"@
    }

    open spec fn yields(
        &self,
        entries: Seq<(Value, Value)>,
        fault: Option<Fault>,
        result: Result<(), Error>,
    ) -> bool {
        result == (match fault {
            Some(fault) => Err::<(), Error>(fault.error()),
            None => Ok::<(), Error>(()),
        })
    }

    fn expecting(&self) -> (text: String) {
        "anything at all".to_owned()
    }

    fn visit_map<A: MapAccess>(self, map: &mut A) -> (result: Result<(), Error>)
        ensures
            result is Ok ==> final(map).finished(),
    {
        loop
            invariant
                map.wf(),
                map.pending() is None,
                map.origin() == old(map).origin(),
                map.fault() == old(map).fault(),
            decreases map.entries().len(),
        {
            match map.next_key() {
                Err(e) => {
                    return Err(e);
                },
                Ok(None) => {
                    return Ok(());
                },
                Ok(Some(_key)) => match map.next_value() {
                    Ok(_value) => {},
                    Err(e) => {
                        return Err(e);
                    },
                },
            }
        }
    }
}

/// The visitor of a record that keeps what it is shown as it is: the
/// entries in the order of the source. It reads no more than a given number
/// of entries and leaves the rest of the record unread.
pub struct EntryVisitor {
    limit: usize,
}

impl EntryVisitor {
    /// The number of entries that the visitor reads at most.
    pub closed spec fn limit(&self) -> usize {
        self.limit
    }

    /// The visitor that reads a record to its end.
    pub fn all() -> (visitor: Self)
        ensures
            visitor.limit() == usize::MAX,
    {
        EntryVisitor { limit: usize::MAX }
    }

    /// The visitor that stops after `limit` entries.
    pub fn at_most(limit: usize) -> (visitor: Self)
        ensures
            visitor.limit() == limit,
    {
        EntryVisitor { limit }
    }
}

impl Visitor for EntryVisitor {
    type Value = Vec<(Value, Value)>;

    open spec fn wf(&self) -> bool {
        true
    }

    closed spec fn expected(&self) -> Seq<char> {
        "a record"@
    }

    /// A record with as many entries as the limit, or more, gives its
    /// first entries up to the limit, whatever comes after them. A shorter
    /// record gives all its entries, if it ends well, and else its fault.
    open spec fn yields(
        &self,
        entries: Seq<(Value, Value)>,
        fault: Option<Fault>,
        result: Result<Vec<(Value, Value)>, Error>,
    ) -> bool {
        if self.limit() <= entries.len() {
            result matches Ok(kept) && kept@ == entries.take(self.limit() as int)
        } else {
            match fault {
                Some(fault) => result == Err::<Vec<(Value, Value)>, Error>(fault.error()),
                None => result matches Ok(kept) && kept@ == entries,
            }
        }
    }

    fn expecting(&self) -> (text: String) {
        "a record".to_owned()
    }

    fn visit_map<A: MapAccess>(self, map: &mut A) -> (result: Result<Vec<(Value, Value)>, Error>)
        ensures
            result is Ok ==> final(map).entries() == old(map).entries().skip(
                result->Ok_0@.len() as int,
            ),
    {
        let mut kept: Vec<(Value, Value)> = Vec::new();
        while kept.len() < self.limit
            invariant
                map.wf(),
                map.pending() is None,
                map.origin() == old(map).origin(),
                map.fault() == old(map).fault(),
                kept@.len() <= self.limit(),
                kept@.len() <= old(map).entries().len(),
                kept@ == old(map).entries().take(kept@.len() as int),
                map.entries() == old(map).entries().skip(kept@.len() as int),
            decreases map.entries().len(),
        {
            match map.next_key() {
                Err(e) => {
                    return Err(e);
                },
                Ok(None) => {
                    assert(kept@ =~= old(map).entries());
                    return Ok(kept);
                },
                Ok(Some(key)) => {
                    let value = match map.next_value() {
                        Ok(value) => value,
                        Err(e) => {
                            return Err(e);
                        },
                    };
                    kept.push((key, value));
                    assert(kept@ =~= old(map).entries().take(kept@.len() as int));
                    assert(map.entries() =~= old(map).entries().skip(kept@.len() as int));
                },
            }
        }
        Ok(kept)
    }
}

} // verus!
