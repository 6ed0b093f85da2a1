//! What holds of every pass: how the routing of a record follows from the
//! routing of its parts, and what that means for the order of keys.

use vstd::prelude::*;
use crate::private::access::Visitor;
use crate::private::capture::{
    latest,
    resolved,
    settled,
    settled_by_slots,
    settled_once,
    SlotCapture,
    StructVisitor,
};
use crate::private::content::{Error, Fault, Value};
use crate::private::flatten::{captured, claim_of, failure, flattened, forwarded, KeyCapture};

verus! {

/// The entries that the capture claims.
pub open spec fn is_claimed<C: KeyCapture>(capture: &C) -> spec_fn((Value, Value)) -> bool {
    |entry: (Value, Value)| claim_of(capture, entry.0) is Some
}

/// The entries that the capture leaves to the nested record.
pub open spec fn is_free<C: KeyCapture>(capture: &C) -> spec_fn((Value, Value)) -> bool {
    |entry: (Value, Value)| claim_of(capture, entry.0) is None
}

/// A record is routed part by part: what is forwarded and what is captured
/// of `first + second` is that of `first` followed by that of `second`,
/// unless the pass fails in `first`, where it stops. It fails as `first`
/// does, else as `second` does.
pub proof fn routing_of_parts<C: KeyCapture>(
    capture: &C,
    first: Seq<(Value, Value)>,
    second: Seq<(Value, Value)>,
    fault: Option<Fault>,
)
    ensures
        failure(capture, first + second, fault) == (match failure(capture, first, None) {
            Some(e) => Some(e),
            None => failure(capture, second, fault),
        }),
        forwarded(capture, first + second) == (if failure(capture, first, None) is None {
            forwarded(capture, first) + forwarded(capture, second)
        } else {
            forwarded(capture, first)
        }),
        captured(capture, first + second) == (if failure(capture, first, None) is None {
            captured(capture, first) + captured(capture, second)
        } else {
            captured(capture, first)
        }),
    decreases first.len(),
{
    if first.len() == 0 {
        assert(first + second =~= second);
        assert(forwarded(capture, first) + forwarded(capture, second) =~= forwarded(
            capture,
            second,
        ));
        assert(captured(capture, first) + captured(capture, second) =~= captured(capture, second));
    } else {
        let rest = first.drop_first();
        routing_of_parts(capture, rest, second, fault);
        assert((first + second).drop_first() =~= rest + second);
        assert((first + second)[0] == first[0]);
        match claim_of(capture, first[0].0) {
            None => {
                assert(seq![first[0]] + (forwarded(capture, rest) + forwarded(capture, second))
                    =~= (seq![first[0]] + forwarded(capture, rest)) + forwarded(capture, second));
            },
            Some(token) => {
                assert(seq![(token, first[0].1)] + (captured(capture, rest) + captured(
                    capture,
                    second,
                )) =~= (seq![(token, first[0].1)] + captured(capture, rest)) + captured(
                    capture,
                    second,
                ));
            },
        }
    }
}

/// The routing of a single entry.
proof fn routing_of_one<C: KeyCapture>(capture: &C, entry: (Value, Value))
    ensures
        failure(capture, seq![entry], None) is None <==> (match claim_of(capture, entry.0) {
            Some(token) => C::refusal(capture.schema(), token, entry.1) is None,
            None => true,
        }),
        claim_of(capture, entry.0) is None ==> forwarded(capture, seq![entry]) == seq![entry]
            && captured(capture, seq![entry]) == Seq::<(C::Token, Value)>::empty(),
        claim_of(capture, entry.0) matches Some(token) ==> (C::refusal(
            capture.schema(),
            token,
            entry.1,
        ) is None
            ==> forwarded(capture, seq![entry]) == Seq::<(Value, Value)>::empty() && captured(
            capture,
            seq![entry],
        ) == seq![(token, entry.1)]),
{
    let one = seq![entry];
    assert(one.drop_first() =~= Seq::<(Value, Value)>::empty());
    assert(one[0] == entry);
    assert(forwarded(capture, one.drop_first()) =~= Seq::<(Value, Value)>::empty());
    assert(captured(capture, one.drop_first()) =~= Seq::<(C::Token, Value)>::empty());
    assert(failure(capture, one.drop_first(), None) is None);
    assert(seq![entry] + Seq::<(Value, Value)>::empty() =~= seq![entry]);
    match claim_of(capture, entry.0) {
        Some(token) => {
            assert(seq![(token, entry.1)] + Seq::<(C::Token, Value)>::empty() =~= seq![
                (token, entry.1),
            ]);
        },
        None => {},
    }
}

/// Every entry of a record goes to exactly one destination.
///
/// Where the capture turns no value down, the entries that reach the nested
/// record are exactly those that the capture does not claim, in the order of
/// the source; the values that reach the capture are exactly those of the
/// entries that it claims, in the order of the source and each under the
/// token of its key. Together the two kinds make up the record, each entry
/// counted once.
pub proof fn routing_is_a_partition<C: KeyCapture>(capture: &C, entries: Seq<(Value, Value)>)
    requires
        failure(capture, entries, None) is None,
    ensures
        forwarded(capture, entries) == entries.filter(is_free(capture)),
        captured(capture, entries).len() == entries.filter(is_claimed(capture)).len(),
        forall|i: int|
            0 <= i < captured(capture, entries).len() ==> (#[trigger] captured(capture, entries)[i])
                == (
                claim_of(capture, entries.filter(is_claimed(capture))[i].0)->0,
                entries.filter(is_claimed(capture))[i].1,
            ),
        forwarded(capture, entries).len() + captured(capture, entries).len() == entries.len(),
        entries.to_multiset() == forwarded(capture, entries).to_multiset().add(
            entries.filter(is_claimed(capture)).to_multiset(),
        ),
    decreases entries.len(),
{
    let free = is_free(capture);
    let claimed = is_claimed(capture);
    if entries.len() == 0 {
        assert(entries.filter(free) =~= Seq::<(Value, Value)>::empty());
        assert(entries.filter(claimed) =~= Seq::<(Value, Value)>::empty());
        assert(entries.to_multiset() =~= forwarded(capture, entries).to_multiset().add(
            entries.filter(claimed).to_multiset(),
        )) by {
            assert(forwarded(capture, entries) =~= entries);
            vstd::seq_lib::lemma_multiset_commutative(entries, entries);
            assert(entries + entries =~= entries);
        }
    } else {
        let head = entries[0];
        let rest = entries.drop_first();
        routing_is_a_partition(capture, rest);
        assert(entries =~= seq![head] + rest);
        rest.lemma_filter_prepend(head, free);
        rest.lemma_filter_prepend(head, claimed);
        vstd::seq_lib::lemma_multiset_commutative(seq![head], rest);
        match claim_of(capture, head.0) {
            None => {
                assert(entries.filter(claimed) =~= rest.filter(claimed));
                assert(entries.filter(free) =~= seq![head] + rest.filter(free));
                vstd::seq_lib::lemma_multiset_commutative(seq![head], forwarded(capture, rest));
                assert(entries.to_multiset() =~= forwarded(capture, entries).to_multiset().add(
                    entries.filter(claimed).to_multiset(),
                ));
            },
            Some(token) => {
                assert(entries.filter(free) =~= rest.filter(free));
                assert(entries.filter(claimed) =~= seq![head] + rest.filter(claimed));
                vstd::seq_lib::lemma_multiset_commutative(seq![head], rest.filter(claimed));
                assert(entries.to_multiset() =~= forwarded(capture, entries).to_multiset().add(
                    entries.filter(claimed).to_multiset(),
                ));
                assert forall|i: int| 0 <= i < captured(capture, entries).len() implies (
                #[trigger] captured(capture, entries)[i]) == (
                    claim_of(capture, entries.filter(claimed)[i].0)->0,
                    entries.filter(claimed)[i].1,
                ) by {
                    if i > 0 {
                        assert(captured(capture, entries)[i] == captured(capture, rest)[i - 1]);
                        assert(entries.filter(claimed)[i] == rest.filter(claimed)[i - 1]);
                    }
                }
            },
        }
    }
}

/// The routing of a record with one claimed entry put in between two parts.
proof fn routing_around_claimed<C: KeyCapture>(
    capture: &C,
    before: Seq<(Value, Value)>,
    field: (Value, Value),
    after: Seq<(Value, Value)>,
)
    requires
        claim_of(capture, field.0) is Some,
    ensures
        failure(capture, before + seq![field] + after, None) is None <==> failure(
            capture,
            before + after,
            None,
        ) is None && C::refusal(capture.schema(), claim_of(capture, field.0)->0, field.1)
            is None,
        failure(capture, before + seq![field] + after, None) is None ==> forwarded(
            capture,
            before + seq![field] + after,
        ) == forwarded(capture, before + after) && captured(capture, before + seq![field] + after)
            == captured(capture, before) + seq![(claim_of(capture, field.0)->0, field.1)]
            + captured(capture, after) && captured(capture, before + after) == captured(
            capture,
            before,
        ) + captured(capture, after),
{
    routing_of_one(capture, field);
    routing_of_parts(capture, before, seq![field], None);
    routing_of_parts(capture, before + seq![field], after, None);
    routing_of_parts(capture, before, after, None);
    if failure(capture, before + seq![field] + after, None) is None {
        assert(forwarded(capture, before) + Seq::<(Value, Value)>::empty() =~= forwarded(
            capture,
            before,
        ));
    }
}

/// The place of an outer field among the other keys does not matter.
///
/// Take a record and an entry that the capture claims, and put the entry
/// into the record at one place or at another. If the pass over the one
/// record does not fail, the pass over the other does not either; the
/// nested record is shown the same entries in the same order, and the
/// capture is sent the same values under the same tokens, each as often.
pub proof fn outer_field_may_stand_anywhere<C: KeyCapture>(
    capture: &C,
    field: (Value, Value),
    before: Seq<(Value, Value)>,
    after: Seq<(Value, Value)>,
    before_too: Seq<(Value, Value)>,
    after_too: Seq<(Value, Value)>,
)
    requires
        before + after == before_too + after_too,
        claim_of(capture, field.0) is Some,
        failure(capture, before + seq![field] + after, None) is None,
    ensures
        failure(capture, before_too + seq![field] + after_too, None) is None,
        forwarded(capture, before + seq![field] + after) == forwarded(
            capture,
            before_too + seq![field] + after_too,
        ),
        captured(capture, before + seq![field] + after).to_multiset() == captured(
            capture,
            before_too + seq![field] + after_too,
        ).to_multiset(),
{
    let sent = seq![(claim_of(capture, field.0)->0, field.1)];
    routing_around_claimed(capture, before, field, after);
    routing_around_claimed(capture, before_too, field, after_too);
    sent_in_between(captured(capture, before), sent, captured(capture, after));
    sent_in_between(captured(capture, before_too), sent, captured(capture, after_too));
}

/// One part of a log put in between two others: the same values are sent
/// as where it comes first.
proof fn sent_in_between<T>(before: Seq<T>, part: Seq<T>, after: Seq<T>)
    ensures
        (before + part + after).to_multiset() == part.to_multiset().add(
            (before + after).to_multiset(),
        ),
{
    vstd::seq_lib::lemma_multiset_commutative(before + part, after);
    vstd::seq_lib::lemma_multiset_commutative(before, part);
    vstd::seq_lib::lemma_multiset_commutative(before, after);
    assert((before + part + after).to_multiset() =~= part.to_multiset().add(
        (before + after).to_multiset(),
    ));
}

/// The value sent last with a token, in a log of two parts: the last one in
/// the second part, else the last one in the first.
pub proof fn latest_of_parts(first: Seq<(usize, Value)>, second: Seq<(usize, Value)>, token: usize)
    ensures
        latest(first + second, token) == (match latest(second, token) {
            Some(value) => Some(value),
            None => latest(first, token),
        }),
    decreases second.len(),
{
    if second.len() == 0 {
        assert(first + second =~= first);
    } else {
        latest_of_parts(first, second.drop_last(), token);
        assert((first + second).drop_last() =~= first + second.drop_last());
        assert((first + second).last() == second.last());
    }
}

/// A token that belongs to no key of a record is not among the tokens of
/// what is captured from it.
proof fn no_claim_no_value(capture: &SlotCapture, entries: Seq<(Value, Value)>, token: usize)
    requires
        forall|i: int|
            0 <= i < entries.len() ==> claim_of(capture, (#[trigger] entries[i]).0) != Some(token),
    ensures
        latest(captured(capture, entries), token) is None,
    decreases entries.len(),
{
    if entries.len() > 0 {
        let rest = entries.drop_first();
        assert forall|i: int| 0 <= i < rest.len() implies claim_of(
            capture,
            (#[trigger] rest[i]).0,
        ) != Some(token) by {
            assert(rest[i] == entries[i + 1]);
        }
        no_claim_no_value(capture, rest, token);
        assert(claim_of(capture, entries[0].0) != Some(token));
        match claim_of(capture, entries[0].0) {
            Some(other) => {
                if SlotCapture::refusal(capture.schema(), other, entries[0].1) is None {
                    latest_of_parts(seq![(other, entries[0].1)], captured(capture, rest), token);
                    let one = seq![(other, entries[0].1)];
                    assert(one.drop_last() =~= Seq::<(usize, Value)>::empty());
                    assert(latest(one.drop_last(), token) is None);
                }
            },
            None => {},
        }
    }
}

/// A field is captured alike wherever it stands in the record.
///
/// Take a record in which no key is that of a given field of the capture,
/// and an entry for that field, and put the entry into the record at one
/// place or at another. After a pass that does not fail, the slot of every
/// field holds the same value in both cases: that of the entry for the
/// field itself, and for any other field what the record alone gives it.
pub proof fn captured_value_does_not_depend_on_place(
    capture: &SlotCapture,
    field: (Value, Value),
    before: Seq<(Value, Value)>,
    after: Seq<(Value, Value)>,
    before_too: Seq<(Value, Value)>,
    after_too: Seq<(Value, Value)>,
    slot: usize,
)
    requires
        before + after == before_too + after_too,
        claim_of(capture, field.0) is Some,
        forall|i: int|
            0 <= i < (before + after).len() ==> claim_of(capture, (#[trigger] (before + after)[i]).0)
                != claim_of(capture, field.0),
        failure(capture, before + seq![field] + after, None) is None,
    ensures
        latest(capture.stored() + captured(capture, before + seq![field] + after), slot) == latest(
            capture.stored() + captured(capture, before_too + seq![field] + after_too),
            slot,
        ),
        latest(capture.stored() + captured(capture, before + seq![field] + after), slot) == (if Some(
            slot,
        ) == claim_of(capture, field.0) {
            Some(field.1)
        } else {
            latest(capture.stored() + captured(capture, before + after), slot)
        }),
{
    routing_around_claimed(capture, before, field, after);
    routing_around_claimed(capture, before_too, field, after_too);
    slot_after_field(capture, field, before, after, slot);
    slot_after_field(capture, field, before_too, after_too, slot);
}

/// The outer record comes out alike wherever one of its fields stands.
///
/// Take a record in which no key is that of a given field of the capture,
/// and an entry for that field, and put the entry into the record at one
/// place or at another. If the pass does not fail, the nested record is
/// shown the same entries in both cases, and the fields of the capture
/// settle on the same values or on the same failure.
pub proof fn outer_record_does_not_depend_on_place(
    capture: &SlotCapture,
    field: (Value, Value),
    before: Seq<(Value, Value)>,
    after: Seq<(Value, Value)>,
    before_too: Seq<(Value, Value)>,
    after_too: Seq<(Value, Value)>,
    result: Result<Vec<Value>, Error>,
)
    requires
        before + after == before_too + after_too,
        claim_of(capture, field.0) is Some,
        forall|i: int|
            0 <= i < (before + after).len() ==> claim_of(capture, (#[trigger] (before + after)[i]).0)
                != claim_of(capture, field.0),
        failure(capture, before + seq![field] + after, None) is None,
    ensures
        forwarded(capture, before + seq![field] + after) == forwarded(
            capture,
            before_too + seq![field] + after_too,
        ),
        settled(
            capture.fields(),
            capture.stored() + captured(capture, before + seq![field] + after),
            result,
        ) == settled(
            capture.fields(),
            capture.stored() + captured(capture, before_too + seq![field] + after_too),
            result,
        ),
{
    outer_field_may_stand_anywhere(capture, field, before, after, before_too, after_too);
    let log = capture.stored() + captured(capture, before + seq![field] + after);
    let other = capture.stored() + captured(capture, before_too + seq![field] + after_too);
    assert forall|token: usize| latest(log, token) == latest(other, token) by {
        captured_value_does_not_depend_on_place(
            capture,
            field,
            before,
            after,
            before_too,
            after_too,
            token,
        );
    }
    settled_by_slots(capture.fields(), log, other, result);
}

/// The slots after a pass over a record with one entry for a field that
/// has no other.
proof fn slot_after_field(
    capture: &SlotCapture,
    field: (Value, Value),
    before: Seq<(Value, Value)>,
    after: Seq<(Value, Value)>,
    slot: usize,
)
    requires
        claim_of(capture, field.0) is Some,
        forall|i: int|
            0 <= i < (before + after).len() ==> claim_of(capture, (#[trigger] (before + after)[i]).0)
                != claim_of(capture, field.0),
        failure(capture, before + seq![field] + after, None) is None,
    ensures
        latest(capture.stored() + captured(capture, before + seq![field] + after), slot) == (if Some(
            slot,
        ) == claim_of(capture, field.0) {
            Some(field.1)
        } else {
            latest(capture.stored() + captured(capture, before + after), slot)
        }),
{
    let token = claim_of(capture, field.0)->0;
    let head = captured(capture, before);
    let tail = captured(capture, after);
    let one = seq![(token, field.1)];
    routing_around_claimed(capture, before, field, after);
    assert(capture.stored() + (head + one + tail) =~= (capture.stored() + head + one) + tail);
    assert(capture.stored() + (head + tail) =~= (capture.stored() + head) + tail);
    latest_of_parts(capture.stored() + head + one, tail, slot);
    latest_of_parts(capture.stored() + head, tail, slot);
    latest_of_parts(capture.stored() + head, one, slot);
    assert(one.drop_last() =~= Seq::<(usize, Value)>::empty());
    assert(latest(one.drop_last(), slot) is None);
    if slot == token {
        assert forall|i: int| 0 <= i < after.len() implies claim_of(
            capture,
            (#[trigger] after[i]).0,
        ) != Some(token) by {
            assert((before + after)[before.len() + i] == after[i]);
        }
        no_claim_no_value(capture, after, token);
    }
}

/// Decoding the same record again gives the same.
///
/// Two passes over one record, with captures that start alike and the same
/// visitor for the nested record: if both succeed, the captures end up
/// holding the same values in the same order. Where the visitor makes but
/// one thing of what it is shown, both passes succeed or both fail, with
/// the same value for the nested record or with the same failure.
pub proof fn redecoding_agrees<V: Visitor, C: KeyCapture>(
    visitor: &V,
    capture: &C,
    entries: Seq<(Value, Value)>,
    fault: Option<Fault>,
    once: Result<(V::Value, C), Error>,
    again: Result<(V::Value, C), Error>,
)
    requires
        flattened(visitor, capture, entries, fault, once),
        flattened(visitor, capture, entries, fault, again),
    ensures
        once is Ok && again is Ok ==> once->Ok_0.1.stored() == again->Ok_0.1.stored(),
        (forall|a: Result<V::Value, Error>, b: Result<V::Value, Error>|
            visitor.yields(
                forwarded(capture, entries),
                failure(capture, entries, fault),
                a,
            ) && visitor.yields(forwarded(capture, entries), failure(capture, entries, fault), b)
                ==> a == b) ==> {
            &&& once is Ok <==> again is Ok
            &&& once is Ok ==> once->Ok_0.0 == again->Ok_0.0
            &&& once is Err ==> once->Err_0 == again->Err_0
        },
{
}

/// Decoding the same record again into the same named fields gives the
/// same values.
pub proof fn struct_redecoding_agrees(
    visitor: &StructVisitor,
    entries: Seq<(Value, Value)>,
    fault: Option<Fault>,
    once: Result<Vec<Value>, Error>,
    again: Result<Vec<Value>, Error>,
)
    requires
        visitor.yields(entries, fault, once),
        visitor.yields(entries, fault, again),
    ensures
        once is Ok <==> again is Ok,
        once is Ok ==> once->Ok_0@ == again->Ok_0@,
        once is Err ==> once->Err_0 == again->Err_0,
{
    if failure(&visitor.capture(), entries, fault) is None {
        settled_once(
            visitor.capture().fields(),
            visitor.capture().stored() + captured(&visitor.capture(), entries),
            once,
            again,
        );
    }
}

/// Decoding the same record again, with named fields for the nested record,
/// gives the same: both passes succeed or both fail; if they succeed, the
/// nested record has the same values and the captures hold the same; if
/// they fail, they fail alike.
pub proof fn redecoding_into_fields_agrees<C: KeyCapture>(
    visitor: &StructVisitor,
    capture: &C,
    entries: Seq<(Value, Value)>,
    fault: Option<Fault>,
    once: Result<(Vec<Value>, C), Error>,
    again: Result<(Vec<Value>, C), Error>,
)
    requires
        flattened(visitor, capture, entries, fault, once),
        flattened(visitor, capture, entries, fault, again),
    ensures
        once is Ok <==> again is Ok,
        once is Ok ==> once->Ok_0.0@ == again->Ok_0.0@ && once->Ok_0.1.stored()
            == again->Ok_0.1.stored(),
        once is Err ==> once->Err_0 == again->Err_0,
{
    let shown = forwarded(capture, entries);
    let end = failure(capture, entries, fault);
    let first = inner_result(visitor, shown, end, once);
    let second = inner_result(visitor, shown, end, again);
    struct_redecoding_agrees(visitor, shown, end, first, second);
}

/// What the visitor of the nested record made of what it was shown, in a
/// pass that gave `result`.
proof fn inner_result<C: KeyCapture>(
    visitor: &StructVisitor,
    shown: Seq<(Value, Value)>,
    end: Option<Fault>,
    result: Result<(Vec<Value>, C), Error>,
) -> (inner: Result<Vec<Value>, Error>)
    requires
        match result {
            Ok((value, _)) => visitor.yields(shown, end, Ok(value)) && end is None,
            Err(e) => visitor.yields(shown, end, Err(e)) || (end is Some && end->0.error() == e
                && exists|value: Vec<Value>| #[trigger] visitor.yields(shown, end, Ok(value))),
        },
    ensures
        visitor.yields(shown, end, inner),
        result matches Ok((value, _)) ==> inner == Ok::<Vec<Value>, Error>(value) && end is None,
        result matches Err(e) ==> inner == Err::<Vec<Value>, Error>(e) || (inner is Ok && end
            is Some && end->0.error() == e),
{
    match result {
        Ok((value, _)) => Ok(value),
        Err(e) => {
            if visitor.yields(shown, end, Err(e)) {
                Err(e)
            } else {
                Ok(choose|value: Vec<Value>| #[trigger] visitor.yields(shown, end, Ok(value)))
            }
        },
    }
}

/// An entry that a capture does not claim makes no difference to it.
///
/// With such an entry put into a record at any place, the capture is sent
/// what it is sent without it, and the pass fails as it does without it. The
/// entry itself is forwarded, in its place among the others.
pub proof fn free_entry_passes_by<C: KeyCapture>(
    capture: &C,
    entry: (Value, Value),
    before: Seq<(Value, Value)>,
    after: Seq<(Value, Value)>,
    fault: Option<Fault>,
)
    requires
        claim_of(capture, entry.0) is None,
    ensures
        captured(capture, before + seq![entry] + after) == captured(capture, before + after),
        failure(capture, before + seq![entry] + after, fault) == failure(
            capture,
            before + after,
            fault,
        ),
        forwarded(capture, before + seq![entry] + after) == (if failure(capture, before, None)
            is None {
            forwarded(capture, before) + seq![entry] + forwarded(capture, after)
        } else {
            forwarded(capture, before)
        }),
        forwarded(capture, before + after) == (if failure(capture, before, None) is None {
            forwarded(capture, before) + forwarded(capture, after)
        } else {
            forwarded(capture, before)
        }),
{
    routing_of_one(capture, entry);
    routing_of_parts(capture, before, seq![entry], None);
    routing_of_parts(capture, before, seq![entry], fault);
    routing_of_parts(capture, before + seq![entry], after, fault);
    routing_of_parts(capture, before, after, fault);
    if failure(capture, before, None) is None {
        assert(captured(capture, before) + Seq::<(C::Token, Value)>::empty() =~= captured(
            capture,
            before,
        ));
    }
}

/// A key that belongs to no field of a record of named fields is passed
/// over: with an entry under such a key put into the input at any place, the
/// record comes out as it does without it.
pub proof fn unknown_key_is_passed_over(
    visitor: &StructVisitor,
    entry: (Value, Value),
    before: Seq<(Value, Value)>,
    after: Seq<(Value, Value)>,
    fault: Option<Fault>,
    result: Result<Vec<Value>, Error>,
)
    requires
        claim_of(&visitor.capture(), entry.0) is None,
    ensures
        visitor.yields(before + seq![entry] + after, fault, result) == visitor.yields(
            before + after,
            fault,
            result,
        ),
{
    free_entry_passes_by(&visitor.capture(), entry, before, after, fault);
}

/// A key that neither the outer record nor the nested record knows is
/// dropped without a failure: with an entry under such a key put into the
/// source at any place, the pass gives what it gives without it.
pub proof fn key_unknown_to_both_is_dropped<C: KeyCapture>(
    visitor: &StructVisitor,
    capture: &C,
    entry: (Value, Value),
    before: Seq<(Value, Value)>,
    after: Seq<(Value, Value)>,
    fault: Option<Fault>,
    result: Result<(Vec<Value>, C), Error>,
)
    requires
        claim_of(capture, entry.0) is None,
        claim_of(&visitor.capture(), entry.0) is None,
    ensures
        flattened(visitor, capture, before + seq![entry] + after, fault, result) == flattened(
            visitor,
            capture,
            before + after,
            fault,
            result,
        ),
{
    free_entry_passes_by(capture, entry, before, after, fault);
    let end = failure(capture, before + after, fault);
    let with = forwarded(capture, before + seq![entry] + after);
    let without = forwarded(capture, before + after);
    assert forall|inner: Result<Vec<Value>, Error>| #[trigger]
        visitor.yields(with, end, inner) == visitor.yields(without, end, inner) by {
        if failure(capture, before, None) is None {
            unknown_key_is_passed_over(
                visitor,
                entry,
                forwarded(capture, before),
                forwarded(capture, after),
                end,
                inner,
            );
        }
    }
    match result {
        Ok((value, filled)) => {
            assert(visitor.yields(with, end, Ok(value)) == visitor.yields(without, end, Ok(value)));
        },
        Err(e) => {
            assert(visitor.yields(with, end, Err(e)) == visitor.yields(without, end, Err(e)));
            if exists|value: Vec<Value>| #[trigger] visitor.yields(with, end, Ok(value)) {
                let value = choose|value: Vec<Value>| #[trigger]
                    visitor.yields(with, end, Ok(value));
                assert(visitor.yields(without, end, Ok(value)));
            }
            if exists|value: Vec<Value>| #[trigger] visitor.yields(without, end, Ok(value)) {
                let value = choose|value: Vec<Value>| #[trigger]
                    visitor.yields(without, end, Ok(value));
                assert(visitor.yields(with, end, Ok(value)));
            }
        },
    }
}

/// A field that no key of the input names comes to its default, or fails
/// the record where it has none: after a pass that started with empty slots
/// its slot is empty.
pub proof fn absent_field_takes_default_or_fails(
    capture: &SlotCapture,
    entries: Seq<(Value, Value)>,
    token: usize,
)
    requires
        capture.stored().len() == 0,
        token < capture.fields().len(),
        forall|i: int|
            0 <= i < entries.len() ==> claim_of(capture, (#[trigger] entries[i]).0) != Some(token),
    ensures
        latest(capture.stored() + captured(capture, entries), token) is None,
        resolved(
            capture.fields()[token as int],
            latest(capture.stored() + captured(capture, entries), token),
        ) == (match capture.fields()[token as int].default {
            Some(value) => Ok::<Value, Error>(value),
            None => Err::<Value, Error>(Error::MissingField(capture.fields()[token as int].name)),
        }),
{
    no_claim_no_value(capture, entries, token);
    assert(capture.stored() + captured(capture, entries) =~= captured(capture, entries));
}

} // verus!
