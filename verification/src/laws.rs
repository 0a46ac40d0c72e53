//! Laws of the store, proved about its mathematical model.
//!
//! Every executable operation is specified as a function of the model, so what
//! is proved here of the model holds of the store as it runs.

use vstd::prelude::*;
use crate::codec::{decoding, encoding, lemma_decode_encode, record_fits};
use crate::model::{matcher, Field, Operation, StoreState};
use crate::record::{GreenSpaceView, PayloadView};
use crate::text::{contains_text, lemma_empty_query_matches};

verus! {

/// Round-trip: a record that can be stored is read back from its stored form
/// unchanged, and bytes that are the stored form of a record are written back
/// from that record unchanged.
pub proof fn law_stored_form_round_trips(record: GreenSpaceView, bytes: Seq<u8>)
    ensures
        record_fits(record) ==> decoding(encoding(record)) == Some(record),
        decoding(bytes) matches Some(read) ==> encoding(read) == bytes && record_fits(read),
{
    if record_fits(record) {
        lemma_decode_encode(record);
    }
}

/// Every operation keeps the invariant of the store, and none turns the
/// allocator's counter back.
pub proof fn law_operations_keep_invariant(s: StoreState, op: Operation)
    requires
        s.inv(),
        s.permits(op),
    ensures
        s.apply(op).inv(),
        s.apply(op).counter >= s.counter,
{
}

/// A run of accepted operations keeps the invariant of the store.
pub proof fn law_runs_keep_invariant(s: StoreState, ops: Seq<Operation>)
    requires
        s.inv(),
        s.permits_all(ops),
    ensures
        s.run(ops).inv(),
    decreases ops.len(),
{
    if ops.len() > 0 {
        let before = ops.drop_last();
        assert forall|k: int| 0 <= k < before.len() implies #[trigger] s.run(
            before.take(k),
        ).permits(before[k]) by {
            assert(before.take(k) =~= ops.take(k));
        }
        law_runs_keep_invariant(s, before);
        law_operations_keep_invariant(s.run(before), ops.last());
    }
}

/// The counter never decreases along a run of accepted operations.
proof fn lemma_counter_grows(s: StoreState, ops: Seq<Operation>, from: int, to: int)
    requires
        s.permits_all(ops),
        0 <= from <= to <= ops.len(),
    ensures
        s.run(ops.take(from)).counter <= s.run(ops.take(to)).counter,
    decreases to - from,
{
    if from < to {
        lemma_counter_grows(s, ops, from, to - 1);
        assert(ops.take(to).drop_last() =~= ops.take(to - 1));
        assert(s.run(ops.take(to - 1)).permits(ops[to - 1]));
    }
}

/// Monotonicity: along any run of accepted operations, each identifier that is
/// handed back as newly assigned is strictly greater than every identifier
/// handed back earlier, whatever else was done to the store in between.
pub proof fn law_ids_strictly_increase(s: StoreState, ops: Seq<Operation>, earlier: int, later: int)
    requires
        s.permits_all(ops),
        0 <= earlier < later < ops.len(),
        s.issued_at(ops, earlier) is Some,
        s.issued_at(ops, later) is Some,
    ensures
        s.issued_at(ops, earlier).unwrap() < s.issued_at(ops, later).unwrap(),
{
    assert(s.run(ops.take(later)).permits(ops[later]));
    assert(ops.take(earlier + 1).drop_last() =~= ops.take(earlier));
    lemma_counter_grows(s, ops, earlier + 1, later);
}

/// Uniqueness: along any run of accepted operations, no identifier is handed
/// back as newly assigned twice.
pub proof fn law_ids_are_distinct(s: StoreState, ops: Seq<Operation>, one: int, other: int)
    requires
        s.permits_all(ops),
        0 <= one < ops.len(),
        0 <= other < ops.len(),
        one != other,
        s.issued_at(ops, one) is Some,
        s.issued_at(ops, other) is Some,
    ensures
        s.issued_at(ops, one).unwrap() != s.issued_at(ops, other).unwrap(),
{
    if one < other {
        law_ids_strictly_increase(s, ops, one, other);
    } else {
        law_ids_strictly_increase(s, ops, other, one);
    }
}

/// An identifier is never reused: the one an add assigns is held by no record
/// of the store, whether or not records were deleted before.
pub proof fn law_added_id_is_fresh(s: StoreState, payload: PayloadView)
    requires
        s.inv(),
        s.can_allocate(),
    ensures
        !s.records.contains_key(s.next_id()),
        s.added(payload) matches Some(record) ==> s.add(payload).count() == s.count() + 1,
{
}

/// Get-after-add: once an add has created a record, looking up the record's
/// identifier gives that very record.
pub proof fn law_get_after_add(s: StoreState, payload: PayloadView)
    requires
        s.added(payload) is Some,
    ensures
        s.add(payload).get(s.added(payload).unwrap().id) == s.added(payload),
{
}

/// Delete-then-get: once a record was deleted, looking up its identifier finds
/// nothing, and the store holds exactly one record fewer.
pub proof fn law_delete_then_get(s: StoreState, id: u64)
    requires
        s.inv(),
        s.get(id) is Some,
    ensures
        s.delete(id).get(id) is None,
        s.delete(id).count() == s.count() - 1,
{
}

/// The listing of a store holds a record exactly if the store files it under
/// its identifier, and lists the records in strictly ascending order of
/// identifier.
pub proof fn law_listing_holds_the_records(s: StoreState)
    requires
        s.inv(),
    ensures
        s.is_listing(s.listing()),
        forall|record: GreenSpaceView|
            s.listing().contains(record) <==> s.get(record.id) == Some(record),
{
    s.lemma_listing_exists();
}

/// Filtering keeps a listing in ascending order of identifier.
proof fn lemma_filter_keeps_order(list: Seq<GreenSpaceView>, keep: spec_fn(GreenSpaceView) -> bool)
    requires
        forall|i: int, j: int| 0 <= i < j < list.len() ==> list[i].id < list[j].id,
    ensures
        forall|i: int, j: int|
            0 <= i < j < list.filter(keep).len() ==> list.filter(keep)[i].id < list.filter(
                keep,
            )[j].id,
        forall|i: int|
            0 <= i < list.filter(keep).len() ==> list.contains(#[trigger] list.filter(keep)[i]),
    decreases list.len(),
{
    reveal(Seq::filter);
    if list.len() > 0 {
        let rest = list.drop_last();
        lemma_filter_keeps_order(rest, keep);
        let kept = rest.filter(keep);
        assert forall|i: int| 0 <= i < kept.len() implies kept[i].id < list.last().id by {
            assert(rest.contains(kept[i]));
            let k = choose|k: int| 0 <= k < rest.len() && rest[k] == kept[i];
            assert(list[k] == kept[i]);
        }
        assert forall|i: int| 0 <= i < list.filter(keep).len() implies list.contains(
            #[trigger] list.filter(keep)[i],
        ) by {
            if i < kept.len() {
                let k = choose|k: int| 0 <= k < rest.len() && rest[k] == kept[i];
                assert(list[k] == kept[i]);
            } else {
                assert(list[list.len() - 1] == list.filter(keep)[i]);
            }
        }
    }
}

/// Search containment: a search returns exactly those records of the listing
/// whose searched field contains the query, in the order of the listing.
pub proof fn law_search_is_filtered_listing(s: StoreState, field: Field, query: Seq<char>)
    requires
        s.inv(),
    ensures
        forall|record: GreenSpaceView|
            s.search(field, query).contains(record) <==> s.listing().contains(record)
                && contains_text(field.of(record), query),
        forall|i: int, j: int|
            0 <= i < j < s.search(field, query).len() ==> s.search(field, query)[i].id < s.search(
                field,
                query,
            )[j].id,
{
    s.lemma_listing_exists();
    let list = s.listing();
    let keep = matcher(field, query);
    let found = s.search(field, query);
    lemma_filter_keeps_order(list, keep);
    assert forall|record: GreenSpaceView| found.contains(record) implies list.contains(record)
        && contains_text(field.of(record), query) by {
        let i = choose|i: int| 0 <= i < found.len() && found[i] == record;
        list.lemma_filter_pred(keep, i);
        list.lemma_filter_contains_rev(keep, record);
    }
    assert forall|record: GreenSpaceView|
        list.contains(record) && contains_text(field.of(record), query) implies found.contains(
        record,
    ) by {
        let i = choose|i: int| 0 <= i < list.len() && list[i] == record;
        list.lemma_filter_contains(keep, i);
    }
}

/// A sequence filtered by a test that all its elements pass is unchanged.
proof fn lemma_filter_all(list: Seq<GreenSpaceView>, keep: spec_fn(GreenSpaceView) -> bool)
    requires
        forall|i: int| 0 <= i < list.len() ==> keep(#[trigger] list[i]),
    ensures
        list.filter(keep) == list,
    decreases list.len(),
{
    reveal(Seq::filter);
    if list.len() > 0 {
        lemma_filter_all(list.drop_last(), keep);
    }
}

/// The empty query finds every record: a search for it returns the listing.
pub proof fn law_empty_query_finds_all(s: StoreState, field: Field)
    ensures
        s.search(field, Seq::<char>::empty()) == s.listing(),
{
    let list = s.listing();
    let keep = matcher(field, Seq::<char>::empty());
    assert forall|i: int| 0 <= i < list.len() implies keep(#[trigger] list[i]) by {
        lemma_empty_query_matches(field.of(list[i]));
    }
    lemma_filter_all(list, keep);
}

/// Idempotent update-location: setting the location of a record twice in a
/// row leaves the store as setting it once does and hands back the same
/// record both times, and a lookup after either call shows the new location
/// with every other field as it was.
pub proof fn law_update_location_is_idempotent(s: StoreState, id: u64, location: Seq<char>)
    requires
        s.inv(),
    ensures
        s.update_location(id, location).update_location(id, location) == s.update_location(
            id,
            location,
        ),
        s.get(id) matches Some(record) ==> ({
            let once = s.update_location(id, location);
            let twice = once.update_location(id, location);
            &&& once.get(id) == Some(record.with_location(location))
            &&& twice.get(id) == Some(record.with_location(location))
            &&& once.records[id].with_location(location) == record.with_location(location)
            &&& record.with_location(location).location == location
            &&& record.with_location(location).id == record.id
            &&& record.with_location(location).name == record.name
            &&& record.with_location(location).description == record.description
        }),
{
}

} // verus!
