//! The record store: the identifier allocator and the durable map of records,
//! with the operations a caller can ask of them.

use vstd::prelude::*;
use crate::codec::{decoding, lemma_encode_decode, record_fits, texts_fit_in_record};
use crate::model::{matcher, Field, Operation, StoreState};
use crate::record::{
    delete_failure_text, get_failure_text, not_found, update_failure_text,
    update_location_failure_text, validate_green_space, views_of, Error, GreenSpace,
    GreenSpaceUpdatePayload, GreenSpaceView,
};
use crate::text::{chars_contain, chars_of};
use crate::stable::{
    cell_value, counter_get, counter_init, counter_new, counter_set,
    map_entries, open_regions, records_get, records_init, records_insert, records_len,
    records_new, records_remove, records_to_vec, region, CounterCell, RecordMap,
};

verus! {

/// Number of the memory region that holds the counter.
pub const COUNTER_REGION: u8 = 0;

/// Number of the memory region that holds the records.
pub const RECORDS_REGION: u8 = 1;

/// The records and the allocator's counter, both kept in stable memory.
///
/// A canister keeps one store: two stores opened over the same stable memory
/// would each overwrite what the other holds.
pub struct GreenSpaceStore {
    counter: CounterCell,
    records: RecordMap,
}

/// The records that the stored byte strings stand for.
pub open spec fn decoded(entries: Map<u64, Seq<u8>>) -> Map<u64, GreenSpaceView> {
    Map::new(|id: u64| entries.contains_key(id), |id: u64| decoding(entries[id]).unwrap())
}

impl View for GreenSpaceStore {
    type V = StoreState;

    closed spec fn view(&self) -> StoreState {
        StoreState {
            counter: cell_value(self.counter),
            records: decoded(map_entries(self.records)),
        }
    }
}

impl GreenSpaceStore {
    /// Every stored byte string is the stored form of a record.
    pub closed spec fn stored_well(&self) -> bool {
        forall|id: u64| #[trigger]
            map_entries(self.records).contains_key(id) ==> decoding(map_entries(self.records)[id])
                is Some
    }

    /// The store is sound: what it holds in memory can be read, and its value
    /// keeps the invariant of the model.
    pub open spec fn wf(&self) -> bool {
        self.stored_well() && self@.inv()
    }

    /// A fresh, empty store whose allocator has issued nothing. Whatever the
    /// two memory regions held before is overwritten.
    pub fn new() -> (store: GreenSpaceStore)
        ensures
            store.wf(),
            store@ == StoreState::empty(),
    {
        let regions = open_regions();
        let counter = counter_new(region(&regions, COUNTER_REGION), 0);
        let records = records_new(region(&regions, RECORDS_REGION));
        let store = GreenSpaceStore { counter, records };
        assert(store@.records =~= Map::<u64, GreenSpaceView>::empty());
        store
    }

    /// Opens the store that the stable memory holds, as an earlier run of the
    /// program left it; a memory that holds none gives the empty store. The
    /// result is `None` when what the memory holds is not a sound store.
    pub fn restore() -> (store: Option<GreenSpaceStore>)
        ensures
            store matches Some(s) ==> s.wf(),
    {
        let regions = open_regions();
        let counter = counter_init(region(&regions, COUNTER_REGION), 0);
        let records = records_init(region(&regions, RECORDS_REGION));
        GreenSpaceStore::assemble(counter, records)
    }

    /// Makes a store of a counter cell and a map of records as they were
    /// opened. The store is made exactly if every entry of the map is sound
    /// for the value of the counter; it then holds that value and the records
    /// that the entries stand for.
    pub fn assemble(counter: CounterCell, records: RecordMap) -> (store: Option<GreenSpaceStore>)
        ensures
            store is Some <==> forall|id: u64| #[trigger]
                map_entries(records).contains_key(id) ==> entry_is_sound(
                    cell_value(counter),
                    id,
                    map_entries(records)[id],
                ),
            store matches Some(s) ==> s.wf() && s@ == (StoreState {
                counter: cell_value(counter),
                records: decoded(map_entries(records)),
            }),
    {
        let listed = records_to_vec(&records);
        let issued = counter_get(&counter);
        let ghost entries = map_entries(records);
        if entries_are_sound(issued, &listed) {
            let store = GreenSpaceStore { counter, records };
            proof {
                assert forall|id: u64| #[trigger] entries.contains_key(id) implies entry_is_sound(
                    issued,
                    id,
                    entries[id],
                ) by {
                    let i = choose|i: int| 0 <= i < listed@.len() && listed@[i].0 == id;
                    assert(entry_is_sound(issued, listed@[i].0, listed@[i].1@));
                }
                assert forall|id: u64| #[trigger] store@.records.contains_key(id) implies record_fits(
                    store@.records[id],
                ) by {
                    assert(entries.contains_key(id));
                    lemma_encode_decode(entries[id]);
                }
                let keys = listed@.map_values(|entry: (u64, Vec<u8>)| entry.0);
                assert(store@.records.dom() =~= keys.to_set()) by {
                    assert forall|id: u64| store@.records.dom().contains(id) implies keys.to_set().contains(
                        id,
                    ) by {
                        assert(entries.contains_key(id));
                        let i = choose|i: int| 0 <= i < listed@.len() && listed@[i].0 == id;
                        assert(keys[i] == id);
                    }
                    assert forall|id: u64| keys.to_set().contains(id) implies store@.records.dom().contains(
                        id,
                    ) by {
                        let i = choose|i: int| 0 <= i < keys.len() && keys[i] == id;
                        assert(entries.contains_key(listed@[i].0));
                    }
                }
                vstd::seq_lib::seq_to_set_is_finite(keys);
            }
            Some(store)
        } else {
            proof {
                let i = choose|i: int|
                    0 <= i < listed@.len() && !entry_is_sound(issued, listed@[i].0, listed@[i].1@);
                assert(entries.contains_key(listed@[i].0));
            }
            None
        }
    }

    /// The last identifier the allocator has issued; 0 before the first.
    pub fn counter(&self) -> (value: u64)
        ensures
            value == self@.counter,
    {
        counter_get(&self.counter)
    }

    /// Tests whether `payload` may be added: the allocator has an identifier
    /// left, and the record the payload would make can be stored.
    pub fn permits_add(&self, payload: &GreenSpaceUpdatePayload) -> (ok: bool)
        ensures
            ok == self@.permits(Operation::Add(payload@)),
    {
        counter_get(&self.counter) < u64::MAX && (!payload.is_valid() || payload.fits())
    }

    /// Tests whether `space` may be filed as it is: it can be stored, and the
    /// allocator has issued its identifier.
    pub fn permits_insert(&self, space: &GreenSpace) -> (ok: bool)
        ensures
            ok == self@.permits(Operation::Insert(space@)),
    {
        space.fits() && space.id <= counter_get(&self.counter)
    }

    /// Tests whether the record under `id` may take the fields of `payload`:
    /// the record they would make can be stored. Nothing stands in the way
    /// where there is no such record.
    pub fn permits_update(&self, id: u64, payload: &GreenSpaceUpdatePayload) -> (ok: bool)
        ensures
            ok == self@.permits(Operation::Update(id, payload@)),
    {
        records_get(&self.records, id).is_none() || payload.fits()
    }

    /// Tests whether the record under `id` may take `location`: the record can
    /// still be stored with it. Nothing stands in the way where there is no
    /// such record.
    pub fn permits_update_location(&self, id: u64, location: &str) -> (ok: bool)
        requires
            self.wf(),
        ensures
            ok == self@.permits(Operation::UpdateLocation(id, location@)),
    {
        match _get_green_space(self, &id) {
            Some(space) => texts_fit_in_record(
                space.name.as_str(),
                location,
                space.description.as_str(),
            ),
            None => true,
        }
    }
}

/// Whether an entry read back from memory can stand in a sound store whose
/// counter is `counter`: the bytes are the stored form of a record, the record
/// carries the key as its identifier, and the allocator has issued it.
pub open spec fn entry_is_sound(counter: u64, key: u64, bytes: Seq<u8>) -> bool {
    decoding(bytes) matches Some(record) && record.id == key && key <= counter
}

/// Tests every entry read back from memory against the counter.
pub fn entries_are_sound(counter: u64, entries: &Vec<(u64, Vec<u8>)>) -> (ok: bool)
    ensures
        ok == forall|i: int|
            0 <= i < entries@.len() ==> entry_is_sound(
                counter,
                (#[trigger] entries@[i]).0,
                entries@[i].1@,
            ),
{
    let mut i: usize = 0;
    while i < entries.len()
        invariant
            i <= entries.len(),
            forall|k: int|
                0 <= k < i ==> entry_is_sound(counter, (#[trigger] entries@[k]).0, entries@[k].1@),
        decreases entries.len() - i,
    {
        let key = entries[i].0;
        match GreenSpace::try_from_bytes(entries[i].1.as_slice()) {
            Some(record) => {
                if record.id != key || key > counter {
                    return false;
                }
            },
            None => {
                return false;
            },
        }
        i += 1;
    }
    true
}

/// Issues the next identifier: reads the counter, stores it incremented, and
/// returns the new value.
pub fn next_id(store: &mut GreenSpaceStore) -> (id: u64)
    requires
        old(store).wf(),
        old(store)@.permits(Operation::Allocate),
    ensures
        final(store).wf(),
        final(store)@ == old(store)@.allocate(),
        id == old(store)@.next_id(),
{
    let current = counter_get(&store.counter);
    let id: u64 = current + 1;
    counter_set(&mut store.counter, id);
    id
}

/// Files `space` under its identifier, in place of any record that was there.
pub fn do_insert_green_space(store: &mut GreenSpaceStore, space: &GreenSpace)
    requires
        old(store).wf(),
        old(store)@.permits(Operation::Insert(space@)),
    ensures
        final(store).wf(),
        final(store)@ == old(store)@.insert(space@),
{
    let bytes = space.to_bytes();
    records_insert(&mut store.records, space.id, bytes);
    proof {
        assert(final(store)@.records =~= old(store)@.records.insert(space.id, space@));
    }
}

/// Looks up the record filed under `id`.
pub fn _get_green_space(store: &GreenSpaceStore, id: &u64) -> (found: Option<GreenSpace>)
    requires
        store.wf(),
    ensures
        (match found {
            Some(space) => store@.get(*id) == Some(space@),
            None => store@.get(*id) is None,
        }),
{
    match records_get(&store.records, *id) {
        Some(bytes) => Some(GreenSpace::from_bytes(bytes)),
        None => None,
    }
}

/// Creates a record from `space` under a freshly issued identifier. The
/// identifier is issued first; the record is then filed only if its name,
/// location and description are all non-empty.
pub fn add_green_space(store: &mut GreenSpaceStore, space: GreenSpaceUpdatePayload) -> (created:
    Option<GreenSpace>)
    requires
        old(store).wf(),
        old(store)@.permits(Operation::Add(space@)),
    ensures
        final(store).wf(),
        final(store)@ == old(store)@.add(space@),
        (match created {
            Some(record) => old(store)@.added(space@) == Some(record@),
            None => old(store)@.added(space@) is None,
        }),
{
    let id = next_id(store);
    let green_space = GreenSpace {
        id,
        name: space.name,
        location: space.location,
        description: space.description,
    };
    if validate_green_space(&green_space) {
        do_insert_green_space(store, &green_space);
        Some(green_space)
    } else {
        None
    }
}

/// The record filed under `id`, or the not-found error.
pub fn get_green_space(store: &GreenSpaceStore, id: u64) -> (result: Result<GreenSpace, Error>)
    requires
        store.wf(),
    ensures
        (match result {
            Ok(space) => store@.get(id) == Some(space@),
            Err(e) => store@.get(id) is None && e.message() == get_failure_text(id),
        }),
{
    match _get_green_space(store, &id) {
        Some(space) => Ok(space),
        None => Err(not_found("A green space with id=", id, " not found")),
    }
}

/// Replaces the name, location and description of the record filed under
/// `id`, and returns the record as it now stands.
pub fn update_green_space(
    store: &mut GreenSpaceStore,
    id: u64,
    payload: GreenSpaceUpdatePayload,
) -> (result: Result<GreenSpace, Error>)
    requires
        old(store).wf(),
        old(store)@.permits(Operation::Update(id, payload@)),
    ensures
        final(store).wf(),
        final(store)@ == old(store)@.update(id, payload@),
        (match result {
            Ok(space) => old(store)@.records.contains_key(id) && space@ == payload@.with_id(id),
            Err(e) => !old(store)@.records.contains_key(id) && e.message() == update_failure_text(
                id,
            ),
        }),
{
    match _get_green_space(store, &id) {
        Some(mut space) => {
            space.name = payload.name;
            space.location = payload.location;
            space.description = payload.description;
            do_insert_green_space(store, &space);
            Ok(space)
        },
        None => Err(
            not_found("Couldn't update a green space with id=", id, ". Space not found"),
        ),
    }
}

/// Replaces the location of the record filed under `id`, keeps its other
/// fields, and returns the record as it now stands.
pub fn update_green_space_location(
    store: &mut GreenSpaceStore,
    id: u64,
    new_location: String,
) -> (result: Result<GreenSpace, Error>)
    requires
        old(store).wf(),
        old(store)@.permits(Operation::UpdateLocation(id, new_location@)),
    ensures
        final(store).wf(),
        final(store)@ == old(store)@.update_location(id, new_location@),
        (match result {
            Ok(space) => old(store)@.records.contains_key(id) && space@ == old(
                store,
            )@.records[id].with_location(new_location@),
            Err(e) => !old(store)@.records.contains_key(id) && e.message()
                == update_location_failure_text(id),
        }),
{
    match _get_green_space(store, &id) {
        Some(mut space) => {
            space.location = new_location;
            do_insert_green_space(store, &space);
            Ok(space)
        },
        None => Err(
            not_found(
                "Couldn't update location for green space with id=",
                id,
                ". Space not found",
            ),
        ),
    }
}

/// Removes the record filed under `id` for good and returns it.
pub fn delete_green_space(store: &mut GreenSpaceStore, id: u64) -> (result: Result<
    GreenSpace,
    Error,
>)
    requires
        old(store).wf(),
    ensures
        final(store).wf(),
        final(store)@ == old(store)@.delete(id),
        (match result {
            Ok(space) => old(store)@.get(id) == Some(space@),
            Err(e) => old(store)@.get(id) is None && e.message() == delete_failure_text(id),
        }),
{
    let removed = records_remove(&mut store.records, id);
    proof {
        assert(store@.records =~= old(store)@.records.remove(id));
    }
    match removed {
        Some(bytes) => Ok(GreenSpace::from_bytes(bytes)),
        None => Err(
            not_found("Couldn't delete a green space with id=", id, ". Space not found"),
        ),
    }
}

/// Reads every record, in ascending order of identifier.
fn load_all(store: &GreenSpaceStore) -> (all: Vec<GreenSpace>)
    requires
        store.wf(),
    ensures
        views_of(all@) == store@.listing(),
        store@.is_listing(store@.listing()),
{
    let listed = records_to_vec(&store.records);
    let ghost entries = map_entries(store.records);
    let ghost list = Seq::new(listed@.len(), |i: int| decoding(listed@[i].1@).unwrap());
    proof {
        assert forall|i: int| 0 <= i < listed@.len() implies decoding(listed@[i].1@) is Some
            && (#[trigger] list[i]).id == listed@[i].0 by {
            assert(entries.contains_key(listed@[i].0));
            assert(store@.records.contains_key(listed@[i].0));
        }
        assert forall|id: u64| #[trigger] store@.records.contains_key(id) implies exists|i: int|
            0 <= i < list.len() && list[i].id == id by {
            assert(entries.contains_key(id));
            let i = choose|i: int| 0 <= i < listed@.len() && listed@[i].0 == id;
            assert(list[i].id == id);
        }
        assert(store@.is_listing(list));
        store@.lemma_listing_is(list);
    }
    let mut all: Vec<GreenSpace> = Vec::new();
    let mut i: usize = 0;
    while i < listed.len()
        invariant
            i <= listed.len(),
            list.len() == listed@.len(),
            forall|k: int|
                0 <= k < listed@.len() ==> decoding(listed@[k].1@) == Some(#[trigger] list[k]),
            views_of(all@) == list.take(i as int),
        decreases listed.len() - i,
    {
        assert(decoding(listed@[i as int].1@) == Some(list[i as int]));
        let space = GreenSpace::try_from_bytes(listed[i].1.as_slice()).unwrap();
        all.push(space);
        proof {
            assert(views_of(all@) =~= list.take(i as int).push(list[i as int]));
            assert(list.take(i as int).push(list[i as int]) =~= list.take(i + 1));
        }
        i += 1;
    }
    proof {
        assert(list.take(list.len() as int) =~= list);
    }
    all
}

/// The text of `space` that `field` names.
fn field_text(space: &GreenSpace, field: Field) -> (text: &str)
    ensures
        text@ == field.of(space@),
{
    match field {
        Field::Name => space.name.as_str(),
        Field::Location => space.location.as_str(),
        Field::Description => space.description.as_str(),
    }
}

/// Scans every record and keeps those whose `field` contains `query`.
fn search(store: &GreenSpaceStore, field: Field, query: &str) -> (found: Vec<GreenSpace>)
    requires
        store.wf(),
    ensures
        views_of(found@) == store@.search(field, query@),
{
    let all = load_all(store);
    let needle = chars_of(query);
    let ghost list = store@.listing();
    let ghost keep = matcher(field, query@);
    let mut found: Vec<GreenSpace> = Vec::new();
    proof {
        reveal(Seq::filter);
        assert(list.take(0).filter(keep) =~= views_of(found@));
    }
    for space in it: all
        invariant
            it.seq() == all@,
            views_of(all@) == list,
            needle@ == query@,
            keep == matcher(field, query@),
            views_of(found@) == list.take(it.index()).filter(keep),
    {
        let ghost at = it.index();
        proof {
            assert(list.take(at).push(list[at]) =~= list.take(at + 1));
            Seq::lemma_filter_push(list.take(at), list[at], keep);
        }
        if chars_contain(&chars_of(field_text(&space, field)), &needle) {
            found.push(space);
            proof {
                assert(views_of(found@) =~= list.take(at).filter(keep).push(list[at]));
            }
        }
    }
    proof {
        assert(list.take(list.len() as int) =~= list);
    }
    found
}

/// Every record, in ascending order of identifier.
pub fn get_all_green_spaces(store: &GreenSpaceStore) -> (result: Result<Vec<GreenSpace>, Error>)
    requires
        store.wf(),
    ensures
        result matches Ok(all) && views_of(all@) == store@.listing(),
        store@.is_listing(store@.listing()),
{
    Ok(load_all(store))
}

/// The records whose name contains `name`, in ascending order of identifier.
pub fn search_green_spaces_by_name(store: &GreenSpaceStore, name: String) -> (result: Result<
    Vec<GreenSpace>,
    Error,
>)
    requires
        store.wf(),
    ensures
        result matches Ok(found) && views_of(found@) == store@.search(Field::Name, name@),
{
    Ok(search(store, Field::Name, name.as_str()))
}

/// The records whose description contains `keyword`, in ascending order of
/// identifier.
pub fn search_green_spaces_by_description(store: &GreenSpaceStore, keyword: String) -> (result:
    Result<Vec<GreenSpace>, Error>)
    requires
        store.wf(),
    ensures
        result matches Ok(found) && views_of(found@) == store@.search(
            Field::Description,
            keyword@,
        ),
{
    Ok(search(store, Field::Description, keyword.as_str()))
}

/// The records whose location contains `location`, in ascending order of
/// identifier.
pub fn search_green_spaces_by_location(store: &GreenSpaceStore, location: String) -> (result:
    Result<Vec<GreenSpace>, Error>)
    requires
        store.wf(),
    ensures
        result matches Ok(found) && views_of(found@) == store@.search(Field::Location, location@),
{
    Ok(search(store, Field::Location, location.as_str()))
}

/// The number of records in the store.
pub fn get_green_space_count(store: &GreenSpaceStore) -> (result: Result<u64, Error>)
    requires
        store.wf(),
    ensures
        result matches Ok(count) && count == store@.count(),
{
    proof {
        assert(store@.records.dom() =~= map_entries(store.records).dom());
    }
    Ok(records_len(&store.records))
}

} // verus!
