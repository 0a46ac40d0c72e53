//! The durable structures the store is kept in.
//!
//! The counter lives in a stable cell and the records in a stable B-tree map,
//! each in a region of its own of the partitioned stable memory. These
//! structures are not verified here: every item of this module states, without
//! proof, what the structure underneath does. Everything else in the library is
//! proved against these statements.
//!
//! The statements describe each structure by the value it holds, so they are
//! true only while a region backs one structure at a time. On a canister every
//! opening reaches the same stable memory, so a canister opens the regions
//! once.

use vstd::prelude::*;
use ic_stable_structures::memory_manager::{MemoryId, MemoryManager, VirtualMemory};
use ic_stable_structures::{DefaultMemoryImpl, StableBTreeMap, StableCell};

verus! {

/// The stable memory, partitioned into independently growing regions
/// (`MemoryManager<DefaultMemoryImpl>`).
#[verifier::external_body]
pub struct MemoryRegions {
    inner: MemoryManager<DefaultMemoryImpl>,
}

/// One region of the partitioned memory (`VirtualMemory<DefaultMemoryImpl>`).
#[verifier::external_body]
pub struct Region {
    inner: VirtualMemory<DefaultMemoryImpl>,
}

/// A stable cell that holds one `u64` (`Cell<u64, _>`).
#[verifier::external_body]
pub struct CounterCell {
    inner: StableCell<u64, VirtualMemory<DefaultMemoryImpl>>,
}

/// A stable B-tree map from `u64` keys to byte strings (`BTreeMap<u64, Vec<u8>, _>`).
#[verifier::external_body]
pub struct RecordMap {
    inner: StableBTreeMap<u64, Vec<u8>, VirtualMemory<DefaultMemoryImpl>>,
}

/// The number a counter cell holds.
pub uninterp spec fn cell_value(cell: CounterCell) -> u64;

/// The entries a record map holds.
pub uninterp spec fn map_entries(map: RecordMap) -> Map<u64, Seq<u8>>;

/// Whether `listed` holds exactly the entries of `entries`, in ascending order
/// of key.
pub open spec fn lists_in_key_order(listed: Seq<(u64, Vec<u8>)>, entries: Map<u64, Seq<u8>>) -> bool {
    &&& forall|i: int, j: int| 0 <= i < j < listed.len() ==> listed[i].0 < listed[j].0
    &&& forall|i: int|
        0 <= i < listed.len() ==> entries.contains_key(#[trigger] listed[i].0) && entries[listed[i].0]
            == listed[i].1@
    &&& forall|key: u64| #[trigger]
        entries.contains_key(key) ==> exists|i: int| 0 <= i < listed.len() && listed[i].0 == key
}

/// `MemoryManager::init` on `DefaultMemoryImpl::default()`: opens the stable
/// memory and partitions it, keeping a partition that is already there.
/// Nothing is claimed of what the memory holds; a partition laid out by an
/// unknown version stops the program.
#[verifier::external_body]
pub(crate) fn open_regions() -> MemoryRegions {
    MemoryRegions { inner: MemoryManager::init(DefaultMemoryImpl::default()) }
}

/// `MemoryManager::get` with `MemoryId::new(id)`: the region with the given
/// number. `MemoryId::new` refuses 255, which is left out here.
#[verifier::external_body]
pub(crate) fn region(regions: &MemoryRegions, id: u8) -> Region
    requires
        id < 255,
{
    Region { inner: regions.inner.get(MemoryId::new(id)) }
}

/// `Cell::new`: a cell in `region` that holds `value`, whatever the region
/// held before. It stops the program only if the memory cannot grow.
#[verifier::external_body]
pub(crate) fn counter_new(region: Region, value: u64) -> (cell: CounterCell)
    ensures
        cell_value(cell) == value,
{
    CounterCell { inner: StableCell::new(region.inner, value) }
}

/// `Cell::init`: the cell that `region` already holds, or a new one with
/// `default` where it holds none. Nothing is claimed of the value, which
/// depends on the memory; a cell laid out by an unknown version stops the
/// program.
#[verifier::external_body]
pub(crate) fn counter_init(region: Region, default: u64) -> CounterCell {
    CounterCell { inner: StableCell::init(region.inner, default) }
}

/// `Cell::get`: the value the cell holds.
#[verifier::external_body]
pub(crate) fn counter_get(cell: &CounterCell) -> (value: u64)
    ensures
        value == cell_value(*cell),
{
    *cell.inner.get()
}

/// `Cell::set`: the cell holds `value` afterwards. A `u64` always fits the
/// space the cell already has, so the write does not fail.
#[verifier::external_body]
pub(crate) fn counter_set(cell: &mut CounterCell, value: u64)
    ensures
        cell_value(*final(cell)) == value,
{
    cell.inner.set(value);
}

/// `BTreeMap::new`: an empty map in `region`, whatever the region held before.
#[verifier::external_body]
pub(crate) fn records_new(region: Region) -> (records: RecordMap)
    ensures
        map_entries(records).dom() == Set::<u64>::empty(),
{
    RecordMap { inner: StableBTreeMap::new(region.inner) }
}

/// `BTreeMap::init`: the map that `region` already holds, or an empty one
/// where it holds none. Nothing is claimed of the entries, which depend on the
/// memory; a map laid out by an unknown version stops the program.
#[verifier::external_body]
pub(crate) fn records_init(region: Region) -> RecordMap {
    RecordMap { inner: StableBTreeMap::init(region.inner) }
}

/// `BTreeMap::get`: the value stored under `key`, if there is one.
#[verifier::external_body]
pub(crate) fn records_get(map: &RecordMap, key: u64) -> (value: Option<Vec<u8>>)
    ensures
        (match value {
            Some(bytes) => map_entries(*map).contains_key(key) && map_entries(*map)[key] == bytes@,
            None => !map_entries(*map).contains_key(key),
        }),
{
    map.inner.get(&key)
}

/// `BTreeMap::insert`: `value` is stored under `key`, in place of what was
/// there; every other entry stays. It stops the program only if the memory
/// cannot grow.
#[verifier::external_body]
pub(crate) fn records_insert(map: &mut RecordMap, key: u64, value: Vec<u8>)
    ensures
        map_entries(*final(map)) == map_entries(*old(map)).insert(key, value@),
{
    map.inner.insert(key, value);
}

/// `BTreeMap::remove`: the entry under `key` is gone afterwards; every other
/// entry stays. The value that was removed is returned.
#[verifier::external_body]
pub(crate) fn records_remove(map: &mut RecordMap, key: u64) -> (previous: Option<Vec<u8>>)
    ensures
        map_entries(*final(map)) == map_entries(*old(map)).remove(key),
        (match previous {
            Some(bytes) => map_entries(*old(map)).contains_key(key) && map_entries(*old(map))[key]
                == bytes@,
            None => !map_entries(*old(map)).contains_key(key),
        }),
{
    map.inner.remove(&key)
}

/// `BTreeMap::len`: the number of entries.
#[verifier::external_body]
pub(crate) fn records_len(map: &RecordMap) -> (len: u64)
    ensures
        len == map_entries(*map).dom().len(),
{
    map.inner.len()
}

/// `BTreeMap::iter`, collected: every entry of the map once, sorted by key.
#[verifier::external_body]
pub(crate) fn records_to_vec(map: &RecordMap) -> (listed: Vec<(u64, Vec<u8>)>)
    ensures
        lists_in_key_order(listed@, map_entries(*map)),
{
    map.inner.iter().map(|entry| entry.into_pair()).collect()
}

} // verus!
