//! The durable layer: one backing memory split into regions, an identifier
//! cell, and ordered maps from identifier to encoded record.
//!
//! Nothing here is proved: each function calls `ic_stable_structures` and
//! states what that crate does. The statements on a cell and on a map hold
//! while it is the only structure in its region, and the manager the only one
//! over the default memory. The registry opens one manager and gives each of
//! its five structures a region of its own. A call that writes may grow the
//! memory, and the crate panics where the memory cannot grow; a call that
//! opens a region panics where the region holds a structure in a layout that
//! the crate does not read.

use ic_stable_structures::memory_manager::{MemoryId, MemoryManager, VirtualMemory};
use ic_stable_structures::{BTreeMap, Cell, DefaultMemoryImpl};
use vstd::prelude::*;

verus! {

/// The region manager of `ic_stable_structures` over the default memory: it
/// splits one backing memory into regions that grow independently and never
/// overlap.
#[verifier::external_body]
pub struct Regions {
    inner: MemoryManager<DefaultMemoryImpl>,
}

/// A `Cell` of `ic_stable_structures` that holds the next identifier, in a
/// region of its own.
#[verifier::external_body]
pub struct IdCell {
    inner: Cell<u64, VirtualMemory<DefaultMemoryImpl>>,
}

/// A `BTreeMap` of `ic_stable_structures` from identifier to encoded record,
/// in a region of its own.
#[verifier::external_body]
pub struct RecordMap {
    inner: BTreeMap<u64, Vec<u8>, VirtualMemory<DefaultMemoryImpl>>,
}

/// One region of the backing memory, not yet given to a structure.
#[verifier::external_body]
pub struct Region {
    inner: VirtualMemory<DefaultMemoryImpl>,
}

/// The region identifier that the manager keeps for itself.
pub const RESERVED_REGION: u8 = 255;

/// The identifier of a region.
pub uninterp spec fn region_id(region: Region) -> u8;

/// The identifier of the region that a cell lives in.
pub uninterp spec fn cell_region(cell: IdCell) -> u8;

/// The identifier of the region that a record map lives in.
pub uninterp spec fn map_region(map: RecordMap) -> u8;

/// The value that an identifier cell holds.
pub uninterp spec fn cell_value(cell: IdCell) -> u64;

/// The entries that a record map holds.
pub uninterp spec fn map_entries(map: RecordMap) -> Map<u64, Seq<u8>>;

/// The entries of an empty map.
pub open spec fn no_entries() -> Map<u64, Seq<u8>> {
    Map::empty()
}

/// Whether `listing` holds the entries of `entries`, each once, by ascending
/// key.
pub open spec fn is_listing(listing: Seq<(u64, Vec<u8>)>, entries: Map<u64, Seq<u8>>) -> bool {
    &&& forall|i: int, j: int| 0 <= i < j < listing.len() ==> listing[i].0 < listing[j].0
    &&& forall|i: int|
        0 <= i < listing.len() ==> entries.contains_key(#[trigger] listing[i].0)
            && entries[listing[i].0] == listing[i].1@
    &&& forall|key: u64| #[trigger]
        entries.contains_key(key) ==> exists|i: int| 0 <= i < listing.len() && listing[i].0 == key
}

/// `MemoryManager::init` over `DefaultMemoryImpl::default()`: a manager of the
/// default memory. Nothing is claimed of it.
#[verifier::external_body]
pub(crate) fn regions_init() -> (regions: Regions) {
    Regions { inner: MemoryManager::init(DefaultMemoryImpl::default()) }
}

/// `MemoryManager::get` on `MemoryId::new(id)`: the region with identifier
/// `id`. Nothing is claimed of what it holds; the identifier that the manager
/// keeps for itself, on which `MemoryId::new` panics, is left out.
#[verifier::external_body]
pub(crate) fn regions_take(regions: &Regions, id: u8) -> (region: Region)
    requires
        id != RESERVED_REGION,
    ensures
        region_id(region) == id,
{
    Region { inner: regions.inner.get(MemoryId::new(id)) }
}

/// `Cell::init`: the cell that the region holds, or a cell with `initial` where
/// the region holds none. The cell lives in that region. Nothing is said of the
/// value of a cell that was there.
#[verifier::external_body]
pub(crate) fn cell_init(region: Region, initial: u64) -> (cell: IdCell)
    ensures
        cell_region(cell) == region_id(region),
{
    IdCell { inner: Cell::init(region.inner, initial) }
}

/// `Cell::new`: a cell that holds `initial`, written over what the region held.
/// The cell lives in that region.
#[verifier::external_body]
pub(crate) fn cell_new(region: Region, initial: u64) -> (cell: IdCell)
    ensures
        cell_value(cell) == initial,
        cell_region(cell) == region_id(region),
{
    IdCell { inner: Cell::new(region.inner, initial) }
}

/// `BTreeMap::init`: the map that the region holds, or an empty map where the
/// region holds none. The map lives in that region. Nothing is said of the
/// entries of a map that was there.
#[verifier::external_body]
pub(crate) fn map_init(region: Region) -> (records: RecordMap)
    ensures
        map_region(records) == region_id(region),
{
    RecordMap { inner: BTreeMap::init(region.inner) }
}

/// `BTreeMap::new`: an empty map, written over what the region held. The map
/// lives in that region.
#[verifier::external_body]
pub(crate) fn map_new(region: Region) -> (records: RecordMap)
    ensures
        map_entries(records) == no_entries(),
        map_region(records) == region_id(region),
{
    RecordMap { inner: BTreeMap::new(region.inner) }
}

/// `BTreeMap::iter`: every entry of the map, by ascending key.
#[verifier::external_body]
pub(crate) fn map_scan(map: &RecordMap) -> (listing: Vec<(u64, Vec<u8>)>)
    ensures
        is_listing(listing@, map_entries(*map)),
{
    map.inner.iter().map(|entry| entry.into_pair()).collect()
}

/// `Cell::get`: reads the value that the cell holds.
#[verifier::external_body]
pub(crate) fn cell_get(cell: &IdCell) -> (value: u64)
    ensures
        value == cell_value(*cell),
{
    *cell.inner.get()
}

/// `Cell::set`: stores `value` in the cell and hands back the value that it
/// held before.
#[verifier::external_body]
pub(crate) fn cell_set(cell: &mut IdCell, value: u64) -> (previous: u64)
    ensures
        previous == cell_value(*old(cell)),
        cell_value(*final(cell)) == value,
{
    cell.inner.set(value)
}

/// `BTreeMap::contains_key`: whether the map holds an entry under `key`.
#[verifier::external_body]
pub(crate) fn map_contains(map: &RecordMap, key: u64) -> (found: bool)
    ensures
        found == map_entries(*map).contains_key(key),
{
    map.inner.contains_key(&key)
}

/// `BTreeMap::get`: the value stored under `key`, if there is one.
#[verifier::external_body]
pub(crate) fn map_get(map: &RecordMap, key: u64) -> (value: Option<Vec<u8>>)
    ensures
        value.is_some() == map_entries(*map).contains_key(key),
        value.is_some() ==> value.unwrap()@ == map_entries(*map)[key],
{
    map.inner.get(&key)
}

/// `BTreeMap::insert`: stores `value` under `key`, replacing what was there,
/// and hands back the value that was replaced. No other entry changes.
#[verifier::external_body]
pub(crate) fn map_insert(map: &mut RecordMap, key: u64, value: Vec<u8>) -> (previous: Option<Vec<u8>>)
    ensures
        map_entries(*final(map)) == map_entries(*old(map)).insert(key, value@),
        previous.is_some() == map_entries(*old(map)).contains_key(key),
        previous.is_some() ==> previous.unwrap()@ == map_entries(*old(map))[key],
{
    map.inner.insert(key, value)
}

} // verus!
