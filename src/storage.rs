//! The stable-memory structures that the store is built on, as the outside
//! crate provides them: a manager that splits one memory into numbered
//! regions, a cell holding one value, and an ordered map.
//!
//! Verus cannot declare the crate's generic types (their bounds name the
//! crate's own traits), so each is held in a private field of a type here.
use ic_stable_structures::cell::{InitError, ValueError};
use ic_stable_structures::memory_manager::{MemoryId, MemoryManager, VirtualMemory};
use ic_stable_structures::{Cell, DefaultMemoryImpl, StableBTreeMap};
use vstd::prelude::*;

verus! {

#[verifier::external_type_specification]
#[verifier::external_body]
pub struct ExInitError(InitError);

#[verifier::external_type_specification]
#[verifier::external_body]
pub struct ExValueError(ValueError);

/// One stable memory, split into independently growable regions.
#[verifier::external_body]
pub struct MemoryRegions {
    manager: MemoryManager<DefaultMemoryImpl>,
}

/// One region of the stable memory.
#[verifier::external_body]
pub struct Region {
    memory: VirtualMemory<DefaultMemoryImpl>,
}

/// A cell holding a counter in its own region.
#[verifier::external_body]
pub struct IdCounter {
    cell: Cell<u64, VirtualMemory<DefaultMemoryImpl>>,
}

/// An ordered map from identifier to encoded product, in its own region.
#[verifier::external_body]
pub struct RecordTable {
    map: StableBTreeMap<u64, Vec<u8>, VirtualMemory<DefaultMemoryImpl>>,
}

/// The value that a counter holds.
pub uninterp spec fn counter_value(c: &IdCounter) -> u64;

/// What a table holds.
pub uninterp spec fn table_contents(t: &RecordTable) -> Map<u64, Seq<u8>>;

/// Relies on `MemoryManager::init` over the default memory: the manager of
/// the memory, holding the regions it held before.
#[verifier::external_body]
pub(crate) fn regions_init() -> (r: MemoryRegions) {
    MemoryRegions { manager: MemoryManager::init(DefaultMemoryImpl::default()) }
}

/// Relies on `MemoryManager::get`: the region with the given identifier, the
/// same one on every call. `MemoryId::new` panics on the one identifier that
/// is reserved to mark unallocated space.
#[verifier::external_body]
pub(crate) fn region(regions: &MemoryRegions, id: u8) -> (r: Region)
    requires
        id != 255,
{
    Region { memory: regions.manager.get(MemoryId::new(id)) }
}

/// Relies on `Cell::init`: a cell over the region, holding what the region
/// held or, in a region without a cell, the default value.
#[verifier::external_body]
pub(crate) fn counter_init(r: Region, default_value: u64) -> (c: Result<IdCounter, InitError>) {
    Cell::init(r.memory, default_value).map(|cell| IdCounter { cell })
}

/// Relies on `Cell::get`: the value the cell holds.
#[verifier::external_body]
pub(crate) fn counter_get(c: &IdCounter) -> (r: u64)
    ensures
        r == counter_value(c),
{
    *c.cell.get()
}

/// Relies on `Cell::set`: the cell holds the new value and the old one is
/// returned. It fails only where the value's encoding is over `u32::MAX`
/// bytes or the region must grow and cannot; a `u64` takes 8 bytes, and every
/// cell that `Cell::init` returns already has a page, so neither happens.
#[verifier::external_body]
pub(crate) fn counter_set(c: &mut IdCounter, value: u64) -> (r: Result<u64, ValueError>)
    ensures
        r is Ok,
        r matches Ok(prev) ==> prev == counter_value(old(c)) && counter_value(final(c)) == value,
{
    c.cell.set(value)
}

/// Relies on `BTreeMap::init`: the map that the region holds, or a new empty
/// one in a region without a map.
#[verifier::external_body]
pub(crate) fn table_init(r: Region) -> (t: RecordTable) {
    RecordTable { map: StableBTreeMap::init(r.memory) }
}

/// Relies on `BTreeMap::is_empty`: whether the map holds no entry.
#[verifier::external_body]
pub(crate) fn table_is_empty(t: &RecordTable) -> (r: bool)
    ensures
        r == (table_contents(t) == Map::<u64, Seq<u8>>::empty()),
{
    t.map.is_empty()
}

/// Relies on `BTreeMap::get`: the value stored under the key, if any.
#[verifier::external_body]
pub(crate) fn table_get(t: &RecordTable, key: u64) -> (r: Option<Vec<u8>>)
    ensures
        r matches Some(v) ==> table_contents(t).contains_key(key) && v@ == table_contents(t)[key],
        r is None ==> !table_contents(t).contains_key(key),
{
    t.map.get(&key)
}

/// Relies on `BTreeMap::insert`: the key now maps to the value, replacing any
/// earlier one. (The map aborts where its memory cannot grow.)
#[verifier::external_body]
pub(crate) fn table_insert(t: &mut RecordTable, key: u64, value: Vec<u8>)
    ensures
        table_contents(final(t)) == table_contents(old(t)).insert(key, value@),
{
    t.map.insert(key, value);
}

/// Relies on `BTreeMap::remove`: the key no longer maps to anything, and the
/// value it mapped to is returned.
#[verifier::external_body]
pub(crate) fn table_remove(t: &mut RecordTable, key: u64) -> (r: Option<Vec<u8>>)
    ensures
        table_contents(final(t)) == table_contents(old(t)).remove(key),
        r matches Some(v) ==> table_contents(old(t)).contains_key(key) && v@ == table_contents(
            old(t),
        )[key],
        r is None ==> !table_contents(old(t)).contains_key(key),
{
    t.map.remove(&key)
}

} // verus!
