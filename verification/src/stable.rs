//! The stable structures that hold a ledger's state, and what is taken
//! on trust about them.
//!
//! Nothing in this file is proved. Each function here is a thin layer
//! over a call into the `ic-stable-structures` crate; its contract says
//! what that crate's source shows the call to do, over a name for what the
//! structure holds. Stable memory is taken to grow on demand, as heap
//! memory is for a `Vec`: a structure that cannot get the pages it needs
//! stops the program.
//!
//! The structures of a ledger live in the default memory of the crate. In
//! a canister that is the one stable memory there is, so a canister keeps
//! one ledger; elsewhere every ledger gets a memory of its own.

use ic_stable_structures::memory_manager::{MemoryId, MemoryManager, VirtualMemory};
use ic_stable_structures::storable::Blob;
use ic_stable_structures::{Cell, DefaultMemoryImpl, StableBTreeMap};
use vstd::prelude::*;

verus! {

/// The largest number of bytes that one stored entry may take.
pub const MAX_ENTRY_BYTES: usize = 2048;

/// A `StableBTreeMap` from ids to byte strings of at most
/// [`MAX_ENTRY_BYTES`] bytes.
#[verifier::external_body]
pub struct BlobMap {
    map: StableBTreeMap<u64, Blob<2048>, VirtualMemory<DefaultMemoryImpl>>,
}

/// A stable `Cell` that holds the next id to hand out.
#[verifier::external_body]
pub struct CounterCell {
    cell: Cell<u64, VirtualMemory<DefaultMemoryImpl>>,
}

/// A stable `Cell` that holds a signed number, kept in the
/// cell as the 128 bits of its two's complement.
#[verifier::external_body]
pub struct SignedCell {
    cell: Cell<u128, VirtualMemory<DefaultMemoryImpl>>,
}

/// The bytes that a [`BlobMap`] holds under each id.
pub uninterp spec fn blob_map_contents(m: BlobMap) -> Map<u64, Seq<u8>>;

/// The contents of a map that holds nothing.
pub open spec fn no_blobs() -> Map<u64, Seq<u8>> {
    Map::empty()
}

/// The number that a [`CounterCell`] holds.
pub uninterp spec fn counter_cell_value(c: CounterCell) -> u64;

/// The number that a [`SignedCell`] holds.
pub uninterp spec fn signed_cell_value(c: SignedCell) -> i128;

/// The three structures that hold a ledger's state.
pub(crate) struct Structures {
    pub(crate) counter: CounterCell,
    pub(crate) map: BlobMap,
    pub(crate) balance: SignedCell,
}

/// Makes the three structures of a new ledger, each in a virtual memory
/// of its own under one `MemoryManager`: `Cell::new` for the counter and
/// the balance, `StableBTreeMap::new` for the map. Trusted: both
/// constructors overwrite what the memory held, so the counter holds
/// `first_id`, the map is empty and the balance is zero.
#[verifier::external_body]
pub(crate) fn fresh_structures(first_id: u64) -> (parts: Structures)
    ensures
        counter_cell_value(parts.counter) == first_id,
        blob_map_contents(parts.map) == no_blobs(),
        signed_cell_value(parts.balance) == 0,
{
    let manager = MemoryManager::init(DefaultMemoryImpl::default());
    let counter = Cell::new(manager.get(MemoryId::new(0)), first_id);
    let map = StableBTreeMap::new(manager.get(MemoryId::new(1)));
    let balance = Cell::new(manager.get(MemoryId::new(2)), 0u128);
    Structures {
        counter: CounterCell { cell: counter.expect("cannot create a counter") },
        map: BlobMap { map },
        balance: SignedCell { cell: balance.expect("cannot create balance cell") },
    }
}

impl CounterCell {
    /// `Cell::get`. Trusted: returns the number held.
    #[verifier::external_body]
    pub(crate) fn read(&self) -> (value: u64)
        ensures
            value == counter_cell_value(*self),
    {
        *self.cell.get()
    }

    /// `Cell::set`. Trusted: the cell then holds `value`, and the number
    /// held before is returned. A cell that exists has its first page, and
    /// a `u64` takes eight bytes of it, so the call does not fail.
    #[verifier::external_body]
    pub(crate) fn write(&mut self, value: u64) -> (previous: u64)
        ensures
            counter_cell_value(*final(self)) == value,
            previous == counter_cell_value(*old(self)),
    {
        self.cell.set(value).expect("cannot update the id counter")
    }
}

impl SignedCell {
    /// `Cell::get`. Trusted: returns the number held.
    #[verifier::external_body]
    pub(crate) fn read(&self) -> (value: i128)
        ensures
            value == signed_cell_value(*self),
    {
        *self.cell.get() as i128
    }

    /// `Cell::set`. Trusted: the cell then holds `value`. A cell that
    /// exists has its first page, and a `u128` takes sixteen bytes of it,
    /// so the call does not fail.
    #[verifier::external_body]
    pub(crate) fn write(&mut self, value: i128)
        ensures
            signed_cell_value(*final(self)) == value,
    {
        self.cell.set(value as u128).expect("cannot update balance");
    }
}

impl BlobMap {
    /// `StableBTreeMap::get`. Trusted: returns the bytes held under `id`,
    /// and `None` exactly when the map holds none.
    #[verifier::external_body]
    pub(crate) fn get(&self, id: u64) -> (found: Option<Vec<u8>>)
        ensures
            found.is_some() == blob_map_contents(*self).dom().contains(id),
            found matches Some(bytes) ==> bytes@ == blob_map_contents(*self)[id],
    {
        self.map.get(&id).map(|blob| blob.as_slice().to_vec())
    }

    /// `StableBTreeMap::insert`. Trusted: the map then holds `bytes` under
    /// `id`, in place of what it held there, and everything else as
    /// before. The bytes go in as a `Blob`, which takes at most
    /// [`MAX_ENTRY_BYTES`] of them.
    #[verifier::external_body]
    pub(crate) fn insert(&mut self, id: u64, bytes: &Vec<u8>)
        requires
            bytes@.len() <= MAX_ENTRY_BYTES,
        ensures
            blob_map_contents(*final(self)) == blob_map_contents(*old(self)).insert(id, bytes@),
    {
        let blob = Blob::try_from(bytes.as_slice()).expect("entry exceeds the maximum size");
        self.map.insert(id, blob);
    }

    /// `StableBTreeMap::remove`. Trusted: the map then holds nothing under
    /// `id` and everything else as before; the bytes that it held there
    /// are returned, and `None` exactly when it held none.
    #[verifier::external_body]
    pub(crate) fn remove(&mut self, id: u64) -> (removed: Option<Vec<u8>>)
        ensures
            blob_map_contents(*final(self)) == blob_map_contents(*old(self)).remove(id),
            removed.is_some() == blob_map_contents(*old(self)).dom().contains(id),
            removed matches Some(bytes) ==> bytes@ == blob_map_contents(*old(self))[id],
    {
        self.map.remove(&id).map(|blob| blob.as_slice().to_vec())
    }

    /// `StableBTreeMap::iter`, collected. Trusted: the pairs returned are
    /// the ids that the map holds, each once and in ascending order, each
    /// with the bytes held under it.
    #[verifier::external_body]
    pub(crate) fn pairs(&self) -> (all: Vec<(u64, Vec<u8>)>)
        ensures
            forall|i: int, j: int| 0 <= i < j < all@.len() ==> all@[i].0 < all@[j].0,
            forall|i: int|
                0 <= i < all@.len() ==> blob_map_contents(*self).dom().contains(#[trigger] all@[i].0)
                    && blob_map_contents(*self)[all@[i].0] == all@[i].1@,
            forall|id: u64|
                blob_map_contents(*self).dom().contains(id) ==> exists|i: int|
                    0 <= i < all@.len() && #[trigger] all@[i].0 == id,
    {
        self.map.iter().map(|(id, blob)| (id, blob.as_slice().to_vec())).collect()
    }
}

} // verus!
