//! The store of entries: an ordered map from ids to entries, kept as
//! bytes in a stable map.

use crate::codec::{
    decode_entry, encode_entry, found_view, lemma_entry_bytes_len, lemma_entry_round_trip,
    parse_entry,
};
use crate::entry::{balance_change, EntryView, PettyCashEntry};
use crate::model::{
    dated_below, id_limit, lemma_dated_below_gap, lemma_net_below_bounded, lemma_net_below_gap,
    net_below, net_total,
};
use crate::stable::{blob_map_contents, no_blobs, BlobMap, MAX_ENTRY_BYTES};
use vstd::prelude::*;

verus! {

/// Why the store did not take an entry.
#[derive(Clone, Copy, Debug, PartialEq, Eq, Structural)]
pub enum StoreError {
    /// The entry's stored form is longer than the store's limit.
    SizeExceeded,
}

/// The mathematical values of a sequence of entries.
pub open spec fn entry_views(entries: Seq<PettyCashEntry>) -> Seq<EntryView> {
    Seq::new(entries.len(), |i: int| entries[i]@)
}

/// Whether `all` lists what a stable map holds: every id once, in
/// ascending order, with its bytes.
spec fn lists(all: Seq<(u64, Vec<u8>)>, contents: Map<u64, Seq<u8>>) -> bool {
    &&& forall|i: int, j: int| 0 <= i < j < all.len() ==> all[i].0 < all[j].0
    &&& forall|i: int|
        0 <= i < all.len() ==> contents.dom().contains(#[trigger] all[i].0) && contents[all[i].0]
            == all[i].1@
    &&& forall|id: u64|
        contents.dom().contains(id) ==> exists|i: int|
            0 <= i < all.len() && #[trigger] all[i].0 == id
}

/// The least id that may follow the first `i` ids of a listing.
spec fn least_after(all: Seq<(u64, Vec<u8>)>, i: int) -> nat {
    if i == 0 {
        0
    } else {
        (all[i - 1].0 + 1) as nat
    }
}

/// The id at place `i` of a listing, or the limit of all ids where the
/// listing ends there.
spec fn id_or_limit(all: Seq<(u64, Vec<u8>)>, i: int) -> nat {
    if i < all.len() {
        all[i].0 as nat
    } else {
        id_limit()
    }
}

/// Between two neighbours of a listing the map holds nothing.
proof fn lemma_listing_gap(all: Seq<(u64, Vec<u8>)>, contents: Map<u64, Seq<u8>>, i: int)
    requires
        lists(all, contents),
        0 <= i <= all.len(),
    ensures
        least_after(all, i) <= id_or_limit(all, i),
        forall|id: u64|
            least_after(all, i) <= id < id_or_limit(all, i) ==> !contents.dom().contains(id),
{
    if 0 < i < all.len() {
        assert(all[i - 1].0 < all[i].0);
    }
    assert forall|id: u64| least_after(all, i) <= id < id_or_limit(all, i) implies !contents.dom().contains(
        id,
    ) by {
        if contents.dom().contains(id) {
            let j = choose|j: int| 0 <= j < all.len() && #[trigger] all[j].0 == id;
            if j < i {
                if j < i - 1 {
                    assert(all[j].0 < all[i - 1].0);
                }
            } else {
                if j > i {
                    assert(all[i].0 < all[j].0);
                }
            }
        }
    }
}

/// An ordered map from ids to entries.
pub struct EntryStore {
    blobs: BlobMap,
}

impl View for EntryStore {
    type V = Map<u64, EntryView>;

    closed spec fn view(&self) -> Map<u64, EntryView> {
        Map::new(
            |id: u64| blob_map_contents(self.blobs).dom().contains(id),
            |id: u64| parse_entry(blob_map_contents(self.blobs)[id]).unwrap(),
        )
    }
}

impl EntryStore {
    /// Whether every stored byte string is within the limit and is the
    /// stored form of an entry with the id that it is stored under.
    pub closed spec fn wf(&self) -> bool {
        forall|id: u64| #[trigger]
            blob_map_contents(self.blobs).dom().contains(id) ==> {
                let bytes = blob_map_contents(self.blobs)[id];
                &&& bytes.len() <= MAX_ENTRY_BYTES
                &&& parse_entry(bytes) is Some
                &&& parse_entry(bytes).unwrap().id == id
            }
    }

    /// Every entry of a well-formed store is stored under its own id.
    pub proof fn lemma_stored_under_own_id(&self)
        requires
            self.wf(),
        ensures
            forall|id: u64| #[trigger] self@.dom().contains(id) ==> self@[id].id == id,
    {
    }

    /// A store over an empty stable map.
    pub(crate) fn new(blobs: BlobMap) -> (store: EntryStore)
        requires
            blob_map_contents(blobs) == no_blobs(),
        ensures
            store.wf(),
            store@ == Map::<u64, EntryView>::empty(),
    {
        let store = EntryStore { blobs };
        assert(store@ =~= Map::<u64, EntryView>::empty());
        store
    }

    /// The entry stored under `id`, if there is one.
    pub fn get(&self, id: u64) -> (found: Option<PettyCashEntry>)
        requires
            self.wf(),
        ensures
            found_view(found) == (if self@.dom().contains(id) {
                Some(self@[id])
            } else {
                None
            }),
    {
        match self.blobs.get(id) {
            Some(bytes) => decode_entry(bytes.as_slice()),
            None => None,
        }
    }

    /// Stores an entry under its id, in place of what was stored there.
    /// An entry whose stored form is over the limit is refused, and the
    /// store stays as it was.
    pub fn put(&mut self, entry: &PettyCashEntry) -> (r: Result<(), StoreError>)
        requires
            old(self).wf(),
        ensures
            final(self).wf(),
            entry@.fits() ==> r is Ok && final(self)@ == old(self)@.insert(entry.id, entry@),
            !entry@.fits() ==> r == Err::<(), StoreError>(StoreError::SizeExceeded) && final(self)@
                == old(self)@,
    {
        match encode_entry(entry) {
            Some(bytes) => {
                proof {
                    lemma_entry_round_trip(entry@);
                    lemma_entry_bytes_len(entry@);
                }
                self.blobs.insert(entry.id, &bytes);
                assert(self@ =~= old(self)@.insert(entry.id, entry@));
                Ok(())
            },
            None => Err(StoreError::SizeExceeded),
        }
    }

    /// Removes the entry stored under `id` and returns it, if there is
    /// one.
    pub fn remove(&mut self, id: u64) -> (removed: Option<PettyCashEntry>)
        requires
            old(self).wf(),
        ensures
            final(self).wf(),
            final(self)@ == old(self)@.remove(id),
            found_view(removed) == (if old(self)@.dom().contains(id) {
                Some(old(self)@[id])
            } else {
                None
            }),
    {
        let taken = self.blobs.remove(id);
        assert(self@ =~= old(self)@.remove(id));
        match taken {
            Some(bytes) => decode_entry(bytes.as_slice()),
            None => None,
        }
    }

    /// The sum of the effects of the entries stored, credits counted up
    /// and debits counted down, if every id stored is below `next_id`;
    /// `None` if an entry is stored under `next_id` or above it. Looks
    /// at every entry stored.
    pub fn audit(&self, next_id: u64) -> (sum: Option<i128>)
        requires
            self.wf(),
        ensures
            match sum {
                Some(total) => total == net_total(self@) && forall|id: u64| #[trigger]
                    self@.dom().contains(id) ==> id < next_id,
                None => exists|id: u64| #[trigger] self@.dom().contains(id) && id >= next_id,
            },
    {
        let all = self.blobs.pairs();
        let mut total: i128 = 0;
        let mut i: usize = 0;
        while i < all.len()
            invariant
                0 <= i <= all.len(),
                self.wf(),
                lists(all@, blob_map_contents(self.blobs)),
                total == net_below(self@, least_after(all@, i as int)),
                least_after(all@, i as int) <= next_id,
            decreases all.len() - i,
        {
            let id: u64 = all[i].0;
            assert(self@.dom().contains(id));
            if id >= next_id {
                return None;
            }
            let decoded = decode_entry(all[i].1.as_slice());
            proof {
                lemma_listing_gap(all@, blob_map_contents(self.blobs), i as int);
                lemma_net_below_gap(self@, least_after(all@, i as int), id as nat);
                lemma_net_below_bounded(self@, id as nat);
                assert(least_after(all@, i + 1) == id + 1);
                assert(found_view(decoded) == Some(self@[id]));
            }
            match decoded {
                Some(entry) => {
                    total = total + balance_change(entry.entry_type, entry.amount);
                },
                None => {},
            }
            i = i + 1;
        }
        proof {
            lemma_listing_gap(all@, blob_map_contents(self.blobs), i as int);
            lemma_net_below_gap(self@, least_after(all@, i as int), id_limit());
            assert forall|id: u64| #[trigger] self@.dom().contains(id) implies id < next_id by {
                if id >= least_after(all@, i as int) {
                    assert(!blob_map_contents(self.blobs).dom().contains(id));
                }
            }
        }
        Some(total)
    }

    /// The entries dated from `start` to `end`, both included, in
    /// ascending order of id. Looks at every entry stored.
    pub fn range(&self, start: u64, end: u64) -> (found: Vec<PettyCashEntry>)
        requires
            self.wf(),
        ensures
            entry_views(found@) == dated_below(self@, start, end, id_limit()),
    {
        let all = self.blobs.pairs();
        let mut found: Vec<PettyCashEntry> = Vec::new();
        let mut i: usize = 0;
        assert(entry_views(found@) =~= dated_below(self@, start, end, 0));
        while i < all.len()
            invariant
                0 <= i <= all.len(),
                self.wf(),
                lists(all@, blob_map_contents(self.blobs)),
                entry_views(found@) == dated_below(self@, start, end, least_after(all@, i as int)),
            decreases all.len() - i,
        {
            let id: u64 = all[i].0;
            let decoded = decode_entry(all[i].1.as_slice());
            proof {
                lemma_listing_gap(all@, blob_map_contents(self.blobs), i as int);
                lemma_dated_below_gap(self@, start, end, least_after(all@, i as int), id as nat);
                assert(least_after(all@, i + 1) == id + 1);
                assert(self@.dom().contains(id));
                assert(found_view(decoded) == Some(self@[id]));
            }
            let ghost before = found@;
            match decoded {
                Some(entry) => {
                    if start <= entry.date && entry.date <= end {
                        found.push(entry);
                        assert(entry_views(found@) =~= entry_views(before).push(self@[id]));
                    }
                },
                None => {},
            }
            i = i + 1;
        }
        proof {
            lemma_listing_gap(all@, blob_map_contents(self.blobs), i as int);
            lemma_dated_below_gap(self@, start, end, least_after(all@, i as int), id_limit());
        }
        found
    }
}

} // verus!
