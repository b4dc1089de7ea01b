//! The ledger service: the one writer of the balance and of the entries,
//! which keeps the two consistent.
//!
//! Every change is checked against the current balance before anything
//! is written; the balance is then written first and the entry second.
//! A request that is refused leaves the ledger as it was.

use crate::allocator::IdAllocator;
use crate::balance::BalanceCell;
use crate::entry::{
    balance_change, outcome_view, EntryPayload, Error, PettyCashEntry, TransactionType,
};
use crate::model::{
    id_limit, lemma_balance_bounded, lemma_balance_without_bounded, lemma_net_below_gap,
    lemma_net_below_insert, lemma_net_below_remove, LedgerState,
};
use crate::stable::{fresh_structures, Structures};
use crate::store::{entry_views, EntryStore};
use crate::text::{insufficient_funds, invalid_amount, negative_balance, not_found};
use vstd::prelude::*;

verus! {

/// The id that the first entry of a new ledger gets.
pub const FIRST_ID: u64 = 1;

/// A petty-cash ledger.
pub struct Ledger {
    ids: IdAllocator,
    store: EntryStore,
    balance: BalanceCell,
}

impl View for Ledger {
    type V = LedgerState;

    closed spec fn view(&self) -> LedgerState {
        LedgerState { next_id: self.ids@, entries: self.store@, balance: self.balance@ }
    }
}

/// The three parts that a ledger is made of.
pub struct LedgerParts {
    pub ids: IdAllocator,
    pub store: EntryStore,
    pub balance: BalanceCell,
}

impl LedgerParts {
    /// The state that the three parts hold between them.
    pub open spec fn state(self) -> LedgerState {
        LedgerState { next_id: self.ids@, entries: self.store@, balance: self.balance@ }
    }
}

impl Ledger {
    /// Whether the store is well-formed and the state is one that a
    /// ledger reaches (see [`LedgerState::wf`]).
    pub closed spec fn wf(&self) -> bool {
        self.store.wf() && self@.wf()
    }

    /// The state of a well-formed ledger is well-formed.
    pub proof fn lemma_state_wf(&self)
        requires
            self.wf(),
        ensures
            self@.wf(),
    {
    }

    /// A new ledger: no entries, a balance of zero, and [`FIRST_ID`] the
    /// first id to give out.
    pub fn new() -> (ledger: Ledger)
        ensures
            ledger.wf(),
            ledger@ == LedgerState::fresh(FIRST_ID),
    {
        let Structures { counter, map, balance } = fresh_structures(FIRST_ID);
        let ledger = Ledger {
            ids: IdAllocator::new(counter),
            store: EntryStore::new(map),
            balance: BalanceCell::new(balance),
        };
        proof {
            lemma_net_below_gap(ledger@.entries, 0, id_limit());
        }
        ledger
    }

    /// Takes the ledger apart.
    pub fn into_parts(self) -> (parts: LedgerParts)
        requires
            self.wf(),
        ensures
            parts.store.wf(),
            parts.state() == self@,
    {
        LedgerParts { ids: self.ids, store: self.store, balance: self.balance }
    }

    /// Puts a ledger together from three parts, if the state that they
    /// hold is one that a ledger reaches (see [`LedgerState::wf`]):
    /// every id stored has been given out, and the balance is the sum of
    /// the effects of the entries stored. Looks at every entry stored.
    pub fn from_parts(parts: LedgerParts) -> (ledger: Option<Ledger>)
        requires
            parts.store.wf(),
        ensures
            match ledger {
                Some(l) => l.wf() && l@ == parts.state(),
                None => !parts.state().wf(),
            },
    {
        proof {
            parts.store.lemma_stored_under_own_id();
        }
        let next_id: u64 = parts.ids.peek();
        let consistent: bool = match parts.store.audit(next_id) {
            Some(total) => total == parts.balance.get(),
            None => false,
        };
        if consistent {
            Some(Ledger { ids: parts.ids, store: parts.store, balance: parts.balance })
        } else {
            None
        }
    }

    /// The id that the next recorded entry gets.
    pub fn next_id(&self) -> (id: u64)
        ensures
            id == self@.next_id,
    {
        self.ids.peek()
    }

    /// Looks up the entry with the given id.
    pub fn get_entry(&self, id: u64) -> (r: Result<PettyCashEntry, Error>)
        requires
            self.wf(),
        ensures
            outcome_view(r) == self@.get_entry(id),
    {
        match self.store.get(id) {
            Some(entry) => Ok(entry),
            None => Err(not_found(id)),
        }
    }

    /// Reads the balance. Nothing changes by reading: the value is that
    /// of the state, and the same until the next accepted change.
    pub fn get_current_balance(&self) -> (balance: i128)
        ensures
            balance == self@.get_current_balance(),
    {
        self.balance.get()
    }

    /// The entries dated from `start_date` to `end_date`, both included,
    /// in ascending order of id; none where `start_date` is the later of
    /// the two. Looks at every entry stored.
    pub fn get_entries_by_date_range(&self, start_date: u64, end_date: u64) -> (found: Vec<
        PettyCashEntry,
    >)
        requires
            self.wf(),
        ensures
            entry_views(found@) == self@.get_entries_by_date_range(start_date, end_date),
    {
        self.store.range(start_date, end_date)
    }

    /// The first phase of [`Self::add_entry`]: decides from the payload
    /// and the balance whether the payload would be refused, and writes
    /// nothing.
    pub fn validate_add(&self, payload: &EntryPayload) -> (r: Result<(), Error>)
        ensures
            match r {
                Ok(_) => self@.add_refusal(payload@) is None,
                Err(e) => self@.add_refusal(payload@) == Some(e@),
            },
    {
        if payload.amount <= 0 {
            return Err(invalid_amount());
        }
        let is_debit: bool = match payload.entry_type {
            TransactionType::Debit => true,
            TransactionType::Credit => false,
        };
        let current: i128 = self.balance.get();
        if is_debit && current < payload.amount as i128 {
            return Err(insufficient_funds(current, payload.amount));
        }
        Ok(())
    }

    /// Records a payload at time `now`, as [`LedgerState::add_entry`]
    /// says: refused with `InvalidAmount` where the amount is not
    /// positive, with `InsufficientFunds` where it is a debit over the
    /// balance; otherwise stored under the next id, with the balance
    /// moved by its effect. A payload that is not refused must fit the
    /// store, and there must be an id left to give out.
    pub fn add_entry(&mut self, payload: EntryPayload, now: u64) -> (r: Result<
        PettyCashEntry,
        Error,
    >)
        requires
            old(self).wf(),
            old(self)@.add_refusal(payload@) is None ==> payload@.fits() && old(self)@.next_id
                < u64::MAX,
        ensures
            final(self).wf(),
            final(self)@ == old(self)@.add_entry(payload@, now).0,
            outcome_view(r) == old(self)@.add_entry(payload@, now).1,
    {
        match self.validate_add(&payload) {
            Err(refusal) => { return Err(refusal); },
            Ok(_) => {},
        }
        let current: i128 = self.balance.get();
        let id: u64 = self.ids.next_id();
        let change: i128 = balance_change(payload.entry_type, payload.amount);
        let entry = PettyCashEntry {
            id,
            date: now,
            description: payload.description,
            amount: payload.amount,
            entry_type: payload.entry_type,
            category: payload.category,
            receipt_url: payload.receipt_url,
            approved_by: payload.approved_by,
            created_at: now,
            updated_at: None,
        };
        proof {
            lemma_balance_bounded(old(self)@);
            lemma_net_below_insert(old(self)@.entries, id, entry@, id_limit());
        }
        self.balance.set(current + change);
        let _stored = self.store.put(&entry);
        Ok(entry)
    }

    /// Looks up the entry that a payload is to replace and computes the
    /// balance that the replacement would leave.
    fn plan_update(&self, id: u64, payload: &EntryPayload) -> (r: Result<
        (PettyCashEntry, i128),
        Error,
    >)
        requires
            self.wf(),
        ensures
            match r {
                Ok((entry, new_balance)) => self@.update_refusal(id, payload@) is None && entry@
                    == self@.entries[id] && new_balance == self@.balance_after_update(
                    id,
                    payload@,
                ),
                Err(e) => self@.update_refusal(id, payload@) == Some(e@),
            },
    {
        let entry = match self.store.get(id) {
            Some(entry) => entry,
            None => { return Err(not_found(id)); },
        };
        proof {
            lemma_balance_without_bounded(self@, id);
        }
        let current: i128 = self.balance.get();
        let reversal: i128 = -balance_change(entry.entry_type, entry.amount);
        let change: i128 = balance_change(payload.entry_type, payload.amount);
        let new_balance: i128 = current + reversal + change;
        if new_balance < 0 {
            return Err(negative_balance());
        }
        Ok((entry, new_balance))
    }

    /// The first phase of [`Self::update_entry`]: decides from the
    /// payload, the entry stored and the balance whether the replacement
    /// would be refused, and writes nothing.
    pub fn validate_update(&self, id: u64, payload: &EntryPayload) -> (r: Result<(), Error>)
        requires
            self.wf(),
        ensures
            match r {
                Ok(_) => self@.update_refusal(id, payload@) is None,
                Err(e) => self@.update_refusal(id, payload@) == Some(e@),
            },
    {
        match self.plan_update(id, payload) {
            Ok(_) => Ok(()),
            Err(refusal) => Err(refusal),
        }
    }

    /// Replaces the contents of the entry with the given id at time
    /// `now`, as [`LedgerState::update_entry`] says: refused with
    /// `NotFound` where there is no such entry, with `InsufficientFunds`
    /// where taking back the old effect and applying the new one would
    /// leave a negative balance. The id, the date and the time of
    /// creation stay. A payload that is not refused must fit the store.
    pub fn update_entry(&mut self, id: u64, payload: EntryPayload, now: u64) -> (r: Result<
        PettyCashEntry,
        Error,
    >)
        requires
            old(self).wf(),
            old(self)@.update_refusal(id, payload@) is None ==> payload@.fits(),
        ensures
            final(self).wf(),
            final(self)@ == old(self)@.update_entry(id, payload@, now).0,
            outcome_view(r) == old(self)@.update_entry(id, payload@, now).1,
    {
        let (mut entry, new_balance) = match self.plan_update(id, &payload) {
            Ok(plan) => plan,
            Err(refusal) => { return Err(refusal); },
        };
        self.balance.set(new_balance);
        entry.description = payload.description;
        entry.amount = payload.amount;
        entry.entry_type = payload.entry_type;
        entry.category = payload.category;
        entry.receipt_url = payload.receipt_url;
        entry.approved_by = payload.approved_by;
        entry.updated_at = Some(now);
        proof {
            self.store.lemma_stored_under_own_id();
            lemma_net_below_insert(old(self)@.entries, id, entry@, id_limit());
        }
        let _stored = self.store.put(&entry);
        Ok(entry)
    }

    /// Removes the entry with the given id and returns it, as
    /// [`LedgerState::delete_entry`] says: refused with `NotFound` where
    /// there is no such entry; otherwise its effect is taken back from
    /// the balance, which may become negative by it.
    pub fn delete_entry(&mut self, id: u64) -> (r: Result<PettyCashEntry, Error>)
        requires
            old(self).wf(),
        ensures
            final(self).wf(),
            final(self)@ == old(self)@.delete_entry(id).0,
            outcome_view(r) == old(self)@.delete_entry(id).1,
    {
        let entry = match self.store.get(id) {
            Some(entry) => entry,
            None => { return Err(not_found(id)); },
        };
        proof {
            lemma_balance_without_bounded(old(self)@, id);
            lemma_net_below_remove(old(self)@.entries, id, id_limit());
        }
        let current: i128 = self.balance.get();
        let reversal: i128 = -balance_change(entry.entry_type, entry.amount);
        self.balance.set(current + reversal);
        let _removed = self.store.remove(id);
        Ok(entry)
    }
}

} // verus!
