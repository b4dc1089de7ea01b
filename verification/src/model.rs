//! The ledger as mathematics: its state, and what each request makes of
//! a state.
//!
//! The functions of [`crate::ledger::Ledger`] are specified by the
//! functions of [`LedgerState`] that carry the same names.

use crate::entry::{signed_amount, EntryView, ErrorView, PayloadView, TransactionType};
use crate::text::{
    insufficient_funds_text, invalid_amount_text, negative_balance_text, not_found_text,
};
use vstd::prelude::*;

verus! {

/// The number of ids there are: one more than the largest.
pub open spec fn id_limit() -> nat {
    0x1_0000_0000_0000_0000
}

/// The largest amount by which one entry can move the balance.
pub open spec fn effect_limit() -> int {
    0x8000_0000_0000_0000
}

/// What the entry stored under `id` adds to the balance; zero where
/// there is none.
pub open spec fn effect_at(entries: Map<u64, EntryView>, id: int) -> int {
    if 0 <= id < id_limit() && entries.dom().contains(id as u64) {
        entries[id as u64].effect()
    } else {
        0
    }
}

/// The sum of the effects of the entries with an id below `bound`.
pub open spec fn net_below(entries: Map<u64, EntryView>, bound: nat) -> int
    decreases bound,
{
    if bound == 0 {
        0
    } else {
        net_below(entries, (bound - 1) as nat) + effect_at(entries, bound - 1)
    }
}

/// The sum of the effects of all entries: credits counted up, debits
/// counted down.
pub open spec fn net_total(entries: Map<u64, EntryView>) -> int {
    net_below(entries, id_limit())
}

/// Whether an entry is dated within the two bounds, both included.
pub open spec fn dated_within(e: EntryView, start: u64, end: u64) -> bool {
    start <= e.date <= end
}

/// The entries with an id below `bound` that are dated within the two
/// bounds, in ascending order of id.
pub open spec fn dated_below(entries: Map<u64, EntryView>, start: u64, end: u64, bound: nat) -> Seq<
    EntryView,
>
    decreases bound,
{
    if bound == 0 {
        Seq::empty()
    } else {
        let before = dated_below(entries, start, end, (bound - 1) as nat);
        let id = (bound - 1) as u64;
        if bound <= id_limit() && entries.dom().contains(id) && dated_within(
            entries[id],
            start,
            end,
        ) {
            before.push(entries[id])
        } else {
            before
        }
    }
}

/// The entry that recording a payload under `id` at time `now` makes.
pub open spec fn new_entry(id: u64, payload: PayloadView, now: u64) -> EntryView {
    EntryView {
        id,
        date: now,
        description: payload.description,
        amount: payload.amount,
        entry_type: payload.entry_type,
        category: payload.category,
        receipt_url: payload.receipt_url,
        approved_by: payload.approved_by,
        created_at: now,
        updated_at: None,
    }
}

/// The entry that replacing the contents of `old` by a payload at time
/// `now` makes: the id, the date and the time of creation stay.
pub open spec fn replaced_entry(old: EntryView, payload: PayloadView, now: u64) -> EntryView {
    EntryView {
        id: old.id,
        date: old.date,
        description: payload.description,
        amount: payload.amount,
        entry_type: payload.entry_type,
        category: payload.category,
        receipt_url: payload.receipt_url,
        approved_by: payload.approved_by,
        created_at: old.created_at,
        updated_at: Some(now),
    }
}

/// The state of a ledger.
pub ghost struct LedgerState {
    /// The id that the next recorded entry gets.
    pub next_id: u64,
    /// The entries stored, by id.
    pub entries: Map<u64, EntryView>,
    /// The running balance.
    pub balance: int,
}

impl LedgerState {
    /// The state of a new ledger: nothing stored, nothing in the cash
    /// box, and `first_id` the first id to give out.
    pub open spec fn fresh(first_id: u64) -> LedgerState {
        LedgerState { next_id: first_id, entries: Map::empty(), balance: 0 }
    }

    /// What holds of every state that a ledger reaches: each entry is
    /// stored under its own id, an id that has been given out; and the
    /// balance is the sum of the effects of the entries stored.
    pub open spec fn wf(self) -> bool {
        &&& forall|id: u64| #[trigger]
            self.entries.dom().contains(id) ==> id < self.next_id && self.entries[id].id == id
        &&& self.balance == net_total(self.entries)
    }

    /// Looking up an entry.
    pub open spec fn get_entry(self, id: u64) -> Result<EntryView, ErrorView> {
        if self.entries.dom().contains(id) {
            Ok(self.entries[id])
        } else {
            Err(ErrorView::NotFound { msg: not_found_text(id) })
        }
    }

    /// Reading the balance.
    pub open spec fn get_current_balance(self) -> int {
        self.balance
    }

    /// The entries dated within the two bounds, both included, in
    /// ascending order of id.
    pub open spec fn get_entries_by_date_range(self, start: u64, end: u64) -> Seq<EntryView> {
        dated_below(self.entries, start, end, id_limit())
    }

    /// Why recording a payload is refused, if it is: the amount is not
    /// positive; or it is a debit that the balance cannot cover.
    pub open spec fn add_refusal(self, payload: PayloadView) -> Option<ErrorView> {
        if payload.amount <= 0 {
            Some(ErrorView::InvalidAmount { msg: invalid_amount_text() })
        } else if payload.entry_type == TransactionType::Debit && self.balance < payload.amount {
            Some(
                ErrorView::InsufficientFunds {
                    msg: insufficient_funds_text(self.balance, payload.amount as int),
                },
            )
        } else {
            None
        }
    }

    /// Recording a payload at time `now`: refused as
    /// [`Self::add_refusal`] says; otherwise the entry gets the next id
    /// and the balance moves by its effect.
    pub open spec fn add_entry(self, payload: PayloadView, now: u64) -> (
        LedgerState,
        Result<EntryView, ErrorView>,
    ) {
        match self.add_refusal(payload) {
            Some(refusal) => (self, Err(refusal)),
            None => {
                let entry = new_entry(self.next_id, payload, now);
                (
                    LedgerState {
                        next_id: (self.next_id + 1) as u64,
                        entries: self.entries.insert(entry.id, entry),
                        balance: self.balance + entry.effect(),
                    },
                    Ok(entry),
                )
            },
        }
    }

    /// The balance that replacing the entry under `id` by a payload would
    /// leave: the old effect taken back, the new one applied.
    pub open spec fn balance_after_update(self, id: u64, payload: PayloadView) -> int {
        self.balance - self.entries[id].effect() + signed_amount(
            payload.entry_type,
            payload.amount,
        )
    }

    /// Why replacing the entry under `id` by a payload is refused, if it
    /// is: there is no such entry; or the balance would become negative.
    /// The new amount is not looked at otherwise.
    pub open spec fn update_refusal(self, id: u64, payload: PayloadView) -> Option<ErrorView> {
        if !self.entries.dom().contains(id) {
            Some(ErrorView::NotFound { msg: not_found_text(id) })
        } else if self.balance_after_update(id, payload) < 0 {
            Some(ErrorView::InsufficientFunds { msg: negative_balance_text() })
        } else {
            None
        }
    }

    /// Replacing the contents of the entry under `id` at time `now`:
    /// refused as [`Self::update_refusal`] says; otherwise the entry
    /// keeps its id, its date and its time of creation, and the balance
    /// moves by the difference of the two effects.
    pub open spec fn update_entry(self, id: u64, payload: PayloadView, now: u64) -> (
        LedgerState,
        Result<EntryView, ErrorView>,
    ) {
        match self.update_refusal(id, payload) {
            Some(refusal) => (self, Err(refusal)),
            None => {
                let entry = replaced_entry(self.entries[id], payload, now);
                (
                    LedgerState {
                        next_id: self.next_id,
                        entries: self.entries.insert(id, entry),
                        balance: self.balance_after_update(id, payload),
                    },
                    Ok(entry),
                )
            },
        }
    }

    /// Removing the entry under `id`: refused where there is no such
    /// entry; otherwise its effect is taken back from the balance,
    /// whatever balance that leaves.
    pub open spec fn delete_entry(self, id: u64) -> (LedgerState, Result<EntryView, ErrorView>) {
        if !self.entries.dom().contains(id) {
            (self, Err(ErrorView::NotFound { msg: not_found_text(id) }))
        } else {
            (
                LedgerState {
                    next_id: self.next_id,
                    entries: self.entries.remove(id),
                    balance: self.balance - self.entries[id].effect(),
                },
                Ok(self.entries[id]),
            )
        }
    }
}

/// Storing an entry under `id` changes the sum below a bound by the
/// difference between its effect and the effect of what was there.
pub proof fn lemma_net_below_insert(
    entries: Map<u64, EntryView>,
    id: u64,
    e: EntryView,
    bound: nat,
)
    requires
        bound <= id_limit(),
    ensures
        net_below(entries.insert(id, e), bound) == net_below(entries, bound) + (if id < bound {
            e.effect() - effect_at(entries, id as int)
        } else {
            0
        }),
    decreases bound,
{
    if bound > 0 {
        lemma_net_below_insert(entries, id, e, (bound - 1) as nat);
    }
}

/// Removing the entry under `id` lowers the sum below a bound by its
/// effect.
pub proof fn lemma_net_below_remove(entries: Map<u64, EntryView>, id: u64, bound: nat)
    requires
        bound <= id_limit(),
    ensures
        net_below(entries.remove(id), bound) == net_below(entries, bound) - (if id < bound {
            effect_at(entries, id as int)
        } else {
            0
        }),
    decreases bound,
{
    if bound > 0 {
        lemma_net_below_remove(entries, id, (bound - 1) as nat);
    }
}

/// Where no entry has an id from `from` up to `bound`, the sum below
/// `bound` is the sum below `from`.
pub proof fn lemma_net_below_gap(entries: Map<u64, EntryView>, from: nat, bound: nat)
    requires
        from <= bound <= id_limit(),
        forall|id: u64| from <= id < bound ==> !entries.dom().contains(id),
    ensures
        net_below(entries, bound) == net_below(entries, from),
    decreases bound,
{
    if bound > from {
        lemma_net_below_gap(entries, from, (bound - 1) as nat);
    }
}

/// The sum below a bound is at most the bound times the most that one
/// entry can add, in either direction.
pub proof fn lemma_net_below_bounded(entries: Map<u64, EntryView>, bound: nat)
    ensures
        -(bound * effect_limit()) <= net_below(entries, bound) <= bound * effect_limit(),
    decreases bound,
{
    if bound > 0 {
        lemma_net_below_bounded(entries, (bound - 1) as nat);
    }
}

/// In a well-formed state the balance is at most the number of ids given
/// out times the most that one entry can add, in either direction.
pub proof fn lemma_balance_bounded(s: LedgerState)
    requires
        s.wf(),
    ensures
        -(s.next_id * effect_limit()) <= s.balance <= s.next_id * effect_limit(),
{
    lemma_net_below_gap(s.entries, s.next_id as nat, id_limit());
    lemma_net_below_bounded(s.entries, s.next_id as nat);
}

/// In a well-formed state the balance without the effect of one stored
/// entry is at most the number of the other ids given out times the most
/// that one entry can add, in either direction.
pub proof fn lemma_balance_without_bounded(s: LedgerState, id: u64)
    requires
        s.wf(),
        s.entries.dom().contains(id),
    ensures
        -((s.next_id - 1) * effect_limit()) <= s.balance - s.entries[id].effect() <= (s.next_id
            - 1) * effect_limit(),
{
    let others = s.entries.remove(id);
    lemma_net_below_remove(s.entries, id, id_limit());
    lemma_net_below_gap(others, s.next_id as nat, id_limit());
    lemma_net_below_gap(others, id as nat, (id + 1) as nat);
    lemma_net_below_bounded(others, id as nat);
    lemma_net_above_bounded(others, (id + 1) as nat, s.next_id as nat);
}

/// The part of the sum between two bounds is at most the number of ids
/// between them times the most that one entry can add, in either
/// direction.
pub proof fn lemma_net_above_bounded(entries: Map<u64, EntryView>, from: nat, bound: nat)
    requires
        from <= bound,
    ensures
        -((bound - from) * effect_limit()) <= net_below(entries, bound) - net_below(entries, from)
            <= (bound - from) * effect_limit(),
    decreases bound,
{
    if bound > from {
        lemma_net_above_bounded(entries, from, (bound - 1) as nat);
    }
}

/// Where no entry has an id from `from` up to `bound`, the entries dated
/// within two bounds with an id below `bound` are those with an id below
/// `from`.
pub proof fn lemma_dated_below_gap(
    entries: Map<u64, EntryView>,
    start: u64,
    end: u64,
    from: nat,
    bound: nat,
)
    requires
        from <= bound <= id_limit(),
        forall|id: u64| from <= id < bound ==> !entries.dom().contains(id),
    ensures
        dated_below(entries, start, end, bound) == dated_below(entries, start, end, from),
    decreases bound,
{
    if bound > from {
        lemma_dated_below_gap(entries, start, end, from, (bound - 1) as nat);
    }
}

} // verus!
