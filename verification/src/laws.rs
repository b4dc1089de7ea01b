//! What holds of the ledger across requests.

use crate::entry::{EntryView, ErrorView, PayloadView, TransactionType};
use crate::model::{
    dated_below, dated_within, id_limit, lemma_net_below_gap, lemma_net_below_insert,
    lemma_net_below_remove, net_total, new_entry, replaced_entry, LedgerState,
};
use crate::text::{insufficient_funds_text, invalid_amount_text, not_found_text};
use vstd::prelude::*;

verus! {

/// A request that may change a ledger.
pub ghost enum Request {
    Add { payload: PayloadView, now: u64 },
    Update { id: u64, payload: PayloadView, now: u64 },
    Delete { id: u64 },
}

/// The state that a request leaves.
pub open spec fn state_after(s: LedgerState, request: Request) -> LedgerState {
    match request {
        Request::Add { payload, now } => s.add_entry(payload, now).0,
        Request::Update { id, payload, now } => s.update_entry(id, payload, now).0,
        Request::Delete { id } => s.delete_entry(id).0,
    }
}

/// What a request is answered with.
pub open spec fn outcome_of(s: LedgerState, request: Request) -> Result<EntryView, ErrorView> {
    match request {
        Request::Add { payload, now } => s.add_entry(payload, now).1,
        Request::Update { id, payload, now } => s.update_entry(id, payload, now).1,
        Request::Delete { id } => s.delete_entry(id).1,
    }
}

/// The state that a sequence of requests leaves, the first request
/// served first.
pub open spec fn state_after_all(s: LedgerState, requests: Seq<Request>) -> LedgerState
    decreases requests.len(),
{
    if requests.len() == 0 {
        s
    } else {
        state_after(state_after_all(s, requests.drop_last()), requests.last())
    }
}

/// Whether every request of a sequence is refused, the first request
/// served first.
pub open spec fn all_refused(s: LedgerState, requests: Seq<Request>) -> bool
    decreases requests.len(),
{
    requests.len() == 0 || (all_refused(s, requests.drop_last()) && outcome_of(
        state_after_all(s, requests.drop_last()),
        requests.last(),
    ) is Err)
}

/// A new ledger is in a well-formed state.
pub proof fn law_fresh_is_wf(first_id: u64)
    ensures
        LedgerState::fresh(first_id).wf(),
{
    lemma_net_below_gap(LedgerState::fresh(first_id).entries, 0, id_limit());
}

/// Recording an entry leaves a well-formed state well-formed, as long
/// as there is an id left to give out.
pub proof fn law_add_keeps_wf(s: LedgerState, payload: PayloadView, now: u64)
    requires
        s.wf(),
        s.next_id < u64::MAX,
    ensures
        s.add_entry(payload, now).0.wf(),
{
    lemma_net_below_insert(s.entries, s.next_id, new_entry(s.next_id, payload, now), id_limit());
}

/// Replacing an entry leaves a well-formed state well-formed.
pub proof fn law_update_keeps_wf(s: LedgerState, id: u64, payload: PayloadView, now: u64)
    requires
        s.wf(),
    ensures
        s.update_entry(id, payload, now).0.wf(),
{
    if s.entries.dom().contains(id) {
        lemma_net_below_insert(
            s.entries,
            id,
            replaced_entry(s.entries[id], payload, now),
            id_limit(),
        );
    }
}

/// Removing an entry leaves a well-formed state well-formed.
pub proof fn law_delete_keeps_wf(s: LedgerState, id: u64)
    requires
        s.wf(),
    ensures
        s.delete_entry(id).0.wf(),
{
    lemma_net_below_remove(s.entries, id, id_limit());
}

/// After any sequence of requests to a new ledger, the balance is the
/// sum of the effects of the entries then stored: credits counted up,
/// debits counted down. The sequence is no longer than there are ids to
/// give out.
pub proof fn law_balance_is_sum_of_stored_effects(first_id: u64, requests: Seq<Request>)
    requires
        first_id + requests.len() <= u64::MAX,
    ensures
        state_after_all(LedgerState::fresh(first_id), requests).balance == net_total(
            state_after_all(LedgerState::fresh(first_id), requests).entries,
        ),
{
    law_fresh_is_wf(first_id);
    lemma_requests_keep_wf(LedgerState::fresh(first_id), requests);
}

/// A sequence of requests that is no longer than there are ids to give
/// out leaves a well-formed state well-formed, and gives out at most one
/// id for each request.
pub proof fn lemma_requests_keep_wf(s: LedgerState, requests: Seq<Request>)
    requires
        s.wf(),
        s.next_id + requests.len() <= u64::MAX,
    ensures
        state_after_all(s, requests).wf(),
        state_after_all(s, requests).next_id <= s.next_id + requests.len(),
    decreases requests.len(),
{
    if requests.len() > 0 {
        lemma_requests_keep_wf(s, requests.drop_last());
        let before = state_after_all(s, requests.drop_last());
        match requests.last() {
            Request::Add { payload, now } => {
                law_add_keeps_wf(before, payload, now);
            },
            Request::Update { id, payload, now } => {
                law_update_keeps_wf(before, id, payload, now);
            },
            Request::Delete { id } => {
                law_delete_keeps_wf(before, id);
            },
        }
    }
}

/// A request that is refused leaves the ledger as it was: nothing is
/// written before every check has passed.
pub proof fn law_refused_request_changes_nothing(s: LedgerState, request: Request)
    requires
        outcome_of(s, request) is Err,
    ensures
        state_after(s, request) == s,
{
}

/// The balance read after requests of which none was accepted is the
/// balance read before them: it is the same from one accepted change to
/// the next, however often it is read.
pub proof fn law_balance_stays_until_accepted_change(s: LedgerState, requests: Seq<Request>)
    requires
        all_refused(s, requests),
    ensures
        state_after_all(s, requests) == s,
        state_after_all(s, requests).get_current_balance() == s.get_current_balance(),
    decreases requests.len(),
{
    if requests.len() > 0 {
        law_balance_stays_until_accepted_change(s, requests.drop_last());
        law_refused_request_changes_nothing(
            state_after_all(s, requests.drop_last()),
            requests.last(),
        );
    }
}

/// Recording an amount that is not positive is refused with
/// `InvalidAmount`, and the ledger stays as it was.
pub proof fn law_add_refuses_amount_not_positive(s: LedgerState, payload: PayloadView, now: u64)
    requires
        payload.amount <= 0,
    ensures
        s.add_entry(payload, now).0 == s,
        s.add_entry(payload, now).1 == Err::<EntryView, ErrorView>(
            ErrorView::InvalidAmount { msg: invalid_amount_text() },
        ),
{
}

/// Recording a debit of a positive amount over the balance is refused
/// with `InsufficientFunds`, and the ledger stays as it was.
pub proof fn law_add_refuses_debit_over_balance(s: LedgerState, payload: PayloadView, now: u64)
    requires
        payload.entry_type == TransactionType::Debit,
        payload.amount > s.balance,
        payload.amount > 0,
    ensures
        s.add_entry(payload, now).0 == s,
        s.add_entry(payload, now).1 == Err::<EntryView, ErrorView>(
            ErrorView::InsufficientFunds {
                msg: insufficient_funds_text(s.balance, payload.amount as int),
            },
        ),
{
}

/// A recorded entry gets an id under which nothing is stored, and the
/// next entry will get the id after it.
pub proof fn law_added_entry_gets_unused_id(s: LedgerState, payload: PayloadView, now: u64)
    requires
        s.wf(),
        s.next_id < u64::MAX,
        s.add_entry(payload, now).1 is Ok,
    ensures
        s.add_entry(payload, now).1->Ok_0.id == s.next_id,
        !s.entries.dom().contains(s.next_id),
        s.add_entry(payload, now).0.next_id == s.next_id + 1,
{
}

/// No request takes back an id that was given out: replacing and
/// removing leave the next id as it is, and recording moves it up.
pub proof fn law_next_id_never_goes_back(s: LedgerState, request: Request)
    requires
        s.next_id < u64::MAX,
    ensures
        state_after(s, request).next_id >= s.next_id,
{
}

/// An accepted entry does not drive the balance below zero: a balance
/// that is not negative is not negative after the entry is recorded.
pub proof fn law_accepted_add_keeps_balance_non_negative(
    s: LedgerState,
    payload: PayloadView,
    now: u64,
)
    requires
        s.balance >= 0,
        s.add_entry(payload, now).1 is Ok,
    ensures
        s.add_entry(payload, now).0.balance >= 0,
{
}

/// An accepted replacement leaves a balance that is not negative.
pub proof fn law_accepted_update_leaves_balance_non_negative(
    s: LedgerState,
    id: u64,
    payload: PayloadView,
    now: u64,
)
    requires
        s.update_entry(id, payload, now).1 is Ok,
    ensures
        s.update_entry(id, payload, now).0.balance >= 0,
{
}

/// Replacing or removing an entry under an id that no entry has is
/// refused with `NotFound`, and the ledger stays as it was.
pub proof fn law_absent_id_is_not_found(s: LedgerState, id: u64, payload: PayloadView, now: u64)
    requires
        !s.entries.dom().contains(id),
    ensures
        s.update_entry(id, payload, now).0 == s,
        s.update_entry(id, payload, now).1 == Err::<EntryView, ErrorView>(
            ErrorView::NotFound { msg: not_found_text(id) },
        ),
        s.delete_entry(id).0 == s,
        s.delete_entry(id).1 == Err::<EntryView, ErrorView>(
            ErrorView::NotFound { msg: not_found_text(id) },
        ),
{
}

/// An entry that was recorded is found under its id, as it was
/// returned.
pub proof fn law_add_then_get(s: LedgerState, payload: PayloadView, now: u64)
    requires
        s.add_entry(payload, now).1 is Ok,
    ensures
        s.add_entry(payload, now).0.get_entry(s.add_entry(payload, now).1->Ok_0.id)
            == s.add_entry(payload, now).1,
{
}

/// Removing a credit lowers the balance by its amount, and removing a
/// debit raises the balance by its amount.
pub proof fn law_delete_takes_back_effect(s: LedgerState, id: u64)
    requires
        s.entries.dom().contains(id),
    ensures
        s.entries[id].entry_type == TransactionType::Credit ==> s.delete_entry(id).0.balance
            == s.balance - s.entries[id].amount,
        s.entries[id].entry_type == TransactionType::Debit ==> s.delete_entry(id).0.balance
            == s.balance + s.entries[id].amount,
{
}

/// No entry is dated within bounds of which the first is the later.
pub proof fn law_inverted_range_is_empty(s: LedgerState, start: u64, end: u64)
    requires
        start > end,
    ensures
        s.get_entries_by_date_range(start, end) == Seq::<EntryView>::empty(),
{
    lemma_inverted_range_below(s.entries, start, end, id_limit());
}

/// No entry below any bound is dated within bounds of which the first
/// is the later.
pub proof fn lemma_inverted_range_below(
    entries: Map<u64, EntryView>,
    start: u64,
    end: u64,
    bound: nat,
)
    requires
        start > end,
    ensures
        dated_below(entries, start, end, bound) == Seq::<EntryView>::empty(),
    decreases bound,
{
    if bound > 0 {
        lemma_inverted_range_below(entries, start, end, (bound - 1) as nat);
    }
}

/// What the entries dated within two bounds are: each of them is stored
/// and dated within the bounds; each stored entry dated within the
/// bounds is among them; and they stand in ascending order of id.
pub proof fn law_range_holds_exactly_the_dated(s: LedgerState, start: u64, end: u64)
    requires
        s.wf(),
    ensures
        ({
            let found = s.get_entries_by_date_range(start, end);
            &&& forall|i: int|
                0 <= i < found.len() ==> s.entries.dom().contains((#[trigger] found[i]).id)
                    && s.entries[found[i].id] == found[i] && dated_within(found[i], start, end)
            &&& forall|id: u64|
                s.entries.dom().contains(id) && dated_within(#[trigger] s.entries[id], start, end)
                    ==> found.contains(s.entries[id])
            &&& forall|i: int, j: int|
                0 <= i < j < found.len() ==> (#[trigger] found[i]).id < (#[trigger] found[j]).id
        }),
{
    lemma_dated_below_holds(s, start, end, id_limit());
}

/// [`law_range_holds_exactly_the_dated`], of the entries below a bound.
pub proof fn lemma_dated_below_holds(s: LedgerState, start: u64, end: u64, bound: nat)
    requires
        s.wf(),
        bound <= id_limit(),
    ensures
        ({
            let found = dated_below(s.entries, start, end, bound);
            &&& forall|i: int|
                0 <= i < found.len() ==> s.entries.dom().contains((#[trigger] found[i]).id)
                    && s.entries[found[i].id] == found[i] && dated_within(found[i], start, end)
                    && found[i].id < bound
            &&& forall|id: u64|
                id < bound && s.entries.dom().contains(id) && dated_within(
                    #[trigger] s.entries[id],
                    start,
                    end,
                ) ==> found.contains(s.entries[id])
            &&& forall|i: int, j: int|
                0 <= i < j < found.len() ==> (#[trigger] found[i]).id < (#[trigger] found[j]).id
        }),
    decreases bound,
{
    if bound > 0 {
        lemma_dated_below_holds(s, start, end, (bound - 1) as nat);
        let before = dated_below(s.entries, start, end, (bound - 1) as nat);
        let found = dated_below(s.entries, start, end, bound);
        let last = (bound - 1) as u64;
        assert forall|id: u64|
            id < bound && s.entries.dom().contains(id) && dated_within(
                #[trigger] s.entries[id],
                start,
                end,
            ) implies found.contains(s.entries[id]) by {
            if id == last {
                assert(found[found.len() - 1] == s.entries[id]);
            } else {
                let i = choose|i: int| 0 <= i < before.len() && before[i] == s.entries[id];
                assert(found[i] == s.entries[id]);
            }
        }
    }
}

} // verus!
