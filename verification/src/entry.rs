//! The data a ledger records: entries, the payload a caller supplies, and
//! the errors a request can end in.

use vstd::prelude::*;

verus! {

/// The direction of a cash movement.
#[derive(Clone, Copy, Debug, PartialEq, Eq, Structural)]
pub enum TransactionType {
    /// A cash outflow: lowers the balance.
    Debit,
    /// A cash inflow: raises the balance.
    Credit,
}

impl Default for TransactionType {
    fn default() -> (kind: Self)
        ensures
            kind == TransactionType::Debit,
    {
        TransactionType::Debit
    }
}

/// One recorded cash movement.
#[derive(Clone, Debug, PartialEq, Eq)]
pub struct PettyCashEntry {
    pub id: u64,
    pub date: u64,
    pub description: String,
    pub amount: i64,
    pub entry_type: TransactionType,
    pub category: String,
    pub receipt_url: Option<String>,
    pub approved_by: Option<String>,
    pub created_at: u64,
    pub updated_at: Option<u64>,
}

impl Default for PettyCashEntry {
    fn default() -> (entry: Self)
        ensures
            entry@ == (EntryView {
                id: 0,
                date: 0,
                description: Seq::empty(),
                amount: 0,
                entry_type: TransactionType::Debit,
                category: Seq::empty(),
                receipt_url: None,
                approved_by: None,
                created_at: 0,
                updated_at: None,
            }),
    {
        PettyCashEntry {
            id: 0,
            date: 0,
            description: String::new(),
            amount: 0,
            entry_type: TransactionType::Debit,
            category: String::new(),
            receipt_url: None,
            approved_by: None,
            created_at: 0,
            updated_at: None,
        }
    }
}

/// What a caller supplies to record or replace an entry; the id and the
/// timestamps are assigned by the ledger.
#[derive(Clone, Debug, PartialEq, Eq)]
pub struct EntryPayload {
    pub description: String,
    pub amount: i64,
    pub entry_type: TransactionType,
    pub category: String,
    pub receipt_url: Option<String>,
    pub approved_by: Option<String>,
}

/// Why a request was refused. Each kind carries a message for people.
#[derive(Clone, Debug, PartialEq, Eq)]
pub enum Error {
    NotFound { msg: String },
    InvalidAmount { msg: String },
    InsufficientFunds { msg: String },
}

/// The mathematical value of a [`PettyCashEntry`].
pub ghost struct EntryView {
    pub id: u64,
    pub date: u64,
    pub description: Seq<char>,
    pub amount: i64,
    pub entry_type: TransactionType,
    pub category: Seq<char>,
    pub receipt_url: Option<Seq<char>>,
    pub approved_by: Option<Seq<char>>,
    pub created_at: u64,
    pub updated_at: Option<u64>,
}

/// The mathematical value of an [`EntryPayload`].
pub ghost struct PayloadView {
    pub description: Seq<char>,
    pub amount: i64,
    pub entry_type: TransactionType,
    pub category: Seq<char>,
    pub receipt_url: Option<Seq<char>>,
    pub approved_by: Option<Seq<char>>,
}

/// The mathematical value of an [`Error`].
pub ghost enum ErrorView {
    NotFound { msg: Seq<char> },
    InvalidAmount { msg: Seq<char> },
    InsufficientFunds { msg: Seq<char> },
}

/// The characters of an optional text.
pub open spec fn text_view(text: Option<String>) -> Option<Seq<char>> {
    match text {
        Some(s) => Some(s@),
        None => None,
    }
}

impl View for PettyCashEntry {
    type V = EntryView;

    open spec fn view(&self) -> EntryView {
        EntryView {
            id: self.id,
            date: self.date,
            description: self.description@,
            amount: self.amount,
            entry_type: self.entry_type,
            category: self.category@,
            receipt_url: text_view(self.receipt_url),
            approved_by: text_view(self.approved_by),
            created_at: self.created_at,
            updated_at: self.updated_at,
        }
    }
}

impl View for EntryPayload {
    type V = PayloadView;

    open spec fn view(&self) -> PayloadView {
        PayloadView {
            description: self.description@,
            amount: self.amount,
            entry_type: self.entry_type,
            category: self.category@,
            receipt_url: text_view(self.receipt_url),
            approved_by: text_view(self.approved_by),
        }
    }
}

impl View for Error {
    type V = ErrorView;

    open spec fn view(&self) -> ErrorView {
        match self {
            Error::NotFound { msg } => ErrorView::NotFound { msg: msg@ },
            Error::InvalidAmount { msg } => ErrorView::InvalidAmount { msg: msg@ },
            Error::InsufficientFunds { msg } => ErrorView::InsufficientFunds { msg: msg@ },
        }
    }
}

/// The mathematical value of a request's result.
pub open spec fn outcome_view(r: Result<PettyCashEntry, Error>) -> Result<EntryView, ErrorView> {
    match r {
        Ok(entry) => Ok(entry@),
        Err(e) => Err(e@),
    }
}

/// What an entry of the given kind and amount adds to the balance: a
/// credit its amount, a debit the negative of it.
pub open spec fn signed_amount(kind: TransactionType, amount: i64) -> int {
    match kind {
        TransactionType::Credit => amount as int,
        TransactionType::Debit => -(amount as int),
    }
}

impl EntryView {
    /// What this entry adds to the balance while it is stored.
    pub open spec fn effect(self) -> int {
        signed_amount(self.entry_type, self.amount)
    }
}

/// Computes [`signed_amount`].
pub fn balance_change(kind: TransactionType, amount: i64) -> (delta: i128)
    ensures
        delta == signed_amount(kind, amount),
{
    match kind {
        TransactionType::Credit => amount as i128,
        TransactionType::Debit => -(amount as i128),
    }
}

} // verus!
