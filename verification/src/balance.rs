//! The cell that holds the running balance.

use crate::stable::{signed_cell_value, SignedCell};
use vstd::prelude::*;

verus! {

/// Holds one number, the balance. It checks nothing: what may be
/// written is the ledger's business.
pub struct BalanceCell {
    cell: SignedCell,
}

impl View for BalanceCell {
    type V = int;

    closed spec fn view(&self) -> int {
        signed_cell_value(self.cell) as int
    }
}

impl BalanceCell {
    /// A balance cell over a stable cell, with the number that it holds.
    pub(crate) fn new(cell: SignedCell) -> (balance: BalanceCell)
        ensures
            balance@ == signed_cell_value(cell),
    {
        BalanceCell { cell }
    }

    /// The balance.
    pub fn get(&self) -> (value: i128)
        ensures
            value == self@,
    {
        self.cell.read()
    }

    /// Replaces the balance.
    pub fn set(&mut self, value: i128)
        ensures
            final(self)@ == value,
    {
        self.cell.write(value);
    }
}

} // verus!
