//! A petty-cash ledger kept in stable structures.
//!
//! Entries are recorded cash movements, debits and credits, stored by id
//! in an ordered map; a running balance is kept beside them and moves in
//! lock-step with every accepted change. Amounts are whole numbers of the
//! smallest currency unit.
//!
//! - [`ledger`] is the service: it records, replaces and removes entries,
//!   and refuses what would break the books.
//! - [`model`] says what each request makes of a ledger's state, and
//!   [`laws`] what follows from that.
//! - [`allocator`], [`store`] and [`balance`] are the three parts that a
//!   ledger is made of; [`codec`] is the layout of an entry in the store.
//! - [`entry`] and [`text`] hold the data types and the messages of errors.
//! - [`stable`] holds the stable structures underneath, and all that is
//!   taken on trust about them.

pub mod allocator;
pub mod balance;
pub mod codec;
pub mod entry;
pub mod laws;
pub mod ledger;
pub mod model;
pub mod stable;
pub mod store;
pub mod text;
