//! Text: the messages that errors carry, and text read back from bytes.

use crate::entry::Error;
use vstd::prelude::*;
use vstd::string::StringExecFns;
use vstd::utf8::{decode_utf8, valid_utf8};

verus! {

/// The character of a decimal digit.
pub open spec fn digit_char(d: int) -> char
    recommends
        0 <= d < 10,
{
    ((48 + d) as u32) as char
}

/// The decimal digits of a natural number, without leading zeros.
pub open spec fn decimal_digits(n: nat) -> Seq<char>
    decreases n,
{
    if n < 10 {
        seq![digit_char(n as int)]
    } else {
        decimal_digits(n / 10).push(digit_char((n % 10) as int))
    }
}

/// An integer in decimal notation, with a minus sign when it is negative.
pub open spec fn decimal_text(n: int) -> Seq<char> {
    if n < 0 {
        seq!['-'] + decimal_digits((-n) as nat)
    } else {
        decimal_digits(n as nat)
    }
}

/// Renders an integer with `format!("{}", n)`. Trusted: the result is the
/// integer in decimal notation as [`decimal_text`] defines it, which is
/// what std's `Display` for integers prints.
#[verifier::external_body]
fn decimal_string(n: i128) -> (s: String)
    ensures
        s@ == decimal_text(n as int),
{
    format!("{}", n)
}

/// `String::from_utf8`, with its error dropped. Trusted: the call
/// succeeds exactly on bytes that are valid UTF-8, and the text it gives
/// is the one that those bytes encode.
#[verifier::external_body]
pub(crate) fn string_from_utf8(bytes: Vec<u8>) -> (text: Option<String>)
    ensures
        text.is_some() == valid_utf8(bytes@),
        text matches Some(s) ==> s@ == decode_utf8(bytes@),
{
    String::from_utf8(bytes).ok()
}

/// The message of the error for an id that no entry has.
pub open spec fn not_found_text(id: u64) -> Seq<char> {
    "Entry with id="@ + decimal_text(id as int) + " not found"@
}

/// The message of the error for an amount that is not positive.
pub open spec fn invalid_amount_text() -> Seq<char> {
    "Amount must be greater than 0"@
}

/// The message of the error for a debit that the balance cannot cover.
pub open spec fn insufficient_funds_text(balance: int, required: int) -> Seq<char> {
    "Insufficient funds. Current balance: "@ + decimal_text(balance) + ", Required: "@
        + decimal_text(required)
}

/// The message of the error for a replacement that would leave the
/// balance negative.
pub open spec fn negative_balance_text() -> Seq<char> {
    "Update would result in negative balance"@
}

/// The error for an id that no entry has.
pub fn not_found(id: u64) -> (e: Error)
    ensures
        e@ == (crate::entry::ErrorView::NotFound { msg: not_found_text(id) }),
{
    let mut msg = String::from_str("Entry with id=");
    msg.append(decimal_string(id as i128).as_str());
    msg.append(" not found");
    Error::NotFound { msg }
}

/// The error for an amount that is not positive.
pub fn invalid_amount() -> (e: Error)
    ensures
        e@ == (crate::entry::ErrorView::InvalidAmount { msg: invalid_amount_text() }),
{
    Error::InvalidAmount { msg: String::from_str("Amount must be greater than 0") }
}

/// The error for a debit of `required` that `balance` cannot cover.
pub fn insufficient_funds(balance: i128, required: i64) -> (e: Error)
    ensures
        e@ == (crate::entry::ErrorView::InsufficientFunds {
            msg: insufficient_funds_text(balance as int, required as int),
        }),
{
    let mut msg = String::from_str("Insufficient funds. Current balance: ");
    msg.append(decimal_string(balance).as_str());
    msg.append(", Required: ");
    msg.append(decimal_string(required as i128).as_str());
    Error::InsufficientFunds { msg }
}

/// The error for a replacement that would leave the balance negative.
pub fn negative_balance() -> (e: Error)
    ensures
        e@ == (crate::entry::ErrorView::InsufficientFunds { msg: negative_balance_text() }),
{
    Error::InsufficientFunds { msg: String::from_str("Update would result in negative balance") }
}

} // verus!
