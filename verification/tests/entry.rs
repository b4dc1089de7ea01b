use petty_cash::entry::{balance_change, Error, TransactionType};
use petty_cash::text::{insufficient_funds, invalid_amount, negative_balance, not_found};

#[test]
fn default_kind_is_debit() {
    assert_eq!(TransactionType::default(), TransactionType::Debit);
}

#[test]
fn credit_counts_up_and_debit_down() {
    assert_eq!(balance_change(TransactionType::Credit, 30), 30);
    assert_eq!(balance_change(TransactionType::Debit, 30), -30);
    assert_eq!(balance_change(TransactionType::Credit, 0), 0);
    assert_eq!(balance_change(TransactionType::Debit, 0), 0);
    assert_eq!(balance_change(TransactionType::Credit, -4), -4);
    assert_eq!(balance_change(TransactionType::Debit, -4), 4);
    assert_eq!(balance_change(TransactionType::Debit, i64::MIN), 9_223_372_036_854_775_808);
    assert_eq!(balance_change(TransactionType::Credit, i64::MAX), 9_223_372_036_854_775_807);
}

#[test]
fn messages_of_errors() {
    assert_eq!(not_found(42), Error::NotFound { msg: "Entry with id=42 not found".to_string() });
    assert_eq!(
        invalid_amount(),
        Error::InvalidAmount { msg: "Amount must be greater than 0".to_string() }
    );
    assert_eq!(
        insufficient_funds(-1_000_000_000_000_000_000_000, 10),
        Error::InsufficientFunds {
            msg: "Insufficient funds. Current balance: -1000000000000000000000, Required: 10"
                .to_string()
        }
    );
    assert_eq!(
        insufficient_funds(0, i64::MAX),
        Error::InsufficientFunds {
            msg: "Insufficient funds. Current balance: 0, Required: 9223372036854775807"
                .to_string()
        }
    );
    assert_eq!(
        negative_balance(),
        Error::InsufficientFunds { msg: "Update would result in negative balance".to_string() }
    );
}
