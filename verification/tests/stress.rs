use petty_cash::entry::{EntryPayload, Error, PettyCashEntry, TransactionType};
use petty_cash::ledger::Ledger;
use std::collections::BTreeMap;

struct Dice(u64);

impl Dice {
    fn roll(&mut self, sides: u64) -> u64 {
        self.0 = self.0.wrapping_mul(6364136223846793005).wrapping_add(1442695040888963407);
        (self.0 >> 33) % sides
    }
}

fn effect(kind: TransactionType, amount: i64) -> i128 {
    match kind {
        TransactionType::Credit => amount as i128,
        TransactionType::Debit => -(amount as i128),
    }
}

fn kind_of(error: &Error) -> u8 {
    match error {
        Error::NotFound { .. } => 0,
        Error::InvalidAmount { .. } => 1,
        Error::InsufficientFunds { .. } => 2,
    }
}

#[test]
fn ledger_agrees_with_a_plain_map() {
    let mut dice = Dice(2024);
    let mut ledger = Ledger::new();
    let mut plain: BTreeMap<u64, PettyCashEntry> = BTreeMap::new();
    let mut balance: i128 = 0;
    let mut next_id: u64 = 1;
    for step in 0..4000u64 {
        let kind =
            if dice.roll(2) == 0 { TransactionType::Credit } else { TransactionType::Debit };
        let amount = dice.roll(400) as i64 - 10;
        let given = EntryPayload {
            description: format!("step {step}"),
            amount,
            entry_type: kind,
            category: "c".repeat(dice.roll(60) as usize),
            receipt_url: if dice.roll(2) == 0 { None } else { Some(format!("r/{step}")) },
            approved_by: if dice.roll(3) == 0 { None } else { Some("ö".repeat(3)) },
        };
        let id = dice.roll(next_id + 2);
        match dice.roll(10) {
            0..=4 => {
                let expected = if amount <= 0 {
                    Err(1)
                } else if kind == TransactionType::Debit && balance < amount as i128 {
                    Err(2)
                } else {
                    let entry = PettyCashEntry {
                        id: next_id,
                        date: step,
                        description: given.description.clone(),
                        amount,
                        entry_type: kind,
                        category: given.category.clone(),
                        receipt_url: given.receipt_url.clone(),
                        approved_by: given.approved_by.clone(),
                        created_at: step,
                        updated_at: None,
                    };
                    plain.insert(next_id, entry.clone());
                    balance += effect(kind, amount);
                    next_id += 1;
                    Ok(entry)
                };
                let got = ledger.add_entry(given, step).map_err(|e| kind_of(&e));
                assert_eq!(got, expected);
            }
            5..=7 => {
                let expected = match plain.get(&id).cloned() {
                    None => Err(0),
                    Some(old) => {
                        let after =
                            balance - effect(old.entry_type, old.amount) + effect(kind, amount);
                        if after < 0 {
                            Err(2)
                        } else {
                            let entry = PettyCashEntry {
                                id: old.id,
                                date: old.date,
                                description: given.description.clone(),
                                amount,
                                entry_type: kind,
                                category: given.category.clone(),
                                receipt_url: given.receipt_url.clone(),
                                approved_by: given.approved_by.clone(),
                                created_at: old.created_at,
                                updated_at: Some(step),
                            };
                            plain.insert(id, entry.clone());
                            balance = after;
                            Ok(entry)
                        }
                    }
                };
                let got = ledger.update_entry(id, given, step).map_err(|e| kind_of(&e));
                assert_eq!(got, expected);
            }
            _ => {
                let expected = match plain.remove(&id) {
                    None => Err(0),
                    Some(old) => {
                        balance -= effect(old.entry_type, old.amount);
                        Ok(old)
                    }
                };
                let got = ledger.delete_entry(id).map_err(|e| kind_of(&e));
                assert_eq!(got, expected);
            }
        }
        assert_eq!(ledger.get_current_balance(), balance);
        assert_eq!(ledger.next_id(), next_id);
        assert_eq!(ledger.get_entry(id).ok(), plain.get(&id).cloned());
        if step % 250 == 0 {
            let all: Vec<PettyCashEntry> = plain.values().cloned().collect();
            assert_eq!(ledger.get_entries_by_date_range(0, u64::MAX), all);
            let start = dice.roll(step + 1);
            let end = start + dice.roll(500);
            let dated: Vec<PettyCashEntry> =
                all.iter().filter(|e| start <= e.date && e.date <= end).cloned().collect();
            assert_eq!(ledger.get_entries_by_date_range(start, end), dated);
        }
    }
    assert!(plain.len() > 100);
    let sum: i128 = plain.values().map(|e| effect(e.entry_type, e.amount)).sum();
    assert_eq!(ledger.get_current_balance(), sum);
    let parts = ledger.into_parts();
    assert_eq!(parts.store.audit(next_id), Some(sum));
    let mut ledger = Ledger::from_parts(parts).expect("the parts are consistent");
    let ids: Vec<u64> = plain.keys().copied().collect();
    for id in ids {
        let old = plain.remove(&id).unwrap();
        assert_eq!(ledger.delete_entry(id), Ok(old));
    }
    assert_eq!(ledger.get_current_balance(), 0);
    assert!(ledger.get_entries_by_date_range(0, u64::MAX).is_empty());
}
