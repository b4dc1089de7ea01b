use petty_cash::codec::{decode_entry, encode_entry, measure, FIXED_BYTES};
use petty_cash::entry::{EntryPayload, PettyCashEntry, TransactionType};
use petty_cash::stable::MAX_ENTRY_BYTES;

fn sample() -> PettyCashEntry {
    PettyCashEntry {
        id: 0x0102_0304_0506_0708,
        date: 2,
        description: "ab".to_string(),
        amount: 5,
        entry_type: TransactionType::Credit,
        category: "é".to_string(),
        receipt_url: None,
        approved_by: Some("x".to_string()),
        created_at: 3,
        updated_at: Some(4),
    }
}

#[test]
fn stored_form_of_an_entry() {
    let bytes = encode_entry(&sample()).unwrap();
    let expected: Vec<u8> = vec![
        8, 7, 6, 5, 4, 3, 2, 1, // id
        2, 0, 0, 0, 0, 0, 0, 0, // date
        3, 0, 0, 0, 0, 0, 0, 0, // created_at
        1, 4, 0, 0, 0, 0, 0, 0, 0, // updated_at
        5, 0, 0, 0, 0, 0, 0, 0x80, // amount
        1, // kind
        2, 0, 0, 0, b'a', b'b', // description
        2, 0, 0, 0, 0xc3, 0xa9, // category
        0, // receipt_url
        1, 1, 0, 0, 0, b'x', // approved_by
    ];
    assert_eq!(bytes, expected);
}

#[test]
fn stored_form_of_absent_time_and_negative_amount() {
    let entry = PettyCashEntry {
        id: 1,
        date: 0,
        description: String::new(),
        amount: -1,
        entry_type: TransactionType::Debit,
        category: String::new(),
        receipt_url: None,
        approved_by: None,
        created_at: 0,
        updated_at: None,
    };
    let bytes = encode_entry(&entry).unwrap();
    assert_eq!(bytes.len(), FIXED_BYTES + 10);
    assert_eq!(&bytes[24..33], &[0u8; 9]);
    assert_eq!(&bytes[33..41], &[0xff, 0xff, 0xff, 0xff, 0xff, 0xff, 0xff, 0x7f]);
    assert_eq!(bytes[41], 0);
    assert_eq!(decode_entry(&bytes), Some(entry));
}

#[test]
fn decode_gives_back_what_was_encoded() {
    let entry = sample();
    let bytes = encode_entry(&entry).unwrap();
    assert_eq!(decode_entry(&bytes), Some(entry));
    for amount in [i64::MIN, -1, 0, 1, i64::MAX] {
        let entry = PettyCashEntry { amount, ..sample() };
        let bytes = encode_entry(&entry).unwrap();
        assert_eq!(decode_entry(&bytes), Some(entry));
    }
}

#[test]
fn decode_refuses_what_is_no_entry() {
    assert_eq!(decode_entry(&[]), None);
    assert_eq!(decode_entry(&[0u8; 41]), None);
    let bytes = encode_entry(&sample()).unwrap();
    assert_eq!(decode_entry(&bytes[..bytes.len() - 1]), None);
    let mut longer = bytes.clone();
    longer.push(0);
    assert_eq!(decode_entry(&longer), None);
    let mut bad_kind = bytes.clone();
    bad_kind[41] = 2;
    assert_eq!(decode_entry(&bad_kind), None);
    let mut bad_tag = bytes.clone();
    bad_tag[24] = 2;
    assert_eq!(decode_entry(&bad_tag), None);
    let mut bad_length = bytes.clone();
    bad_length[42] = 200;
    assert_eq!(decode_entry(&bad_length), None);
}

#[test]
fn decode_refuses_text_that_is_not_utf8() {
    let mut bytes = encode_entry(&sample()).unwrap();
    assert_eq!(bytes[46], b'a');
    bytes[46] = 0xff;
    assert_eq!(decode_entry(&bytes), None);
    let mut bytes = encode_entry(&sample()).unwrap();
    bytes[53] = b'e';
    assert_eq!(decode_entry(&bytes), None);
}

#[test]
fn decode_ignores_the_time_behind_an_absent_tag() {
    let entry = PettyCashEntry { updated_at: None, ..sample() };
    let mut bytes = encode_entry(&entry).unwrap();
    bytes[25] = 9;
    assert_eq!(decode_entry(&bytes), Some(entry));
}

#[test]
fn measure_is_the_length_of_the_stored_form() {
    let entry = sample();
    let bytes = encode_entry(&entry).unwrap();
    let size =
        measure(&entry.description, &entry.category, &entry.receipt_url, &entry.approved_by);
    assert_eq!(size, Some(bytes.len()));
    assert_eq!(size, Some(FIXED_BYTES + 4 + 2 + 4 + 2 + 1 + 5 + 1));
    assert_eq!(FIXED_BYTES, 42);
    assert_eq!(measure(&String::new(), &String::new(), &None, &None), Some(52));
}

#[test]
fn entry_at_the_size_limit_fits() {
    assert_eq!(MAX_ENTRY_BYTES, 2048);
    let at_limit = PettyCashEntry {
        description: "d".repeat(MAX_ENTRY_BYTES - 52),
        category: String::new(),
        receipt_url: None,
        approved_by: None,
        ..sample()
    };
    assert!(at_limit.fits());
    let bytes = encode_entry(&at_limit).unwrap();
    assert_eq!(bytes.len(), MAX_ENTRY_BYTES);
    assert_eq!(decode_entry(&bytes), Some(at_limit));
}

#[test]
fn entry_over_the_size_limit_does_not_fit() {
    let over = PettyCashEntry {
        description: "d".repeat(MAX_ENTRY_BYTES - 51),
        category: String::new(),
        receipt_url: None,
        approved_by: None,
        ..sample()
    };
    assert!(!over.fits());
    assert_eq!(encode_entry(&over), None);
    assert_eq!(measure(&over.description, &over.category, &None, &None), None);
    let huge = "h".repeat(100_000);
    assert_eq!(measure(&String::new(), &huge, &None, &None), None);
    assert_eq!(measure(&String::new(), &String::new(), &Some(huge.clone()), &None), None);
    assert_eq!(measure(&String::new(), &String::new(), &None, &Some(huge)), None);
}

#[test]
fn size_counts_bytes_not_characters() {
    let given = EntryPayload {
        description: "é".repeat(998),
        amount: 1,
        entry_type: TransactionType::Debit,
        category: String::new(),
        receipt_url: None,
        approved_by: None,
    };
    assert!(given.fits());
    let given = EntryPayload { description: "é".repeat(999), ..given };
    assert!(!given.fits());
}

#[test]
fn payload_fits_counts_every_text() {
    let given = EntryPayload {
        description: "d".repeat(500),
        amount: 1,
        entry_type: TransactionType::Debit,
        category: "c".repeat(500),
        receipt_url: Some("u".repeat(500)),
        approved_by: Some("a".repeat(488)),
    };
    assert!(given.fits());
    let given = EntryPayload { approved_by: Some("a".repeat(489)), ..given };
    assert!(!given.fits());
}
