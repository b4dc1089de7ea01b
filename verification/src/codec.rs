//! How an entry is laid out in the bytes that the store keeps.
//!
//! An entry is written as its fields one after another: integers as
//! little-endian bytes, a text as the length of its UTF-8 encoding in four
//! bytes followed by the encoding, an optional field behind a tag byte.
//! [`parse_entry`] reads that layout back, and [`lemma_entry_round_trip`]
//! shows that it returns the entry that was written.

use crate::entry::{
    text_view, EntryPayload, EntryView, PayloadView, PettyCashEntry, TransactionType,
};
use crate::stable::MAX_ENTRY_BYTES;
use crate::text::string_from_utf8;
use vstd::bytes::*;
use vstd::prelude::*;
use vstd::slice::*;
use vstd::string::*;
use vstd::utf8::*;

verus! {

/// The bytes that the fields of fixed width take: four numbers of eight
/// bytes, the update time behind its tag, and the kind.
pub const FIXED_BYTES: usize = 42;

/// The amount as an unsigned number: the signed range moved up by 2^63.
pub open spec fn amount_code(amount: i64) -> u64 {
    (amount + 0x8000_0000_0000_0000) as u64
}

/// The amount that [`amount_code`] stands for.
pub open spec fn code_amount(code: u64) -> i64 {
    (code - 0x8000_0000_0000_0000) as i64
}

/// The byte that stands for a kind of movement.
pub open spec fn kind_byte(kind: TransactionType) -> u8 {
    match kind {
        TransactionType::Debit => 0,
        TransactionType::Credit => 1,
    }
}

/// A text: the length of its UTF-8 encoding, then the encoding.
pub open spec fn text_bytes(text: Seq<char>) -> Seq<u8> {
    spec_u32_to_le_bytes(encode_utf8(text).len() as u32) + encode_utf8(text)
}

/// An optional text: a zero byte, or a one byte and the text.
pub open spec fn opt_text_bytes(text: Option<Seq<char>>) -> Seq<u8> {
    match text {
        None => seq![0u8],
        Some(t) => seq![1u8] + text_bytes(t),
    }
}

/// An optional time: a tag byte and eight bytes, which are zero where
/// there is no time.
pub open spec fn opt_time_bytes(time: Option<u64>) -> Seq<u8> {
    match time {
        None => seq![0u8] + spec_u64_to_le_bytes(0),
        Some(t) => seq![1u8] + spec_u64_to_le_bytes(t),
    }
}

/// The stored form of an entry.
pub open spec fn entry_bytes(e: EntryView) -> Seq<u8> {
    spec_u64_to_le_bytes(e.id) + (spec_u64_to_le_bytes(e.date) + (spec_u64_to_le_bytes(
        e.created_at,
    ) + (opt_time_bytes(e.updated_at) + (spec_u64_to_le_bytes(amount_code(e.amount)) + (seq![
        kind_byte(e.entry_type),
    ] + texts_bytes(e.description, e.category, e.receipt_url, e.approved_by))))))
}

/// The stored form of the four texts of an entry.
pub open spec fn texts_bytes(
    description: Seq<char>,
    category: Seq<char>,
    receipt_url: Option<Seq<char>>,
    approved_by: Option<Seq<char>>,
) -> Seq<u8> {
    text_bytes(description) + (text_bytes(category) + (opt_text_bytes(receipt_url)
        + opt_text_bytes(approved_by)))
}

/// The bytes that an optional text takes when stored.
pub open spec fn opt_text_size(text: Option<Seq<char>>) -> nat {
    match text {
        None => 1,
        Some(t) => 5 + encode_utf8(t).len(),
    }
}

/// The bytes that an entry with these four texts takes when stored.
pub open spec fn stored_size(
    description: Seq<char>,
    category: Seq<char>,
    receipt_url: Option<Seq<char>>,
    approved_by: Option<Seq<char>>,
) -> nat {
    FIXED_BYTES as nat + 4 + encode_utf8(description).len() + 4 + encode_utf8(category).len()
        + opt_text_size(receipt_url) + opt_text_size(approved_by)
}

impl EntryView {
    /// The bytes that this entry takes when stored.
    pub open spec fn stored_size(self) -> nat {
        stored_size(self.description, self.category, self.receipt_url, self.approved_by)
    }

    /// Whether this entry can be stored.
    pub open spec fn fits(self) -> bool {
        self.stored_size() <= MAX_ENTRY_BYTES
    }
}

impl PayloadView {
    /// The bytes that an entry made from this payload takes when stored.
    pub open spec fn stored_size(self) -> nat {
        stored_size(self.description, self.category, self.receipt_url, self.approved_by)
    }

    /// Whether an entry made from this payload can be stored.
    pub open spec fn fits(self) -> bool {
        self.stored_size() <= MAX_ENTRY_BYTES
    }
}

/// What was read, of a step that succeeded.
pub open spec fn got<A>(step: Option<(A, Seq<u8>)>) -> A {
    match step {
        Some((value, _)) => value,
        None => arbitrary(),
    }
}

/// The bytes that a step left unread.
pub open spec fn rest<A>(step: Option<(A, Seq<u8>)>) -> Seq<u8> {
    match step {
        Some((_, unread)) => unread,
        None => Seq::empty(),
    }
}

/// Reads one byte.
pub open spec fn parse_byte(b: Seq<u8>) -> Option<(u8, Seq<u8>)> {
    if b.len() >= 1 {
        Some((b[0], b.skip(1)))
    } else {
        None
    }
}

/// Reads a number of four bytes.
pub open spec fn parse_u32(b: Seq<u8>) -> Option<(u32, Seq<u8>)> {
    if b.len() >= 4 {
        Some((spec_u32_from_le_bytes(b.subrange(0, 4)), b.skip(4)))
    } else {
        None
    }
}

/// Reads a number of eight bytes.
pub open spec fn parse_u64(b: Seq<u8>) -> Option<(u64, Seq<u8>)> {
    if b.len() >= 8 {
        Some((spec_u64_from_le_bytes(b.subrange(0, 8)), b.skip(8)))
    } else {
        None
    }
}

/// Reads a kind of movement.
pub open spec fn parse_kind(b: Seq<u8>) -> Option<(TransactionType, Seq<u8>)> {
    if b.len() >= 1 && b[0] == 0 {
        Some((TransactionType::Debit, b.skip(1)))
    } else if b.len() >= 1 && b[0] == 1 {
        Some((TransactionType::Credit, b.skip(1)))
    } else {
        None
    }
}

/// Reads an optional time.
pub open spec fn parse_opt_time(b: Seq<u8>) -> Option<(Option<u64>, Seq<u8>)> {
    let tag = parse_byte(b);
    let time = parse_u64(rest(tag));
    if tag is Some && time is Some && got(tag) == 0 {
        Some((None, rest(time)))
    } else if tag is Some && time is Some && got(tag) == 1 {
        Some((Some(got(time)), rest(time)))
    } else {
        None
    }
}

/// Reads a text.
pub open spec fn parse_text(b: Seq<u8>) -> Option<(Seq<char>, Seq<u8>)> {
    let len = parse_u32(b);
    if len is Some && got(len) <= rest(len).len() && valid_utf8(
        rest(len).subrange(0, got(len) as int),
    ) {
        Some((decode_utf8(rest(len).subrange(0, got(len) as int)), rest(len).skip(got(len) as int)))
    } else {
        None
    }
}

/// Reads an optional text.
pub open spec fn parse_opt_text(b: Seq<u8>) -> Option<(Option<Seq<char>>, Seq<u8>)> {
    let tag = parse_byte(b);
    if tag is Some && got(tag) == 0 {
        Some((None, rest(tag)))
    } else if tag is Some && got(tag) == 1 && parse_text(rest(tag)) is Some {
        Some((Some(got(parse_text(rest(tag)))), rest(parse_text(rest(tag)))))
    } else {
        None
    }
}

/// Reads an entry from its stored form: every field in turn, with no
/// byte left over.
pub open spec fn parse_entry(b: Seq<u8>) -> Option<EntryView> {
    let id = parse_u64(b);
    let date = parse_u64(rest(id));
    let created_at = parse_u64(rest(date));
    let updated_at = parse_opt_time(rest(created_at));
    let amount = parse_u64(rest(updated_at));
    let kind = parse_kind(rest(amount));
    let description = parse_text(rest(kind));
    let category = parse_text(rest(description));
    let receipt_url = parse_opt_text(rest(category));
    let approved_by = parse_opt_text(rest(receipt_url));
    if id is Some && date is Some && created_at is Some && updated_at is Some && amount is Some
        && kind is Some && description is Some && category is Some && receipt_url is Some
        && approved_by is Some && rest(approved_by).len() == 0 {
        Some(
            EntryView {
                id: got(id),
                date: got(date),
                description: got(description),
                amount: code_amount(got(amount)),
                entry_type: got(kind),
                category: got(category),
                receipt_url: got(receipt_url),
                approved_by: got(approved_by),
                created_at: got(created_at),
                updated_at: got(updated_at),
            },
        )
    } else {
        None
    }
}

/// The mathematical value of an entry that may be absent.
pub open spec fn found_view(found: Option<PettyCashEntry>) -> Option<EntryView> {
    match found {
        Some(entry) => Some(entry@),
        None => None,
    }
}

proof fn lemma_parse_u64(v: u64, unread: Seq<u8>)
    ensures
        parse_u64(spec_u64_to_le_bytes(v) + unread) == Some((v, unread)),
{
    lemma_auto_spec_u64_to_from_le_bytes();
    let b = spec_u64_to_le_bytes(v) + unread;
    assert(b.subrange(0, 8) =~= spec_u64_to_le_bytes(v));
    assert(b.skip(8) =~= unread);
}

proof fn lemma_parse_u32(v: u32, unread: Seq<u8>)
    ensures
        parse_u32(spec_u32_to_le_bytes(v) + unread) == Some((v, unread)),
{
    lemma_auto_spec_u32_to_from_le_bytes();
    let b = spec_u32_to_le_bytes(v) + unread;
    assert(b.subrange(0, 4) =~= spec_u32_to_le_bytes(v));
    assert(b.skip(4) =~= unread);
}

proof fn lemma_parse_kind(kind: TransactionType, unread: Seq<u8>)
    ensures
        parse_kind(seq![kind_byte(kind)] + unread) == Some((kind, unread)),
{
    let b = seq![kind_byte(kind)] + unread;
    assert(b.skip(1) =~= unread);
}

proof fn lemma_parse_opt_time(time: Option<u64>, unread: Seq<u8>)
    ensures
        parse_opt_time(opt_time_bytes(time) + unread) == Some((time, unread)),
{
    let value: u64 = match time {
        Some(t) => t,
        None => 0,
    };
    let tag: u8 = if time is Some {
        1
    } else {
        0
    };
    let b = opt_time_bytes(time) + unread;
    let tail = spec_u64_to_le_bytes(value) + unread;
    assert(b =~= seq![tag] + tail);
    assert(b.skip(1) =~= tail);
    lemma_parse_u64(value, unread);
}

proof fn lemma_parse_text(text: Seq<char>, unread: Seq<u8>)
    requires
        encode_utf8(text).len() <= u32::MAX,
    ensures
        parse_text(text_bytes(text) + unread) == Some((text, unread)),
{
    let body = encode_utf8(text);
    let n = body.len() as u32;
    let b = text_bytes(text) + unread;
    let tail = body + unread;
    assert(b =~= spec_u32_to_le_bytes(n) + tail);
    lemma_parse_u32(n, tail);
    assert(tail.subrange(0, n as int) =~= body);
    assert(tail.skip(n as int) =~= unread);
    encode_utf8_valid_utf8(text);
    encode_utf8_decode_utf8(text);
}

proof fn lemma_parse_opt_text(text: Option<Seq<char>>, unread: Seq<u8>)
    requires
        text matches Some(t) ==> encode_utf8(t).len() <= u32::MAX,
    ensures
        parse_opt_text(opt_text_bytes(text) + unread) == Some((text, unread)),
{
    let b = opt_text_bytes(text) + unread;
    match text {
        None => {
            assert(b.skip(1) =~= unread);
        },
        Some(t) => {
            let tail = text_bytes(t) + unread;
            assert(b =~= seq![1u8] + tail);
            assert(b.skip(1) =~= tail);
            lemma_parse_text(t, unread);
        },
    }
}

/// The stored form of a text is four bytes longer than its encoding.
proof fn lemma_text_bytes_len(text: Seq<char>)
    ensures
        text_bytes(text).len() == 4 + encode_utf8(text).len(),
{
    lemma_auto_spec_u32_to_from_le_bytes();
}

/// The stored form of an optional text is as long as [`opt_text_size`]
/// says.
proof fn lemma_opt_text_bytes_len(text: Option<Seq<char>>)
    ensures
        opt_text_bytes(text).len() == opt_text_size(text),
{
    match text {
        None => {},
        Some(t) => {
            lemma_text_bytes_len(t);
        },
    }
}

/// The stored form of an entry is as long as [`EntryView::stored_size`]
/// says.
pub proof fn lemma_entry_bytes_len(e: EntryView)
    ensures
        entry_bytes(e).len() == e.stored_size(),
{
    lemma_auto_spec_u64_to_from_le_bytes();
    lemma_text_bytes_len(e.description);
    lemma_text_bytes_len(e.category);
    lemma_opt_text_bytes_len(e.receipt_url);
    lemma_opt_text_bytes_len(e.approved_by);
    assert(opt_time_bytes(e.updated_at).len() == 9);
    assert(texts_bytes(e.description, e.category, e.receipt_url, e.approved_by).len() == 8
        + encode_utf8(e.description).len() + encode_utf8(e.category).len() + opt_text_size(
        e.receipt_url,
    ) + opt_text_size(e.approved_by));
}

/// Reading the stored form of an entry that fits gives the entry back.
pub proof fn lemma_entry_round_trip(e: EntryView)
    requires
        e.fits(),
    ensures
        parse_entry(entry_bytes(e)) == Some(e),
{
    let r9 = opt_text_bytes(e.approved_by);
    let r8 = opt_text_bytes(e.receipt_url) + r9;
    let r7 = text_bytes(e.category) + r8;
    let r6 = text_bytes(e.description) + r7;
    let r5 = seq![kind_byte(e.entry_type)] + r6;
    let r4 = spec_u64_to_le_bytes(amount_code(e.amount)) + r5;
    let r3 = opt_time_bytes(e.updated_at) + r4;
    let r2 = spec_u64_to_le_bytes(e.created_at) + r3;
    let r1 = spec_u64_to_le_bytes(e.date) + r2;
    let b = entry_bytes(e);
    assert(b == spec_u64_to_le_bytes(e.id) + r1);
    assert(r9 + Seq::<u8>::empty() =~= r9);
    lemma_parse_u64(e.id, r1);
    lemma_parse_u64(e.date, r2);
    lemma_parse_u64(e.created_at, r3);
    lemma_parse_opt_time(e.updated_at, r4);
    lemma_parse_u64(amount_code(e.amount), r5);
    lemma_parse_kind(e.entry_type, r6);
    lemma_parse_text(e.description, r7);
    lemma_parse_text(e.category, r8);
    lemma_parse_opt_text(e.receipt_url, r9);
    lemma_parse_opt_text(e.approved_by, Seq::<u8>::empty());
    assert(code_amount(amount_code(e.amount)) == e.amount);
    let id = parse_u64(b);
    assert(id == Some((e.id, r1)));
    let date = parse_u64(rest(id));
    assert(date == Some((e.date, r2)));
    let created_at = parse_u64(rest(date));
    assert(created_at == Some((e.created_at, r3)));
    let updated_at = parse_opt_time(rest(created_at));
    assert(updated_at == Some((e.updated_at, r4)));
    let amount = parse_u64(rest(updated_at));
    assert(amount == Some((amount_code(e.amount), r5)));
    let kind = parse_kind(rest(amount));
    assert(kind == Some((e.entry_type, r6)));
    let description = parse_text(rest(kind));
    assert(description == Some((e.description, r7)));
    let category = parse_text(rest(description));
    assert(category == Some((e.category, r8)));
    let receipt_url = parse_opt_text(rest(category));
    assert(receipt_url == Some((e.receipt_url, r9)));
    let approved_by = parse_opt_text(rest(receipt_url));
    assert(approved_by == Some((e.approved_by, Seq::<u8>::empty())));
    assert(parse_entry(b).unwrap() == e);
}

/// The length of a text's UTF-8 encoding.
fn encoded_len(text: &String) -> (n: usize)
    ensures
        n == encode_utf8(text@).len(),
{
    text.as_str().as_bytes().len()
}

/// Computes [`stored_size`], as far as it stays within
/// [`MAX_ENTRY_BYTES`].
pub fn measure(
    description: &String,
    category: &String,
    receipt_url: &Option<String>,
    approved_by: &Option<String>,
) -> (size: Option<usize>)
    ensures
        match size {
            Some(n) => n <= MAX_ENTRY_BYTES && n == stored_size(
                description@,
                category@,
                text_view(*receipt_url),
                text_view(*approved_by),
            ),
            None => stored_size(
                description@,
                category@,
                text_view(*receipt_url),
                text_view(*approved_by),
            ) > MAX_ENTRY_BYTES,
        },
{
    let d: usize = encoded_len(description);
    if d > MAX_ENTRY_BYTES {
        return None;
    }
    let c: usize = encoded_len(category);
    if c > MAX_ENTRY_BYTES {
        return None;
    }
    let mut total: usize = FIXED_BYTES + 8 + d + c;
    match receipt_url {
        Some(t) => {
            let n: usize = encoded_len(t);
            if n > MAX_ENTRY_BYTES {
                return None;
            }
            total = total + 5 + n;
        },
        None => {
            total = total + 1;
        },
    }
    match approved_by {
        Some(t) => {
            let n: usize = encoded_len(t);
            if n > MAX_ENTRY_BYTES {
                return None;
            }
            total = total + 5 + n;
        },
        None => {
            total = total + 1;
        },
    }
    if total <= MAX_ENTRY_BYTES {
        Some(total)
    } else {
        None
    }
}

impl EntryPayload {
    /// Whether an entry made from this payload can be stored.
    pub fn fits(&self) -> (ok: bool)
        ensures
            ok == self@.fits(),
    {
        measure(&self.description, &self.category, &self.receipt_url, &self.approved_by).is_some()
    }
}

impl PettyCashEntry {
    /// Whether this entry can be stored.
    pub fn fits(&self) -> (ok: bool)
        ensures
            ok == self@.fits(),
    {
        measure(&self.description, &self.category, &self.receipt_url, &self.approved_by).is_some()
    }
}

/// One byte string after another.
fn joined(head: Vec<u8>, tail: Vec<u8>) -> (all: Vec<u8>)
    ensures
        all@ == head@ + tail@,
{
    let mut all = head;
    let mut tail = tail;
    all.append(&mut tail);
    all
}

/// A byte string of one byte.
fn single(byte: u8) -> (all: Vec<u8>)
    ensures
        all@ == seq![byte],
{
    let mut all: Vec<u8> = Vec::new();
    all.push(byte);
    assert(all@ =~= seq![byte]);
    all
}

/// Computes [`amount_code`].
fn amount_to_code(amount: i64) -> (code: u64)
    ensures
        code == amount_code(amount),
{
    ((amount as i128) + 0x8000_0000_0000_0000i128) as u64
}

/// Computes [`code_amount`].
fn code_to_amount(code: u64) -> (amount: i64)
    ensures
        amount == code_amount(code),
{
    ((code as i128) - 0x8000_0000_0000_0000i128) as i64
}

/// Computes [`text_bytes`].
fn encode_text(text: &String) -> (bytes: Vec<u8>)
    requires
        encode_utf8(text@).len() <= u32::MAX,
    ensures
        bytes@ == text_bytes(text@),
{
    let body = text.as_str().as_bytes();
    joined(u32_to_le_bytes(body.len() as u32), slice_to_vec(body))
}

/// Computes [`opt_text_bytes`].
fn encode_opt_text(text: &Option<String>) -> (bytes: Vec<u8>)
    requires
        text matches Some(t) ==> encode_utf8(t@).len() <= u32::MAX,
    ensures
        bytes@ == opt_text_bytes(text_view(*text)),
{
    match text {
        None => single(0),
        Some(t) => joined(single(1), encode_text(t)),
    }
}

/// Computes [`opt_time_bytes`].
fn encode_opt_time(time: Option<u64>) -> (bytes: Vec<u8>)
    ensures
        bytes@ == opt_time_bytes(time),
{
    match time {
        None => joined(single(0), u64_to_le_bytes(0)),
        Some(t) => joined(single(1), u64_to_le_bytes(t)),
    }
}

/// Computes [`kind_byte`].
fn kind_to_byte(kind: TransactionType) -> (byte: u8)
    ensures
        byte == kind_byte(kind),
{
    match kind {
        TransactionType::Debit => 0,
        TransactionType::Credit => 1,
    }
}

/// Writes an entry in its stored form, if it fits.
pub fn encode_entry(entry: &PettyCashEntry) -> (bytes: Option<Vec<u8>>)
    ensures
        match bytes {
            Some(b) => entry@.fits() && b@ == entry_bytes(entry@),
            None => !entry@.fits(),
        },
{
    if !entry.fits() {
        return None;
    }
    let texts = joined(
        encode_text(&entry.description),
        joined(
            encode_text(&entry.category),
            joined(encode_opt_text(&entry.receipt_url), encode_opt_text(&entry.approved_by)),
        ),
    );
    let tail = joined(
        encode_opt_time(entry.updated_at),
        joined(
            u64_to_le_bytes(amount_to_code(entry.amount)),
            joined(single(kind_to_byte(entry.entry_type)), texts),
        ),
    );
    let all = joined(
        u64_to_le_bytes(entry.id),
        joined(u64_to_le_bytes(entry.date), joined(u64_to_le_bytes(entry.created_at), tail)),
    );
    Some(all)
}

/// Reads one byte at `at`.
fn read_byte(bytes: &[u8], at: usize) -> (r: Option<(u8, usize)>)
    requires
        at <= bytes@.len(),
    ensures
        match r {
            Some((v, next)) => at <= next <= bytes@.len() && parse_byte(bytes@.skip(at as int))
                == Some((v, bytes@.skip(next as int))),
            None => parse_byte(bytes@.skip(at as int)) is None,
        },
{
    if bytes.len() - at < 1 {
        return None;
    }
    let v: u8 = bytes[at];
    assert(bytes@.skip(at as int).skip(1) =~= bytes@.skip(at + 1));
    Some((v, at + 1))
}

/// Reads a number of four bytes at `at`.
fn read_u32(bytes: &[u8], at: usize) -> (r: Option<(u32, usize)>)
    requires
        at <= bytes@.len(),
    ensures
        match r {
            Some((v, next)) => at <= next <= bytes@.len() && parse_u32(bytes@.skip(at as int))
                == Some((v, bytes@.skip(next as int))),
            None => parse_u32(bytes@.skip(at as int)) is None,
        },
{
    if bytes.len() - at < 4 {
        return None;
    }
    let v: u32 = u32_from_le_bytes(slice_subrange(bytes, at, at + 4));
    assert(bytes@.skip(at as int).subrange(0, 4) =~= bytes@.subrange(at as int, at + 4));
    assert(bytes@.skip(at as int).skip(4) =~= bytes@.skip(at + 4));
    Some((v, at + 4))
}

/// Reads a number of eight bytes at `at`.
fn read_u64(bytes: &[u8], at: usize) -> (r: Option<(u64, usize)>)
    requires
        at <= bytes@.len(),
    ensures
        match r {
            Some((v, next)) => at <= next <= bytes@.len() && parse_u64(bytes@.skip(at as int))
                == Some((v, bytes@.skip(next as int))),
            None => parse_u64(bytes@.skip(at as int)) is None,
        },
{
    if bytes.len() - at < 8 {
        return None;
    }
    let v: u64 = u64_from_le_bytes(slice_subrange(bytes, at, at + 8));
    assert(bytes@.skip(at as int).subrange(0, 8) =~= bytes@.subrange(at as int, at + 8));
    assert(bytes@.skip(at as int).skip(8) =~= bytes@.skip(at + 8));
    Some((v, at + 8))
}

/// Reads a kind of movement at `at`.
fn read_kind(bytes: &[u8], at: usize) -> (r: Option<(TransactionType, usize)>)
    requires
        at <= bytes@.len(),
    ensures
        match r {
            Some((v, next)) => at <= next <= bytes@.len() && parse_kind(bytes@.skip(at as int))
                == Some((v, bytes@.skip(next as int))),
            None => parse_kind(bytes@.skip(at as int)) is None,
        },
{
    if bytes.len() - at < 1 {
        return None;
    }
    let v: u8 = bytes[at];
    assert(bytes@.skip(at as int).skip(1) =~= bytes@.skip(at + 1));
    if v == 0 {
        Some((TransactionType::Debit, at + 1))
    } else if v == 1 {
        Some((TransactionType::Credit, at + 1))
    } else {
        None
    }
}

/// Reads an optional time at `at`.
fn read_opt_time(bytes: &[u8], at: usize) -> (r: Option<(Option<u64>, usize)>)
    requires
        at <= bytes@.len(),
    ensures
        match r {
            Some((v, next)) => at <= next <= bytes@.len() && parse_opt_time(
                bytes@.skip(at as int),
            ) == Some((v, bytes@.skip(next as int))),
            None => parse_opt_time(bytes@.skip(at as int)) is None,
        },
{
    let (tag, at_time) = match read_byte(bytes, at) {
        Some(step) => step,
        None => { return None; },
    };
    let (time, next) = match read_u64(bytes, at_time) {
        Some(step) => step,
        None => { return None; },
    };
    if tag == 0 {
        Some((None, next))
    } else if tag == 1 {
        Some((Some(time), next))
    } else {
        None
    }
}

/// Reads a text at `at`.
fn read_text(bytes: &[u8], at: usize) -> (r: Option<(String, usize)>)
    requires
        at <= bytes@.len(),
    ensures
        match r {
            Some((v, next)) => at <= next <= bytes@.len() && parse_text(bytes@.skip(at as int))
                == Some((v@, bytes@.skip(next as int))),
            None => parse_text(bytes@.skip(at as int)) is None,
        },
{
    let (len, at_body) = match read_u32(bytes, at) {
        Some(step) => step,
        None => { return None; },
    };
    let len: usize = len as usize;
    if bytes.len() - at_body < len {
        return None;
    }
    let body = slice_to_vec(slice_subrange(bytes, at_body, at_body + len));
    assert(bytes@.skip(at_body as int).subrange(0, len as int) =~= body@);
    assert(bytes@.skip(at_body as int).skip(len as int) =~= bytes@.skip(at_body + len));
    match string_from_utf8(body) {
        Some(text) => Some((text, at_body + len)),
        None => None,
    }
}

/// Reads an optional text at `at`.
fn read_opt_text(bytes: &[u8], at: usize) -> (r: Option<(Option<String>, usize)>)
    requires
        at <= bytes@.len(),
    ensures
        match r {
            Some((v, next)) => at <= next <= bytes@.len() && parse_opt_text(
                bytes@.skip(at as int),
            ) == Some((text_view(v), bytes@.skip(next as int))),
            None => parse_opt_text(bytes@.skip(at as int)) is None,
        },
{
    let (tag, at_text) = match read_byte(bytes, at) {
        Some(step) => step,
        None => { return None; },
    };
    if tag == 0 {
        Some((None, at_text))
    } else if tag == 1 {
        match read_text(bytes, at_text) {
            Some((text, next)) => Some((Some(text), next)),
            None => None,
        }
    } else {
        None
    }
}

/// Reads an entry from its stored form.
pub fn decode_entry(bytes: &[u8]) -> (entry: Option<PettyCashEntry>)
    ensures
        found_view(entry) == parse_entry(bytes@),
{
    assert(bytes@.skip(0) =~= bytes@);
    let (id, at) = match read_u64(bytes, 0) {
        Some(step) => step,
        None => { return None; },
    };
    let (date, at) = match read_u64(bytes, at) {
        Some(step) => step,
        None => { return None; },
    };
    let (created_at, at) = match read_u64(bytes, at) {
        Some(step) => step,
        None => { return None; },
    };
    let (updated_at, at) = match read_opt_time(bytes, at) {
        Some(step) => step,
        None => { return None; },
    };
    let (code, at) = match read_u64(bytes, at) {
        Some(step) => step,
        None => { return None; },
    };
    let (entry_type, at) = match read_kind(bytes, at) {
        Some(step) => step,
        None => { return None; },
    };
    let (description, at) = match read_text(bytes, at) {
        Some(step) => step,
        None => { return None; },
    };
    let (category, at) = match read_text(bytes, at) {
        Some(step) => step,
        None => { return None; },
    };
    let (receipt_url, at) = match read_opt_text(bytes, at) {
        Some(step) => step,
        None => { return None; },
    };
    let (approved_by, at) = match read_opt_text(bytes, at) {
        Some(step) => step,
        None => { return None; },
    };
    if at != bytes.len() {
        return None;
    }
    Some(
        PettyCashEntry {
            id,
            date,
            description,
            amount: code_to_amount(code),
            entry_type,
            category,
            receipt_url,
            approved_by,
            created_at,
            updated_at,
        },
    )
}

} // verus!
