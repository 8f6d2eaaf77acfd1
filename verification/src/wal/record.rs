//! The byte layout of a log record, as mathematics and as code.
//!
//! ```text
//! | lsn u64 | entry_type u8 | key_len u64 | value_len u64 | timestamp u64 | key | value | checksum u32 |
//! ```
//!
//! Integers are little-endian; the checksum is the CRC-32 of everything before it.

use crate::page;
use crate::page::{read_u32, read_u64, Lsn};
use crate::text;
use crate::text::{push_decimal, with_number};
use crate::wal::{WalEntry, WalEntryType, WalError};
use crate::disk::IoFault;
use vstd::prelude::*;

verus! {

/// Bytes before the key.
pub const RECORD_HEADER_LEN: usize = 33;

/// Bytes of the checksum that ends a record.
pub const CHECKSUM_LEN: usize = 4;

/// The CRC-32 checksum of `bytes`, as `crc32fast::hash` computes it.
pub uninterp spec fn crc32(bytes: Seq<u8>) -> u32;

/// `crc32fast::hash` depends on the bytes alone: the claim is that equal byte strings have equal
/// checksums, here named `crc32`. Which number it is, is not said.
pub assume_specification[ crc32fast::hash ](buf: &[u8]) -> (checksum: u32)
    ensures
        checksum == crc32(buf@),
;

// ── Model ────────────────────────────────────────────────────────────────────
/// What a log entry says.
pub struct EntryModel {
    pub lsn: Lsn,
    pub entry_type: WalEntryType,
    pub key: Seq<u8>,
    pub value: Option<Seq<u8>>,
    pub timestamp: u64,
}

/// The lowest `width` bytes of `n`, least significant first.
pub open spec fn le_bytes(n: int, width: nat) -> Seq<u8>
    decreases width,
{
    if width == 0 {
        seq![]
    } else {
        seq![(n % 0x100) as u8] + le_bytes(n / 0x100, (width - 1) as nat)
    }
}

/// The byte that stands for an entry type.
pub open spec fn type_byte(entry_type: WalEntryType) -> u8 {
    match entry_type {
        WalEntryType::Put => 0,
        WalEntryType::Delete => 1,
    }
}

/// A record up to its checksum.
pub open spec fn record_body(
    lsn: Lsn,
    entry_type: WalEntryType,
    key: Seq<u8>,
    value: Seq<u8>,
    timestamp: u64,
) -> Seq<u8> {
    le_bytes(lsn as int, 8) + seq![type_byte(entry_type)] + le_bytes(key.len() as int, 8)
        + le_bytes(value.len() as int, 8) + le_bytes(timestamp as int, 8) + key + value
}

/// A whole record: body and checksum.
pub open spec fn record_bytes(
    lsn: Lsn,
    entry_type: WalEntryType,
    key: Seq<u8>,
    value: Seq<u8>,
    timestamp: u64,
) -> Seq<u8> {
    let body = record_body(lsn, entry_type, key, value, timestamp);
    body + le_bytes(crc32(body) as int, 4)
}

/// The value bytes that go into a record: a deletion carries none.
pub open spec fn stored_value(entry_type: WalEntryType, value: Option<Seq<u8>>) -> Seq<u8> {
    match (entry_type, value) {
        (WalEntryType::Put, Some(bytes)) => bytes,
        _ => seq![],
    }
}

/// What is found at the front of a byte string that is read as a log.
pub enum Reading {
    /// Not even an lsn is left.
    End,
    /// The bytes end inside a record.
    Torn,
    /// The entry-type byte is none.
    UnknownType(u8),
    /// The stored checksum is not the one that the body has.
    Mismatch { lsn: Lsn, stored: u32, actual: u32 },
    /// A sound record.
    Entry(EntryModel),
}

/// The length of a record's body, by its header.
pub open spec fn body_len(r: Seq<u8>) -> int {
    RECORD_HEADER_LEN + page::le64(r, 9) + page::le64(r, 17)
}

/// A known entry type and every byte of the record are there.
pub open spec fn is_whole(r: Seq<u8>) -> bool {
    &&& r.len() >= RECORD_HEADER_LEN
    &&& r[8] <= 1
    &&& r.len() >= body_len(r) + CHECKSUM_LEN
}

/// The entry that a whole record holds. An empty value reads as none.
pub open spec fn entry_in(r: Seq<u8>) -> EntryModel {
    let value_at = RECORD_HEADER_LEN + page::le64(r, 9);
    EntryModel {
        lsn: page::le64(r, 0) as u64,
        entry_type: if r[8] == 0 {
            WalEntryType::Put
        } else {
            WalEntryType::Delete
        },
        key: r.subrange(RECORD_HEADER_LEN as int, value_at),
        value: if page::le64(r, 17) == 0 {
            None
        } else {
            Some(r.subrange(value_at, body_len(r)))
        },
        timestamp: page::le64(r, 25) as u64,
    }
}

/// What reading `r` finds when the body's checksum comes out as `actual`.
pub open spec fn reading(r: Seq<u8>, actual: u32) -> Reading {
    if r.len() < 8 {
        Reading::End
    } else if r.len() < 9 {
        Reading::Torn
    } else if r[8] > 1 {
        Reading::UnknownType(r[8])
    } else if !is_whole(r) {
        Reading::Torn
    } else if page::le32(r, body_len(r)) != actual {
        Reading::Mismatch {
            lsn: page::le64(r, 0) as u64,
            stored: page::le32(r, body_len(r)) as u32,
            actual,
        }
    } else {
        Reading::Entry(entry_in(r))
    }
}

/// What reading `r` finds.
pub open spec fn next_reading(r: Seq<u8>) -> Reading {
    reading(r, crc32(r.take(body_len(r))))
}

/// How many bytes reading `r` uses up.
pub open spec fn consumed(r: Seq<u8>) -> int {
    if r.len() >= 9 && r[8] > 1 {
        9
    } else if is_whole(r) {
        body_len(r) + CHECKSUM_LEN
    } else {
        r.len() as int
    }
}

/// The complaint about an unknown entry type.
pub open spec fn unknown_type_text(value: u8) -> Seq<char> {
    "Invalid entry type: "@ + text::decimal(value as int)
}

/// The complaint about a checksum that does not match.
pub open spec fn mismatch_text(lsn: Lsn, stored: u32, actual: u32) -> Seq<char> {
    "Checksum mismatch for LSN "@ + text::decimal(lsn as int) + ": expected "@ + text::decimal(
        stored as int,
    ) + ", got "@ + text::decimal(actual as int)
}

/// `res` is what a reader hands out for `found`.
pub open spec fn is_outcome(res: Option<Result<WalEntry, WalError>>, found: Reading) -> bool {
    match found {
        Reading::End => res is None,
        Reading::Torn => res == Some(Err::<WalEntry, _>(WalError::Io(IoFault::UnexpectedEof))),
        Reading::UnknownType(byte) => {
            &&& res matches Some(Err(WalError::CorruptedLog(text)))
            &&& text@ == unknown_type_text(byte)
        },
        Reading::Mismatch { lsn, stored, actual } => {
            &&& res matches Some(Err(WalError::CorruptedLog(text)))
            &&& text@ == mismatch_text(lsn, stored, actual)
        },
        Reading::Entry(model) => {
            &&& res matches Some(Ok(entry))
            &&& entry@ == model
        },
    }
}

// ── Writing ──────────────────────────────────────────────────────────────────
/// Appends the lowest `width` bytes of `n`, least significant first.
fn push_le(out: &mut Vec<u8>, n: u64, width: usize)
    ensures
        final(out)@ == old(out)@ + le_bytes(n as int, width as nat),
{
    let mut rest: u64 = n;
    let mut i: usize = 0;
    assert(out@ + le_bytes(n as int, width as nat) =~= old(out)@ + le_bytes(
        n as int,
        width as nat,
    ));
    while i < width
        invariant
            i <= width,
            out@ + le_bytes(rest as int, (width - i) as nat) == old(out)@ + le_bytes(
                n as int,
                width as nat,
            ),
        decreases width - i,
    {
        let ghost before = out@;
        let ghost tail = le_bytes(rest as int, (width - i) as nat);
        out.push((rest % 0x100) as u8);
        rest = rest / 0x100;
        i = i + 1;
        assert(out@ + le_bytes(rest as int, (width - i) as nat) =~= before + tail);
    }
    assert(out@ =~= out@ + le_bytes(rest as int, 0));
}

/// Appends `src`.
fn push_all(out: &mut Vec<u8>, src: &[u8])
    ensures
        final(out)@ == old(out)@ + src@,
{
    let len: usize = src.len();
    let mut i: usize = 0;
    while i < len
        invariant
            i <= len,
            len == src@.len(),
            out@ == old(out)@ + src@.take(i as int),
        decreases len - i,
    {
        out.push(src[i]);
        i = i + 1;
        assert(out@ =~= old(out)@ + src@.take(i as int));
    }
    assert(src@.take(len as int) =~= src@);
}

/// Lays out a record up to its checksum.
pub fn encode_body(
    lsn: Lsn,
    entry_type: WalEntryType,
    key: &[u8],
    value: &[u8],
    timestamp: u64,
) -> (body: Vec<u8>)
    ensures
        body@ == record_body(lsn, entry_type, key@, value@, timestamp),
{
    let mut body: Vec<u8> = Vec::new();
    push_le(&mut body, lsn, 8);
    body.push(
        match entry_type {
            WalEntryType::Put => 0,
            WalEntryType::Delete => 1,
        },
    );
    push_le(&mut body, key.len() as u64, 8);
    push_le(&mut body, value.len() as u64, 8);
    push_le(&mut body, timestamp, 8);
    push_all(&mut body, key);
    push_all(&mut body, value);
    assert(body@ =~= record_body(lsn, entry_type, key@, value@, timestamp));
    body
}

/// Ends a record with its checksum.
pub fn seal_record(body: Vec<u8>, checksum: u32) -> (record: Vec<u8>)
    ensures
        record@ == body@ + le_bytes(checksum as int, 4),
{
    let mut record: Vec<u8> = body;
    push_le(&mut record, checksum as u64, CHECKSUM_LEN);
    record
}

/// Lays out one record.
pub fn encode_record(
    lsn: Lsn,
    entry_type: WalEntryType,
    key: &[u8],
    value: &[u8],
    timestamp: u64,
) -> (record: Vec<u8>)
    ensures
        record@ == record_bytes(lsn, entry_type, key@, value@, timestamp),
{
    let body: Vec<u8> = encode_body(lsn, entry_type, key, value, timestamp);
    let checksum: u32 = crc32fast::hash(body.as_slice());
    seal_record(body, checksum)
}

// ── Reading ──────────────────────────────────────────────────────────────────
/// The length of the body of the record at the front of `rest`, if the record is whole.
pub fn whole_body_len(rest: &[u8]) -> (len: Option<usize>)
    ensures
        match len {
            Some(n) => is_whole(rest@) && n == body_len(rest@),
            None => !is_whole(rest@),
        },
{
    assert(rest@.len() == rest.len());
    if rest.len() < RECORD_HEADER_LEN || rest[8] > 1 {
        return None;
    }
    let key_len: u64 = read_u64(rest, 9);
    let value_len: u64 = read_u64(rest, 17);
    let after_header: usize = rest.len() - RECORD_HEADER_LEN;
    if key_len > after_header as u64 {
        return None;
    }
    let after_key: usize = after_header - key_len as usize;
    if value_len > after_key as u64 {
        return None;
    }
    if after_key - (value_len as usize) < CHECKSUM_LEN {
        return None;
    }
    Some(RECORD_HEADER_LEN + key_len as usize + value_len as usize)
}

/// How many bytes reading `rest` uses up.
pub fn bytes_consumed(rest: &[u8]) -> (n: usize)
    ensures
        n == consumed(rest@),
        n <= rest@.len(),
{
    assert(rest@.len() == rest.len());
    if rest.len() >= 9 && rest[8] > 1 {
        return 9;
    }
    match whole_body_len(rest) {
        Some(n) => n + CHECKSUM_LEN,
        None => rest.len(),
    }
}

fn unknown_type(value: u8) -> (err: WalError)
    ensures
        err matches WalError::CorruptedLog(msg) && msg@ == unknown_type_text(value),
{
    WalError::CorruptedLog(with_number("Invalid entry type: ", value as u64))
}

fn mismatch(lsn: Lsn, stored: u32, actual: u32) -> (err: WalError)
    ensures
        err matches WalError::CorruptedLog(msg) && msg@ == mismatch_text(lsn, stored, actual),
{
    let mut msg = with_number("Checksum mismatch for LSN ", lsn);
    msg.append(": expected ");
    push_decimal(&mut msg, stored as u64);
    msg.append(", got ");
    push_decimal(&mut msg, actual as u64);
    WalError::CorruptedLog(msg)
}

/// Reads the byte that stands for an entry type.
pub fn entry_type_of(value: u8) -> (entry_type: Result<WalEntryType, WalError>)
    ensures
        match entry_type {
            Ok(t) => value == type_byte(t),
            Err(e) => value > 1 && (e matches WalError::CorruptedLog(msg) && msg@
                == unknown_type_text(value)),
        },
{
    match value {
        0 => Ok(WalEntryType::Put),
        1 => Ok(WalEntryType::Delete),
        _ => Err(unknown_type(value)),
    }
}

/// Reads the record at the front of `rest`, whose body has the checksum `actual`.
pub fn read_record(rest: &[u8], actual: u32) -> (res: Option<Result<WalEntry, WalError>>)
    ensures
        is_outcome(res, reading(rest@, actual)),
{
    assert(rest@.len() == rest.len());
    if rest.len() < 8 {
        return None;
    }
    if rest.len() < 9 {
        return Some(Err(WalError::Io(IoFault::UnexpectedEof)));
    }
    let lsn: u64 = read_u64(rest, 0);
    let entry_type = match entry_type_of(rest[8]) {
        Ok(t) => t,
        Err(e) => {
            return Some(Err(e));
        },
    };
    let body: usize = match whole_body_len(rest) {
        Some(n) => n,
        None => {
            return Some(Err(WalError::Io(IoFault::UnexpectedEof)));
        },
    };
    let stored: u32 = read_u32(rest, body);
    if actual != stored {
        return Some(Err(mismatch(lsn, stored, actual)));
    }
    let value_at: usize = RECORD_HEADER_LEN + read_u64(rest, 9) as usize;
    let value: Option<Vec<u8>> = if read_u64(rest, 17) > 0 {
        Some(vstd::slice::slice_to_vec(&rest[value_at..body]))
    } else {
        None
    };
    let entry = WalEntry {
        lsn,
        entry_type,
        key: vstd::slice::slice_to_vec(&rest[RECORD_HEADER_LEN..value_at]),
        value,
        timestamp: read_u64(rest, 25),
    };
    assert(entry@ == entry_in(rest@));
    Some(Ok(entry))
}

} // verus!
