//! What appending to a log and reading it give, in the bytes of the log.

use crate::disk::IoFault;
use crate::page;
use crate::page::Lsn;
use crate::text;
use crate::wal::laws;
use crate::wal::record;
use crate::wal::record::{
    bytes_consumed, encode_body, encode_record, entry_type_of, read_record, seal_record,
    whole_body_len, EntryModel,
};
use crate::wal::{Wal, WalEntry, WalEntryType, WalError, WalIterator};
use vstd::prelude::*;

verus! {

// ── Writing ──────────────────────────────────────────────────────────────────
/// `bytes` is a whole record: the lsn, the entry type (0 for a put, 1 for a deletion), the two lengths
/// and the timestamp, then key and value, then the checksum of all that.
pub open spec fn is_record(
    bytes: Seq<u8>,
    lsn: Lsn,
    entry_type: WalEntryType,
    key: Seq<u8>,
    value: Seq<u8>,
    timestamp: u64,
) -> bool {
    let body = 33 + key.len() + value.len();
    &&& bytes.len() == body + 4
    &&& page::le64(bytes, 0) == lsn
    &&& bytes[8] == if entry_type is Put {
        0u8
    } else {
        1u8
    }
    &&& page::le64(bytes, 9) == key.len()
    &&& page::le64(bytes, 17) == value.len()
    &&& page::le64(bytes, 25) == timestamp
    &&& forall|i: int| 0 <= i < key.len() ==> bytes[33 + i] == #[trigger] key[i]
    &&& forall|i: int| 0 <= i < value.len() ==> bytes[33 + key.len() + i] == #[trigger] value[i]
    &&& page::le32(bytes, body as int) == record::crc32(bytes.take(body as int))
}

/// A record is laid out as it should be.
pub proof fn law_record_layout(
    lsn: Lsn,
    entry_type: WalEntryType,
    key: Seq<u8>,
    value: Seq<u8>,
    timestamp: u64,
)
    requires
        key.len() <= u64::MAX,
        value.len() <= u64::MAX,
        entry_type is Delete ==> value.len() == 0,
    ensures
        is_record(
            record::record_bytes(lsn, entry_type, key, value, timestamp),
            lsn,
            entry_type,
            key,
            value,
            timestamp,
        ),
{
    let e = EntryModel { lsn, entry_type, key, value: Some(value), timestamp };
    let whole = record::record_bytes(lsn, entry_type, key, value, timestamp);
    assert(record::stored_value(entry_type, Some(value)) =~= value);
    laws::lemma_parts(e, seq![]);
    assert(whole + Seq::<u8>::empty() =~= whole);
    let body = 33 + key.len() as int + value.len() as int;
    assert forall|i: int| 0 <= i < key.len() implies whole[33 + i] == #[trigger] key[i] by {
        assert(whole.subrange(33, 33 + key.len() as int)[i] == key[i]);
    }
    assert forall|i: int| 0 <= i < value.len() implies whole[33 + key.len() + i]
        == #[trigger] value[i] by {
        assert(whole.subrange(33 + key.len() as int, body)[i] == value[i]);
    }
}

/// Appending refuses exactly a put without a value, and then writes nothing. Otherwise it leaves what was
/// pending, adds one record behind it, and gives the next lsn. The value of a deletion is not written.
pub proof fn law_append(
    wal: &mut Wal,
    lsn: Lsn,
    entry_type: WalEntryType,
    key: &[u8],
    value: Option<&[u8]>,
    timestamp: u64,
    res: Result<Lsn, WalError>,
    i: int,
)
    requires
        call_ensures(Wal::append, (wal, lsn, entry_type, key, value, timestamp), res),
        key@.len() <= u64::MAX,
        value matches Some(v) ==> v@.len() <= u64::MAX,
    ensures
        ({
            let (p, q) = (old(wal).pending(), final(wal).pending());
            let stored = match value {
                Some(v) => if entry_type is Put {
                    v@
                } else {
                    Seq::<u8>::empty()
                },
                None => Seq::<u8>::empty(),
            };
            &&& res is Err <==> entry_type is Put && value is None
            &&& res is Err ==> q == p
            &&& res matches Err(e) ==> e matches WalError::CorruptedLog(msg) && msg@
                == "Put entry missing value"@
            &&& res matches Ok(next) ==> {
                &&& next == lsn + 1
                &&& q.len() == p.len() + 37 + key@.len() + stored.len()
                &&& 0 <= i < p.len() ==> q[i] == p[i]
                &&& is_record(q.skip(p.len() as int), lsn, entry_type, key@, stored, timestamp)
            }
        }),
{
    if let Ok(next) = res {
        let (p, q) = (old(wal).pending(), final(wal).pending());
        let stored = record::stored_value(
            entry_type,
            match value {
                Some(bytes) => Some(bytes@),
                None => None,
            },
        );
        let added = record::record_bytes(lsn, entry_type, key@, stored, timestamp);
        law_record_layout(lsn, entry_type, key@, stored, timestamp);
        assert(q.skip(p.len() as int) =~= added);
        if entry_type is Delete {
            assert(stored =~= Seq::<u8>::empty());
        }
    }
}

/// A new log has nothing pending. Flushing hands over what is pending, and then nothing is.
pub proof fn law_flush(fresh: Wal, wal: &mut Wal, bytes: Vec<u8>)
    requires
        call_ensures(Wal::new, (), fresh),
        call_ensures(Wal::flush, (wal,), bytes),
    ensures
        fresh.pending().len() == 0,
        bytes@ == old(wal).pending(),
        final(wal).pending().len() == 0,
{
}

/// A body and its checksum are laid out and joined as a record is.
pub proof fn law_encode(
    lsn: Lsn,
    entry_type: WalEntryType,
    key: &[u8],
    value: &[u8],
    timestamp: u64,
    body: Vec<u8>,
    checksum: u32,
    sealed: Vec<u8>,
    whole: Vec<u8>,
)
    requires
        key@.len() <= u64::MAX,
        value@.len() <= u64::MAX,
        entry_type is Delete ==> value@.len() == 0,
        call_ensures(encode_body, (lsn, entry_type, key, value, timestamp), body),
        checksum == record::crc32(body@),
        call_ensures(seal_record, (body, checksum), sealed),
        call_ensures(encode_record, (lsn, entry_type, key, value, timestamp), whole),
    ensures
        whole@ == sealed@,
        is_record(whole@, lsn, entry_type, key@, value@, timestamp),
        body@.len() == 33 + key@.len() + value@.len(),
{
    law_record_layout(lsn, entry_type, key@, value@, timestamp);
    let e = EntryModel { lsn, entry_type, key: key@, value: Some(value@), timestamp };
    assert(record::stored_value(entry_type, Some(value@)) =~= value@);
    laws::lemma_parts(e, seq![]);
}

// ── Reading ──────────────────────────────────────────────────────────────────
/// A record is whole when its header is there with a known entry type, and behind it as many bytes as its
/// two lengths say, and four for the checksum.
pub proof fn law_whole(r: Seq<u8>)
    ensures
        record::body_len(r) == 33 + page::le64(r, 9) + page::le64(r, 17),
        record::is_whole(r) <==> r.len() >= 33 && r[8] <= 1 && r.len() >= 37 + page::le64(r, 9)
            + page::le64(r, 17),
        record::consumed(r) == if r.len() >= 9 && r[8] > 1 {
            9
        } else if r.len() >= 33 && r.len() >= 37 + page::le64(r, 9) + page::le64(r, 17) {
            37 + page::le64(r, 9) + page::le64(r, 17)
        } else {
            r.len() as int
        },
{
}

/// A reader begins at the front of its log.
pub proof fn law_new_iterator(log: Vec<u8>, it: WalIterator)
    requires
        call_ensures(WalIterator::new, (log,), it),
    ensures
        it.wf(),
        it.rest() == log@,
{
}

/// With less than an lsn left the log has ended. With a header or a record cut off the reader says that
/// the input ended. An unknown entry type is named. In each case, what was looked at is used up.
pub proof fn law_next_unreadable(
    it: &mut WalIterator,
    res: Option<Result<WalEntry, WalError>>,
)
    requires
        call_ensures(WalIterator::next, (it,), res),
    ensures
        ({
            let r = old(it).rest();
            let left = final(it).rest();
            let whole = r.len() >= 33 && r.len() >= 37 + page::le64(r, 9) + page::le64(r, 17);
            &&& res is None <==> r.len() < 8
            &&& r.len() < 8 ==> left.len() == 0
            &&& r.len() >= 9 && r[8] > 1 ==> {
                &&& res matches Some(Err(WalError::CorruptedLog(msg)))
                &&& msg@ == "Invalid entry type: "@ + text::decimal(r[8] as int)
                &&& left == r.skip(9)
            }
            &&& r.len() == 8 || (r.len() >= 9 && r[8] <= 1 && !whole) ==> {
                &&& res == Some(Err::<WalEntry, _>(WalError::Io(IoFault::UnexpectedEof)))
                &&& left.len() == 0
            }
            &&& final(it).wf()
        }),
{
}

/// A whole record whose checksum does not match is reported with its lsn and both checksums. One whose
/// checksum matches is handed out: every field from its bytes, a value of no bytes as none. Either way
/// the reader goes on behind the record.
pub proof fn law_next_record(it: &mut WalIterator, res: Option<Result<WalEntry, WalError>>)
    requires
        call_ensures(WalIterator::next, (it,), res),
        old(it).rest().len() >= 33,
        old(it).rest()[8] <= 1,
        old(it).rest().len() >= 37 + page::le64(old(it).rest(), 9) + page::le64(old(it).rest(), 17),
    ensures
        ({
            let r = old(it).rest();
            let k = page::le64(r, 9);
            let v = page::le64(r, 17);
            let stored = page::le32(r, 33 + k + v);
            let actual = record::crc32(r.take(33 + k + v));
            &&& final(it).rest() == r.skip(37 + k + v)
            &&& stored != actual ==> {
                &&& res matches Some(Err(WalError::CorruptedLog(msg)))
                &&& msg@ == "Checksum mismatch for LSN "@ + text::decimal(page::le64(r, 0))
                    + ": expected "@ + text::decimal(stored) + ", got "@ + text::decimal(actual as int)
            }
            &&& stored == actual ==> {
                &&& res matches Some(Ok(entry))
                &&& entry.lsn == page::le64(r, 0)
                &&& entry.entry_type is Put <==> r[8] == 0
                &&& entry.key@ == r.subrange(33, 33 + k)
                &&& entry.value is None <==> v == 0
                &&& entry.value matches Some(bytes) ==> bytes@ == r.subrange(33 + k, 33 + k + v)
                &&& entry.timestamp == page::le64(r, 25)
            }
        }),
{
}

/// What was appended, flushed and read is the entry that was appended: with its value if it was a put of
/// at least one byte, without one otherwise.
pub proof fn law_append_then_next(
    first: &mut Wal,
    second: &mut Wal,
    lsn: Lsn,
    entry_type: WalEntryType,
    key: &[u8],
    value: Option<&[u8]>,
    timestamp: u64,
    next_lsn: Lsn,
    log: Vec<u8>,
    fresh: WalIterator,
    it: &mut WalIterator,
    res: Option<Result<WalEntry, WalError>>,
)
    requires
        old(first).pending().len() == 0,
        key@.len() <= u64::MAX,
        value matches Some(v) ==> v@.len() <= u64::MAX,
        call_ensures(
            Wal::append,
            (first, lsn, entry_type, key, value, timestamp),
            Ok::<Lsn, WalError>(next_lsn),
        ),
        *old(second) == *final(first),
        call_ensures(Wal::flush, (second,), log),
        call_ensures(WalIterator::new, (log,), fresh),
        *old(it) == fresh,
        call_ensures(WalIterator::next, (it,), res),
    ensures
        res matches Some(Ok(entry)) && {
            &&& entry.lsn == lsn
            &&& entry.entry_type == entry_type
            &&& entry.key@ == key@
            &&& entry.timestamp == timestamp
            &&& entry_type is Delete ==> entry.value is None
            &&& entry_type is Put ==> (value matches Some(v) && (v@.len() == 0 ==> entry.value is None)
                && (v@.len() > 0 ==> (entry.value matches Some(bytes) && bytes@ == v@)))
        },
        final(it).rest().len() == 0,
{
    law_append(
        first,
        lsn,
        entry_type,
        key,
        value,
        timestamp,
        Ok::<Lsn, WalError>(next_lsn),
        0,
    );
    let r = old(it).rest();
    let q = final(first).pending();
    assert(q.skip(0) =~= q);
    assert(r == q);
    law_next_record(it, res);
    let k = key@.len() as int;
    assert(r.subrange(33, 33 + k) =~= key@);
    if entry_type is Put {
        if let Some(v) = value {
            assert(r.subrange(33 + k, 33 + k + v@.len()) =~= v@);
        }
    }
}

/// An entry-type byte of 0 is a put, of 1 a deletion, and no other byte is one.
pub proof fn law_entry_types(
    byte: u8,
    a: Result<WalEntryType, WalError>,
)
    requires
        call_ensures(entry_type_of, (byte,), a),
    ensures
        a is Ok <==> byte <= 1,
        a matches Ok(t) ==> (t is Put <==> byte == 0),
        a matches Err(e) ==> e matches WalError::CorruptedLog(msg) && msg@ == "Invalid entry type: "@
            + text::decimal(byte as int),
        record::type_byte(WalEntryType::Put) == 0,
        record::type_byte(WalEntryType::Delete) == 1,
{
}

/// How far the front record reaches, if it is whole, and how much of the log reading it uses up.
pub proof fn law_lengths(rest: &[u8], body: Option<usize>, n: usize)
    requires
        call_ensures(whole_body_len, (rest,), body),
        call_ensures(bytes_consumed, (rest,), n),
    ensures
        ({
            let r = rest@;
            let whole = r.len() >= 33 && r.len() >= 37 + page::le64(r, 9) + page::le64(r, 17);
            &&& body is Some <==> whole && r[8] <= 1
            &&& body matches Some(len) ==> len == 33 + page::le64(r, 9) + page::le64(r, 17)
            &&& r.len() >= 9 && r[8] > 1 ==> n == 9
            &&& whole && r[8] <= 1 ==> n == 37 + page::le64(r, 9) + page::le64(r, 17)
            &&& (r.len() < 9 || r[8] <= 1) && !whole ==> n == r.len()
        }),
{
}

/// Reading a front record against a checksum: it is handed out exactly when it is whole and the checksum
/// is the one that it stores.
pub proof fn law_read_record(
    rest: &[u8],
    actual: u32,
    res: Option<Result<WalEntry, WalError>>,
)
    requires
        call_ensures(read_record, (rest, actual), res),
    ensures
        ({
            let r = rest@;
            let whole = r.len() >= 33 && r[8] <= 1 && r.len() >= 37 + page::le64(r, 9) + page::le64(
                r,
                17,
            );
            let n = 33 + page::le64(r, 9) + page::le64(r, 17);
            &&& res is None <==> r.len() < 8
            &&& (res matches Some(Ok(_))) == (whole && page::le32(r, n) == actual)
            &&& res matches Some(Ok(entry)) ==> {
                &&& entry.lsn == page::le64(r, 0)
                &&& entry.key@ == r.subrange(33, 33 + page::le64(r, 9))
                &&& entry.timestamp == page::le64(r, 25)
                &&& entry.value is None <==> page::le64(r, 17) == 0
            }
        }),
{
}

/// Each complaint about a log in words.
pub proof fn law_messages(err: &WalError, text: String)
    requires
        call_ensures(WalError::message, (err,), text),
    ensures
        err is InvalidLsn ==> text@ == "Invalid LSN"@,
        err matches WalError::CorruptedLog(msg) ==> text@ == "Corrupted log: "@ + msg@,
        err matches WalError::Io(IoFault::UnexpectedEof) ==> text@ == "IO error: "@
            + "failed to fill whole buffer"@,
        err matches WalError::Io(IoFault::Other(words)) ==> text@ == "IO error: "@ + words@,
{
}

/// Any entry can be appended below the last lsn, and any log be read.
pub proof fn law_calls_accepted(
    wal: &mut Wal,
    it: &mut WalIterator,
    lsn: Lsn,
    entry_type: WalEntryType,
    key: &[u8],
    value: Option<&[u8]>,
    timestamp: u64,
    log: Vec<u8>,
)
    ensures
        lsn < u64::MAX ==> call_requires(Wal::append, (wal, lsn, entry_type, key, value, timestamp)),
        call_requires(Wal::flush, (wal,)),
        call_requires(WalIterator::new, (log,)),
        old(it).wf() ==> call_requires(WalIterator::next, (it,)),
{
}

} // verus!
