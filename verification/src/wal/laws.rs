//! What holds between writing a log and reading it.

use crate::page;
use crate::wal::record;
use crate::wal::record::{EntryModel, Reading, CHECKSUM_LEN, RECORD_HEADER_LEN};
use vstd::prelude::*;

verus! {

/// The record that `append` writes for an entry.
pub open spec fn written(e: EntryModel) -> Seq<u8> {
    record::record_bytes(
        e.lsn,
        e.entry_type,
        e.key,
        record::stored_value(e.entry_type, e.value),
        e.timestamp,
    )
}

/// What an entry looks like after a round trip: a value that is empty, or that a deletion carries,
/// comes back as none.
pub open spec fn read_back(e: EntryModel) -> EntryModel {
    let stored = record::stored_value(e.entry_type, e.value);
    EntryModel {
        value: if stored.len() == 0 {
            None
        } else {
            Some(stored)
        },
        ..e
    }
}

/// The lengths of an entry's parts fit the record's length fields.
pub open spec fn lengths_fit(e: EntryModel) -> bool {
    &&& e.key.len() <= u64::MAX
    &&& record::stored_value(e.entry_type, e.value).len() <= u64::MAX
}

/// The records of `entries`, one after another.
pub open spec fn log_of(entries: Seq<EntryModel>) -> Seq<u8>
    decreases entries.len(),
{
    if entries.len() == 0 {
        seq![]
    } else {
        written(entries[0]) + log_of(entries.skip(1))
    }
}

/// Everything that reading `log` to its end finds.
pub open spec fn readings(log: Seq<u8>) -> Seq<Reading>
    decreases log.len(),
{
    if record::next_reading(log) is End || record::consumed(log) <= 0 || record::consumed(log)
        > log.len() {
        seq![]
    } else {
        seq![record::next_reading(log)] + readings(log.skip(record::consumed(log)))
    }
}

proof fn lemma_le_bytes_len(n: int, width: nat)
    ensures
        record::le_bytes(n, width).len() == width,
    decreases width,
{
    if width > 0 {
        lemma_le_bytes_len(n / 0x100, (width - 1) as nat);
    }
}

/// Four bytes read back as the number that they were made from.
proof fn lemma_le32(s: Seq<u8>, at: int, n: u32)
    requires
        0 <= at,
        at + 4 <= s.len(),
        s.subrange(at, at + 4) == record::le_bytes(n as int, 4),
    ensures
        page::le32(s, at) == n,
{
    reveal_with_fuel(record::le_bytes, 5);
    let b = s.subrange(at, at + 4);
    assert(s[at] == b[0] && s[at + 1] == b[1] && s[at + 2] == b[2] && s[at + 3] == b[3]);
}

/// Eight bytes read back as the number that they were made from.
proof fn lemma_le64(s: Seq<u8>, at: int, n: u64)
    requires
        0 <= at,
        at + 8 <= s.len(),
        s.subrange(at, at + 8) == record::le_bytes(n as int, 8),
    ensures
        page::le64(s, at) == n,
{
    reveal_with_fuel(record::le_bytes, 9);
    let b = s.subrange(at, at + 8);
    assert(s[at] == b[0] && s[at + 1] == b[1] && s[at + 2] == b[2] && s[at + 3] == b[3]);
    assert(s[at + 4] == b[4] && s[at + 5] == b[5] && s[at + 6] == b[6] && s[at + 7] == b[7]);
}

/// Where the parts of a written record lie, also with more bytes behind it.
pub proof fn lemma_parts(e: EntryModel, tail: Seq<u8>)
    requires
        lengths_fit(e),
    ensures
        ({
            let r = written(e) + tail;
            let stored = record::stored_value(e.entry_type, e.value);
            let body = record::record_body(e.lsn, e.entry_type, e.key, stored, e.timestamp);
            &&& body.len() == RECORD_HEADER_LEN + e.key.len() + stored.len()
            &&& written(e).len() == body.len() + CHECKSUM_LEN
            &&& page::le64(r, 0) == e.lsn
            &&& r[8] == record::type_byte(e.entry_type)
            &&& page::le64(r, 9) == e.key.len()
            &&& page::le64(r, 17) == stored.len()
            &&& page::le64(r, 25) == e.timestamp
            &&& r.take(body.len() as int) == body
            &&& r.subrange(RECORD_HEADER_LEN as int, RECORD_HEADER_LEN + e.key.len()) == e.key
            &&& r.subrange(RECORD_HEADER_LEN + e.key.len(), body.len() as int) == stored
            &&& page::le32(r, body.len() as int) == record::crc32(body)
        }),
{
    let r = written(e) + tail;
    let stored = record::stored_value(e.entry_type, e.value);
    let body = record::record_body(e.lsn, e.entry_type, e.key, stored, e.timestamp);
    lemma_le_bytes_len(e.lsn as int, 8);
    lemma_le_bytes_len(e.key.len() as int, 8);
    lemma_le_bytes_len(stored.len() as int, 8);
    lemma_le_bytes_len(e.timestamp as int, 8);
    lemma_le_bytes_len(record::crc32(body) as int, 4);
    assert(r.subrange(0, 8) =~= record::le_bytes(e.lsn as int, 8));
    assert(r.subrange(9, 17) =~= record::le_bytes(e.key.len() as int, 8));
    assert(r.subrange(17, 25) =~= record::le_bytes(stored.len() as int, 8));
    assert(r.subrange(25, 33) =~= record::le_bytes(e.timestamp as int, 8));
    lemma_le64(r, 0, e.lsn);
    lemma_le64(r, 9, e.key.len() as u64);
    lemma_le64(r, 17, stored.len() as u64);
    lemma_le64(r, 25, e.timestamp);
    assert(r.take(body.len() as int) =~= body);
    assert(r.subrange(33, 33int + e.key.len()) =~= e.key);
    assert(r.subrange(33int + e.key.len(), body.len() as int) =~= stored);
    assert(r.subrange(body.len() as int, body.len() + 4int) =~= record::le_bytes(
        record::crc32(body) as int,
        4,
    ));
    lemma_le32(r, body.len() as int, record::crc32(body));
}

/// A record that was written is read back as it was written, whatever follows it, and reading it
/// uses up exactly its bytes.
pub proof fn law_record_round_trip(e: EntryModel, tail: Seq<u8>)
    requires
        lengths_fit(e),
    ensures
        record::next_reading(written(e) + tail) == Reading::Entry(read_back(e)),
        record::consumed(written(e) + tail) == written(e).len(),
{
    lemma_parts(e, tail);
}

/// A log is read back entry by entry, in the order in which it was written, and then ends.
pub proof fn law_log_round_trip(entries: Seq<EntryModel>)
    requires
        forall|i: int| 0 <= i < entries.len() ==> lengths_fit(#[trigger] entries[i]),
    ensures
        readings(log_of(entries)) == Seq::new(
            entries.len(),
            |i: int| Reading::Entry(read_back(entries[i])),
        ),
    decreases entries.len(),
{
    if entries.len() > 0 {
        let rest = entries.skip(1);
        assert forall|i: int| 0 <= i < rest.len() implies lengths_fit(#[trigger] rest[i]) by {
            assert(rest[i] == entries[i + 1]);
        }
        law_log_round_trip(rest);
        law_record_round_trip(entries[0], log_of(rest));
        lemma_parts(entries[0], log_of(rest));
        assert(log_of(entries).skip(written(entries[0]).len() as int) =~= log_of(rest));
    }
    assert(readings(log_of(entries)) =~= Seq::new(
        entries.len(),
        |i: int| Reading::Entry(read_back(entries[i])),
    ));
}

/// The log of one more entry is the log with one more record.
proof fn lemma_log_push(entries: Seq<EntryModel>, e: EntryModel)
    ensures
        log_of(entries.push(e)) == log_of(entries) + written(e),
    decreases entries.len(),
{
    if entries.len() == 0 {
        assert(entries.push(e).skip(1) =~= Seq::<EntryModel>::empty());
        assert(log_of(Seq::<EntryModel>::empty()) =~= Seq::<u8>::empty());
        assert(log_of(entries.push(e)) =~= log_of(entries) + written(e));
    } else {
        lemma_log_push(entries.skip(1), e);
        assert(entries.push(e).skip(1) =~= entries.skip(1).push(e));
        assert(log_of(entries.push(e)) =~= log_of(entries) + written(e));
    }
}

/// A log that grows keeps what it held: one more record leaves the earlier readings alone and adds
/// its own behind them.
pub proof fn law_append_extends(entries: Seq<EntryModel>, e: EntryModel)
    requires
        forall|i: int| 0 <= i < entries.len() ==> lengths_fit(#[trigger] entries[i]),
        lengths_fit(e),
    ensures
        readings(log_of(entries) + written(e)) == readings(log_of(entries)).push(
            Reading::Entry(read_back(e)),
        ),
{
    let more = entries.push(e);
    assert forall|i: int| 0 <= i < more.len() implies lengths_fit(#[trigger] more[i]) by {
        assert(i < entries.len() ==> more[i] == entries[i]);
    }
    lemma_log_push(entries, e);
    law_log_round_trip(entries);
    law_log_round_trip(more);
    assert(readings(log_of(more)) =~= readings(log_of(entries)).push(Reading::Entry(read_back(e))));
}

/// A record that was cut off is never read as an entry: with less than an lsn left the log seems
/// to end, otherwise the reader reports that the input ended.
pub proof fn law_torn_record(e: EntryModel, n: int)
    requires
        lengths_fit(e),
        0 <= n < written(e).len(),
    ensures
        record::next_reading(written(e).take(n)) == if n < 8 {
            Reading::End
        } else {
            Reading::Torn
        },
{
    let whole = written(e);
    let cut = whole.take(n);
    lemma_parts(e, seq![]);
    assert(whole + Seq::<u8>::empty() =~= whole);
    if n >= 9 {
        assert(cut[8] == whole[8]);
    }
    if n >= RECORD_HEADER_LEN {
        assert forall|i: int| 0 <= i < RECORD_HEADER_LEN implies #[trigger] cut[i] == whole[i] by {}
        assert(page::le64(cut, 9) == page::le64(whole, 9));
        assert(page::le64(cut, 17) == page::le64(whole, 17));
    }
}

/// A record whose stored checksum was damaged is reported, not read: whichever of its checksum
/// bytes is changed.
pub proof fn law_damaged_checksum(e: EntryModel, tail: Seq<u8>, at: int, byte: u8)
    requires
        lengths_fit(e),
        written(e).len() - CHECKSUM_LEN <= at < written(e).len(),
        written(e)[at] != byte,
    ensures
        record::next_reading((written(e) + tail).update(at, byte)) is Mismatch,
        record::consumed((written(e) + tail).update(at, byte)) == written(e).len(),
{
    let r = written(e) + tail;
    let d = r.update(at, byte);
    lemma_parts(e, tail);
    let n = record::body_len(r);
    assert(page::le64(d, 9) == page::le64(r, 9));
    assert(page::le64(d, 17) == page::le64(r, 17));
    assert(d.take(n) =~= r.take(n));
    assert(page::le32(d, n) != page::le32(r, n)) by {
        assert(at == n || at == n + 1 || at == n + 2 || at == n + 3);
    }
}

/// A reader that finds something moves on, so reading a log comes to its end.
pub proof fn law_reader_advances(log: Seq<u8>)
    ensures
        record::next_reading(log) !is End ==> 0 < record::consumed(log) <= log.len(),
        record::next_reading(log) is End <==> log.len() < 8,
{
}

} // verus!
