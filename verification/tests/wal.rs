use fluxdb::disk::IoFault;
use fluxdb::wal::record::{
    bytes_consumed, encode_body, encode_record, entry_type_of, read_record, seal_record,
    whole_body_len,
};
use fluxdb::wal::{Wal, WalEntry, WalEntryType, WalError, WalIterator};

/// The log that holds these entries: lsn, type, key, value, timestamp.
fn log_of(entries: &[(u64, WalEntryType, &[u8], Option<&[u8]>, u64)]) -> Vec<u8> {
    let mut wal = Wal::new();
    for (lsn, entry_type, key, value, timestamp) in entries {
        let next = wal.append(*lsn, *entry_type, key, *value, *timestamp);
        assert_eq!(next.ok(), Some(lsn + 1));
    }
    wal.flush()
}

fn parts(entry: WalEntry) -> (u64, WalEntryType, Vec<u8>, Option<Vec<u8>>, u64) {
    (entry.lsn, entry.entry_type, entry.key, entry.value, entry.timestamp)
}

fn corrupted_text(res: Option<Result<WalEntry, WalError>>) -> String {
    match res {
        Some(Err(WalError::CorruptedLog(msg))) => msg,
        _ => panic!("no corruption reported"),
    }
}

#[test]
fn record_bytes_are_exact() {
    let log = log_of(&[(1, WalEntryType::Put, b"k", Some(b"v"), 2)]);
    let mut expected = vec![1, 0, 0, 0, 0, 0, 0, 0, 0];
    expected.extend([1, 0, 0, 0, 0, 0, 0, 0]);
    expected.extend([1, 0, 0, 0, 0, 0, 0, 0]);
    expected.extend([2, 0, 0, 0, 0, 0, 0, 0]);
    expected.extend([b'k', b'v']);
    expected.extend([0xd1, 0xe6, 0xb3, 0xf5]);
    assert_eq!(log, expected);
}

#[test]
fn delete_record_carries_no_value() {
    let with = log_of(&[(1, WalEntryType::Delete, b"k", Some(b"dropped"), 2)]);
    let without = log_of(&[(1, WalEntryType::Delete, b"k", None, 2)]);
    assert_eq!(with, without);
    assert_eq!(with.len(), 33 + 1 + 4);
    assert_eq!(with[8], 1);
    assert_eq!(&with[34..], &[0xd3, 0x9b, 0xf3, 0xd3]);
}

#[test]
fn checksum_is_the_crc_of_the_body() {
    let record = encode_record(u64::MAX - 1, WalEntryType::Put, b"key", b"some value", 77);
    let body = record.len() - 4;
    assert_eq!(whole_body_len(&record), Some(body));
    let crc = crc32fast::hash(&record[..body]);
    assert_eq!(&record[body..], &crc.to_le_bytes());
    assert_eq!(crc32fast::hash(b"123456789"), 0xcbf4_3926);
}

#[test]
fn put_without_value_is_refused() {
    let mut wal = Wal::new();
    let res = wal.append(1, WalEntryType::Put, b"k", None, 2);
    match res {
        Err(WalError::CorruptedLog(msg)) => assert_eq!(msg, "Put entry missing value"),
        _ => panic!("a put without a value was accepted"),
    }
    assert!(wal.flush().is_empty());
}

#[test]
fn flush_hands_over_once() {
    let mut wal = Wal::new();
    assert_eq!(wal.append(7, WalEntryType::Put, b"a", Some(b"b"), 0).ok(), Some(8));
    let first = wal.flush();
    assert_eq!(first.len(), 33 + 2 + 4);
    assert!(wal.flush().is_empty());
}

#[test]
fn log_is_read_back_in_order() {
    let log = log_of(&[
        (1, WalEntryType::Put, b"apple", Some(b"red"), 10),
        (2, WalEntryType::Delete, b"apple", None, 11),
        (3, WalEntryType::Put, b"", Some(b"empty key"), 12),
    ]);
    let mut it = WalIterator::new(log);
    assert_eq!(
        parts(it.next().unwrap().ok().unwrap()),
        (1, WalEntryType::Put, b"apple".to_vec(), Some(b"red".to_vec()), 10)
    );
    assert_eq!(
        parts(it.next().unwrap().ok().unwrap()),
        (2, WalEntryType::Delete, b"apple".to_vec(), None, 11)
    );
    assert_eq!(
        parts(it.next().unwrap().ok().unwrap()),
        (3, WalEntryType::Put, vec![], Some(b"empty key".to_vec()), 12)
    );
    assert!(it.next().is_none());
    assert!(it.next().is_none());
}

#[test]
fn empty_value_reads_as_none() {
    let mut it = WalIterator::new(log_of(&[(5, WalEntryType::Put, b"k", Some(b""), 1)]));
    assert_eq!(
        parts(it.next().unwrap().ok().unwrap()),
        (5, WalEntryType::Put, b"k".to_vec(), None, 1)
    );
}

#[test]
fn torn_record_is_never_an_entry() {
    let log = log_of(&[(1, WalEntryType::Put, b"key", Some(b"value"), 2)]);
    for n in 0..log.len() {
        let mut it = WalIterator::new(log[..n].to_vec());
        let res = it.next();
        if n < 8 {
            assert!(res.is_none());
        } else {
            assert!(matches!(res, Some(Err(WalError::Io(IoFault::UnexpectedEof)))));
        }
        assert!(it.next().is_none());
    }
}

#[test]
fn torn_tail_leaves_earlier_entries() {
    let mut log = log_of(&[(1, WalEntryType::Put, b"a", Some(b"b"), 2)]);
    log.extend([9u8; 12]);
    let mut it = WalIterator::new(log);
    assert_eq!(it.next().unwrap().ok().unwrap().lsn, 1);
    // the byte where the type belongs is 9
    assert_eq!(corrupted_text(it.next()), "Invalid entry type: 9");
}

#[test]
fn unknown_type_is_reported_and_passed_over() {
    let mut log = log_of(&[(1, WalEntryType::Put, b"a", Some(b"b"), 2)]);
    log[8] = 200;
    assert_eq!(bytes_consumed(&log), 9);
    let mut it = WalIterator::new(log);
    assert_eq!(corrupted_text(it.next()), "Invalid entry type: 200");
}

#[test]
fn damaged_checksum_is_reported() {
    let mut log = log_of(&[
        (12, WalEntryType::Put, b"k", Some(b"v"), 2),
        (13, WalEntryType::Put, b"k", Some(b"v"), 2),
    ]);
    let actual = u32::from_le_bytes([log[35], log[36], log[37], log[38]]);
    log[35] ^= 1;
    let stored = actual ^ 1;
    let mut it = WalIterator::new(log);
    assert_eq!(
        corrupted_text(it.next()),
        format!("Checksum mismatch for LSN 12: expected {}, got {}", stored, actual)
    );
    assert_eq!(it.next().unwrap().ok().unwrap().lsn, 13);
}

#[test]
fn damaged_body_is_reported() {
    let mut log = log_of(&[(12, WalEntryType::Put, b"k", Some(b"v"), 2)]);
    log[33] = b'x';
    let mut it = WalIterator::new(log);
    assert!(corrupted_text(it.next()).starts_with("Checksum mismatch for LSN 12: expected "));
}

#[test]
fn oversized_length_is_torn() {
    let mut log = log_of(&[(1, WalEntryType::Put, b"k", Some(b"v"), 2)]);
    for at in 9..17 {
        log[at] = 0xff;
    }
    let mut it = WalIterator::new(log);
    assert!(matches!(it.next(), Some(Err(WalError::Io(IoFault::UnexpectedEof)))));
    assert!(it.next().is_none());
}

#[test]
fn reading_goes_by_the_checksum_it_is_given() {
    let record = encode_record(3, WalEntryType::Put, b"k", b"v", 4);
    let stored = u32::from_le_bytes([record[35], record[36], record[37], record[38]]);
    assert!(matches!(read_record(&record, stored), Some(Ok(_))));
    assert_eq!(
        corrupted_text(read_record(&record, stored.wrapping_add(1))),
        format!(
            "Checksum mismatch for LSN 3: expected {}, got {}",
            stored,
            stored.wrapping_add(1)
        )
    );
}

#[test]
fn entry_types_come_from_their_bytes() {
    assert_eq!(WalEntryType::try_from(0).ok(), Some(WalEntryType::Put));
    assert_eq!(WalEntryType::try_from(1).ok(), Some(WalEntryType::Delete));
    match entry_type_of(2) {
        Err(e) => assert_eq!(e.message(), "Corrupted log: Invalid entry type: 2"),
        Ok(_) => panic!("2 is no entry type"),
    }
    assert!(WalEntryType::try_from(255).is_err());
}

#[test]
fn wal_errors_in_words() {
    assert_eq!(WalError::InvalidLsn.message(), "Invalid LSN");
    assert_eq!(
        WalError::from(IoFault::Other("disk on fire".to_string())).message(),
        "IO error: disk on fire"
    );
    assert_eq!(
        WalError::Io(IoFault::UnexpectedEof).message(),
        "IO error: failed to fill whole buffer"
    );
    assert_eq!(WalError::CorruptedLog("x".to_string()).message(), "Corrupted log: x");
}

#[test]
fn record_is_its_body_sealed() {
    let body = encode_body(0x0102, WalEntryType::Delete, b"k", b"", 9);
    assert_eq!(
        body,
        vec![
            2, 1, 0, 0, 0, 0, 0, 0, 1, 1, 0, 0, 0, 0, 0, 0, 0, 0, 0, 0, 0, 0, 0, 0, 0, 9, 0, 0, 0, 0,
            0, 0, 0, b'k'
        ]
    );
    let sealed = seal_record(body.clone(), 0xa1b2_c3d4);
    assert_eq!(&sealed[..34], &body[..]);
    assert_eq!(&sealed[34..], &[0xd4, 0xc3, 0xb2, 0xa1]);
    let whole = seal_record(body.clone(), crc32fast::hash(&body));
    assert_eq!(encode_record(0x0102, WalEntryType::Delete, b"k", b"", 9), whole);
}
