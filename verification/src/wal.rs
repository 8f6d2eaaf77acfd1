//! The write-ahead log: what is appended, and what is read back.

use crate::disk::IoFault;
use crate::page::Lsn;
use crate::wal::record::{
    bytes_consumed, encode_record, entry_type_of, read_record, whole_body_len, EntryModel,
};
use vstd::prelude::*;

pub mod calls;
pub mod laws;
pub mod record;

verus! {

#[derive(Debug)]
pub enum WalError {
    Io(IoFault),
    CorruptedLog(String),
    InvalidLsn,
}

impl From<IoFault> for WalError {
    fn from(fault: IoFault) -> (err: Self) {
        WalError::Io(fault)
    }
}

impl vstd::std_specs::convert::FromSpecImpl<IoFault> for WalError {
    open spec fn obeys_from_spec() -> bool {
        true
    }

    open spec fn from_spec(fault: IoFault) -> Self {
        WalError::Io(fault)
    }
}

impl WalError {
    /// The error in words.
    pub open spec fn words(&self) -> Seq<char> {
        match self {
            WalError::Io(fault) => "IO error: "@ + fault.words(),
            WalError::CorruptedLog(msg) => "Corrupted log: "@ + msg@,
            WalError::InvalidLsn => "Invalid LSN"@,
        }
    }

    pub fn message(&self) -> (text: String)
        ensures
            text@ == self.words(),
    {
        match self {
            WalError::Io(fault) => {
                let mut text = String::from_str("IO error: ");
                text.append(fault.message().as_str());
                text
            },
            WalError::CorruptedLog(msg) => {
                let mut text = String::from_str("Corrupted log: ");
                text.append(msg.as_str());
                text
            },
            WalError::InvalidLsn => String::from_str("Invalid LSN"),
        }
    }
}

#[derive(Debug, Clone, Copy, PartialEq, Eq, Structural)]
pub enum WalEntryType {
    Put,
    Delete,
}

impl TryFrom<u8> for WalEntryType {
    type Error = WalError;

    fn try_from(value: u8) -> (entry_type: Result<Self, WalError>)
        ensures
            match entry_type {
                Ok(t) => value == record::type_byte(t),
                Err(e) => value > 1 && (e matches WalError::CorruptedLog(msg) && msg@
                    == record::unknown_type_text(value)),
            },
    {
        entry_type_of(value)
    }
}

/// No value of `WalError` with a given text can be written down in a contract, so what `try_from`
/// returns stands in its own `ensures`.
impl vstd::std_specs::convert::TryFromSpecImpl<u8> for WalEntryType {
    open spec fn obeys_try_from_spec() -> bool {
        false
    }

    open spec fn try_from_spec(value: u8) -> Result<Self, WalError> {
        arbitrary()
    }
}

pub struct WalEntry {
    pub lsn: Lsn,
    pub entry_type: WalEntryType,
    pub key: Vec<u8>,
    pub value: Option<Vec<u8>>,
    pub timestamp: u64,
}

impl View for WalEntry {
    type V = EntryModel;

    open spec fn view(&self) -> EntryModel {
        EntryModel {
            lsn: self.lsn,
            entry_type: self.entry_type,
            key: self.key@,
            value: match self.value {
                Some(bytes) => Some(bytes@),
                None => None,
            },
            timestamp: self.timestamp,
        }
    }
}

// ── WalIterator ──────────────────────────────────────────────────────────────
/// Reads a log from front to back.
pub struct WalIterator {
    log: Vec<u8>,
    position: usize,
}

impl WalIterator {
    /// The reader stands inside its log or at its end.
    pub closed spec fn wf(&self) -> bool {
        self.position <= self.log@.len()
    }

    /// The bytes not read yet.
    pub closed spec fn rest(&self) -> Seq<u8> {
        self.log@.skip(self.position as int)
    }

    /// Starts at the front of `log`.
    pub fn new(log: Vec<u8>) -> (it: WalIterator)
        ensures
            it.wf(),
            it.rest() == log@,
    {
        let it = WalIterator { log, position: 0 };
        assert(it.rest() =~= log@);
        it
    }

    /// Reads the next entry: `None` at the end of the log, an error where the bytes are no sound
    /// record.
    pub fn next(&mut self) -> (res: Option<Result<WalEntry, WalError>>)
        requires
            old(self).wf(),
        ensures
            final(self).wf(),
            record::is_outcome(res, record::next_reading(old(self).rest())),
            final(self).rest() == old(self).rest().skip(record::consumed(old(self).rest())),
    {
        assert(self.log@.len() == self.log.len());
        let rest: &[u8] = &self.log.as_slice()[self.position..self.log.len()];
        assert(rest@ =~= self.rest());
        let actual: u32 = match whole_body_len(rest) {
            Some(body) => {
                assert(rest@.subrange(0, body as int) =~= rest@.take(body as int));
                crc32fast::hash(&rest[0..body])
            },
            None => 0,
        };
        let res = read_record(rest, actual);
        let n: usize = bytes_consumed(rest);
        self.position = self.position + n;
        assert(self.rest() =~= old(self).rest().skip(n as int));
        res
    }
}

// ── Wal ──────────────────────────────────────────────────────────────────────
/// The end of the log that has not been handed to the file yet.
pub struct Wal {
    pending: Vec<u8>,
}

impl Wal {
    /// The bytes appended since the last flush.
    pub closed spec fn pending(&self) -> Seq<u8> {
        self.pending@
    }

    pub fn new() -> (wal: Self)
        ensures
            wal.pending().len() == 0,
    {
        Wal { pending: Vec::new() }
    }

    /// Appends one record, stamped `timestamp`, and returns the next lsn. A put without a value is
    /// refused; the value of a deletion is dropped.
    pub fn append(
        &mut self,
        lsn: Lsn,
        entry_type: WalEntryType,
        key: &[u8],
        value: Option<&[u8]>,
        timestamp: u64,
    ) -> (res: Result<Lsn, WalError>)
        requires
            lsn < u64::MAX,
        ensures
            match res {
                Ok(next) => {
                    &&& !(entry_type is Put && value is None)
                    &&& next == lsn + 1
                    &&& final(self).pending() == old(self).pending() + record::record_bytes(
                        lsn,
                        entry_type,
                        key@,
                        record::stored_value(
                            entry_type,
                            match value {
                                Some(bytes) => Some(bytes@),
                                None => None,
                            },
                        ),
                        timestamp,
                    )
                },
                Err(e) => {
                    &&& entry_type is Put && value is None
                    &&& e matches WalError::CorruptedLog(msg)
                    &&& msg@ == "Put entry missing value"@
                    &&& final(self).pending() == old(self).pending()
                },
            },
    {
        let next_lsn: u64 = lsn + 1;
        let mut record: Vec<u8> = match entry_type {
            WalEntryType::Put => match value {
                Some(bytes) => encode_record(lsn, entry_type, key, bytes, timestamp),
                None => {
                    return Err(
                        WalError::CorruptedLog(String::from_str("Put entry missing value")),
                    );
                },
            },
            WalEntryType::Delete => {
                let none: Vec<u8> = Vec::new();
                assert(none@ =~= seq![]);
                encode_record(lsn, entry_type, key, none.as_slice(), timestamp)
            },
        };
        self.pending.append(&mut record);
        Ok(next_lsn)
    }

    /// Hands over what was appended since the last flush, for the file.
    pub fn flush(&mut self) -> (bytes: Vec<u8>)
        ensures
            bytes@ == old(self).pending(),
            final(self).pending().len() == 0,
    {
        let mut bytes: Vec<u8> = Vec::new();
        bytes.append(&mut self.pending);
        assert(bytes@ =~= old(self).pending());
        bytes
    }
}

} // verus!
