use vstd::prelude::*;
use crate::error::ErrorKind;
use crate::ident::{create_uuid, decimal_text, fresh_id, timestamp_text};

verus! {

/// Entry kind: the operation succeeded.
pub const LOG_SUCCESS: u8 = 0;

/// Entry kind: the operation failed.
pub const LOG_ERROR: u8 = 1;

/// Entry kind: something worth a look.
pub const LOG_WARNING: u8 = 2;

/// One structured log record.
pub struct LogEntry {
    pub log_id: String,
    pub log_type: u8,
    pub log_origin: String,
    pub log_canister: String,
    pub log_message: String,
    pub log_data: String,
    pub log_timestamp: String,
}

impl LogEntry {
    pub open spec fn same(&self, o: &LogEntry) -> bool {
        &&& self.log_id@ == o.log_id@
        &&& self.log_type == o.log_type
        &&& self.log_origin@ == o.log_origin@
        &&& self.log_canister@ == o.log_canister@
        &&& self.log_message@ == o.log_message@
        &&& self.log_data@ == o.log_data@
        &&& self.log_timestamp@ == o.log_timestamp@
    }

    pub fn duplicate(&self) -> (r: LogEntry)
        ensures
            r.same(self),
    {
        LogEntry {
            log_id: self.log_id.clone(),
            log_type: self.log_type,
            log_origin: self.log_origin.clone(),
            log_canister: self.log_canister.clone(),
            log_message: self.log_message.clone(),
            log_data: self.log_data.clone(),
            log_timestamp: self.log_timestamp.clone(),
        }
    }
}

/// How many entries `log_range(index, length)` returns on a log of `size` entries.
pub open spec fn range_len(size: int, index: int, length: int) -> int {
    if index >= size {
        0
    } else if index + length > size {
        size - index
    } else {
        length
    }
}

/// An append-only, in-memory sequence of log entries.
pub struct LogSink {
    pub entries: Vec<LogEntry>,
}

impl LogSink {
    pub fn new() -> (r: LogSink)
        ensures
            r.entries@.len() == 0,
    {
        LogSink { entries: Vec::new() }
    }

    /// Appends an entry written by `caller` at time `now` (nanoseconds): its id is
    /// derived from the timestamp text, which it also carries.
    pub fn log(&mut self, logtype: u8, origin: String, message: String, data: String, caller: String, now: u64) -> (r:
        Result<String, ErrorKind>)
        ensures
            r is Ok,
            final(self).entries@.len() == old(self).entries@.len() + 1,
            final(self).entries@.drop_last() == old(self).entries@,
            ({
                let e = final(self).entries@.last();
                &&& e.log_id@ == fresh_id(now)
                &&& e.log_type == logtype
                &&& e.log_origin@ == origin@
                &&& e.log_canister@ == caller@
                &&& e.log_message@ == message@
                &&& e.log_data@ == data@
                &&& e.log_timestamp@ == decimal_text(now as nat)
            }),
    {
        let entry = LogEntry {
            log_id: create_uuid(now),
            log_type: logtype,
            log_origin: origin,
            log_canister: caller,
            log_message: message,
            log_data: data,
            log_timestamp: timestamp_text(now),
        };
        self.log_inject(entry)
    }

    /// Appends `entry` at the tail.
    pub fn log_inject(&mut self, entry: LogEntry) -> (r: Result<String, ErrorKind>)
        ensures
            r is Ok,
            final(self).entries@ == old(self).entries@.push(entry),
    {
        self.entries.push(entry);
        Ok(String::from_str("Success: the entry was appended to the log"))
    }

    /// Up to `length` entries starting at position `index`, clamped to the log's
    /// end; empty when `index` is past the tail.
    pub fn log_range(&self, index: usize, length: usize) -> (r: Vec<LogEntry>)
        ensures
            r@.len() == range_len(self.entries@.len() as int, index as int, length as int),
            forall|k: int| 0 <= k < r@.len() ==> r@[k].same(&self.entries@[index + k]),
    {
        let size = self.entries.len();
        let mut out: Vec<LogEntry> = Vec::new();
        if index >= size {
            return out;
        }
        let end: usize = if length > size - index { size } else { index + length };
        let mut i: usize = index;
        while i < end
            invariant
                index <= i <= end <= size,
                size == self.entries@.len(),
                end == index + range_len(size as int, index as int, length as int),
                out@.len() == i - index,
                forall|k: int| 0 <= k < out@.len() ==> out@[k].same(&self.entries@[index + k]),
            decreases end - i,
        {
            out.push(self.entries[i].duplicate());
            i = i + 1;
        }
        out
    }

    /// The number of entries.
    pub fn log_size(&self) -> (r: usize)
        ensures
            r == self.entries@.len(),
    {
        self.entries.len()
    }

    /// Drops every entry.
    pub fn log_empty(&mut self)
        ensures
            final(self).entries@.len() == 0,
    {
        self.entries.clear();
    }
}

/// A range that starts at or past the tail is empty.
pub proof fn lemma_range_past_tail(size: int, index: int, length: int)
    requires
        index >= size,
    ensures
        range_len(size, index, length) == 0,
{
}

/// A range that runs past the tail is cut at the tail: `size - index` entries.
pub proof fn lemma_range_clamped(size: int, index: int, length: int)
    requires
        0 <= index <= size,
        index + length > size,
    ensures
        range_len(size, index, length) == size - index,
{
}

} // verus!
