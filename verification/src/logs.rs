//! A bounded ring of recent log records, for a live view.

use std::collections::VecDeque;

use vstd::prelude::*;
use vstd::string::StringSliceAdditionalSpecFns;
use vstd::utf8;

use crate::text;

verus! {

broadcast use vstd::string::group_string_axioms;

/// How many recent records the live view keeps.
pub const DEFAULT_CAPACITY: usize = 1000;

/// One log record. `ts` is an RFC 3339 timestamp in UTC.
#[derive(Debug, PartialEq, Eq)]
pub struct LogRecord {
    pub seq: u64,
    pub ts: String,
    pub level: &'static str,
    pub target: String,
    pub message: String,
}

/// The mathematical value of a [`LogRecord`].
#[verifier::ext_equal]
pub struct RecordView {
    pub seq: int,
    pub ts: Seq<char>,
    pub level: Seq<char>,
    pub target: Seq<char>,
    pub message: Seq<char>,
}

/// Whether a text can be cut at both ends of a range of its bytes.
pub open spec fn sliceable(s: Seq<char>, from: int, to: int) -> bool {
    utf8::is_char_boundary(utf8::encode_utf8(s), from) && utf8::is_char_boundary(
        utf8::encode_utf8(s),
        to,
    )
}

/// The text of a range of the bytes of a text, if it can be cut there, and the
/// whole text otherwise.
pub open spec fn byte_slice(s: Seq<char>, from: int, to: int) -> Seq<char> {
    if sliceable(s, from, to) {
        utf8::decode_utf8(utf8::encode_utf8(s).subrange(from, to))
    } else {
        s
    }
}

impl LogRecord {
    pub open spec fn view(&self) -> RecordView {
        RecordView {
            seq: self.seq as int,
            ts: self.ts@,
            level: self.level@,
            target: self.target@,
            message: self.message@,
        }
    }

    /// The `HH:MM:SS` part of the timestamp: its bytes 11 to 19, or the whole
    /// of it where it cannot be cut there.
    pub fn time(&self) -> (r: &str)
        ensures
            r@ == byte_slice(self.ts@, 11, 19),
    {
        let ts = self.ts.as_str();
        let ghost bytes = ts.spec_bytes();
        if !ts.is_char_boundary(11) || !ts.is_char_boundary(19) {
            return ts;
        }
        proof {
            utf8::encode_utf8_valid_utf8(ts@);
            utf8::valid_utf8_split(bytes, 11);
            lemma_boundary_in_range(bytes, 19);
        }
        let (_, tail) = ts.split_at(11);
        proof {
            let rest = bytes.subrange(11, bytes.len() as int);
            assert(tail.spec_bytes() == rest);
            if bytes.len() == 19 {
                utf8::is_char_boundary_start_end_of_seq(rest);
            } else {
                utf8::is_char_boundary_iff_not_is_continuation_byte(bytes, 19);
                utf8::is_char_boundary_iff_not_is_continuation_byte(rest, 8);
                assert(rest[8] == bytes[19]);
            }
        }
        let (middle, _) = tail.split_at(8);
        proof {
            assert(middle.spec_bytes() =~= bytes.subrange(11, 19));
            utf8::encode_utf8_decode_utf8(middle@);
        }
        middle
    }
}

/// A character boundary lies within the bytes.
pub proof fn lemma_boundary_in_range(bytes: Seq<u8>, index: int)
    requires
        utf8::valid_utf8(bytes),
        utf8::is_char_boundary(bytes, index),
    ensures
        0 <= index <= bytes.len(),
{
}

impl Clone for LogRecord {
    fn clone(&self) -> (r: Self)
        ensures
            r == *self,
    {
        LogRecord {
            seq: self.seq,
            ts: self.ts.clone(),
            level: self.level,
            target: self.target.clone(),
            message: self.message.clone(),
        }
    }
}

/// The severity of a record.
#[derive(Debug, Clone, Copy, PartialEq, Eq, Structural)]
pub enum LogLevel {
    Error,
    Warn,
    Info,
    Debug,
    Trace,
}

/// The name of a severity.
pub open spec fn level_text(level: LogLevel) -> Seq<char> {
    match level {
        LogLevel::Error => "ERROR"@,
        LogLevel::Warn => "WARN"@,
        LogLevel::Info => "INFO"@,
        LogLevel::Debug => "DEBUG"@,
        LogLevel::Trace => "TRACE"@,
    }
}

/// The name of a severity.
pub fn level_str(level: LogLevel) -> (r: &'static str)
    ensures
        r@ == level_text(level),
{
    match level {
        LogLevel::Error => "ERROR",
        LogLevel::Warn => "WARN",
        LogLevel::Info => "INFO",
        LogLevel::Debug => "DEBUG",
        LogLevel::Trace => "TRACE",
    }
}

/// The mathematical values of some records.
pub open spec fn records_view(records: Seq<LogRecord>) -> Seq<RecordView> {
    records.map_values(|r: LogRecord| r@)
}

/// The last records of a list, as many as the ring may keep.
pub open spec fn newest(records: Seq<RecordView>, capacity: int) -> Seq<RecordView> {
    if records.len() > capacity {
        records.skip(records.len() - capacity)
    } else {
        records
    }
}

/// The number after another; after the last one it begins again.
pub open spec fn following(seq: int) -> int {
    if seq == u64::MAX {
        0
    } else {
        seq + 1
    }
}

/// A bounded ring of recent log records.
pub struct LogBuffer {
    records: VecDeque<LogRecord>,
    capacity: usize,
    seq: u64,
}

impl LogBuffer {
    /// The records, oldest first.
    pub closed spec fn view(&self) -> Seq<RecordView> {
        records_view(self.records@)
    }

    /// How many records the ring keeps.
    pub closed spec fn limit(&self) -> int {
        self.capacity as int
    }

    /// The number of the next record.
    pub closed spec fn next_seq(&self) -> int {
        self.seq as int
    }

    /// Whether the ring is within its capacity, which is at least one.
    pub closed spec fn well_formed(&self) -> bool {
        self.records@.len() <= self.capacity && self.capacity >= 1
    }

    /// An empty ring. A capacity of none counts as one.
    pub fn new(capacity: usize) -> (r: Self)
        ensures
            r.well_formed(),
            r@ == Seq::<RecordView>::empty(),
            r.limit() == (if capacity == 0 {
                1
            } else {
                capacity as int
            }),
            r.next_seq() == 0,
    {
        let kept: usize = if capacity == 0 {
            1
        } else {
            capacity
        };
        let r = LogBuffer { records: VecDeque::new(), capacity: kept, seq: 0 };
        assert(r@ =~= Seq::empty());
        r
    }

    /// Adds a record with the next number; the oldest one leaves a full ring.
    pub fn push(&mut self, ts: &str, level: &'static str, target: &str, message: String) -> (r:
        LogRecord)
        requires
            old(self).well_formed(),
        ensures
            final(self).well_formed(),
            r@ == (RecordView {
                seq: old(self).next_seq(),
                ts: ts@,
                level: level@,
                target: target@,
                message: message@,
            }),
            final(self)@ == newest(old(self)@.push(r@), old(self).limit()),
            final(self).limit() == old(self).limit(),
            final(self).next_seq() == following(old(self).next_seq()),
    {
        let ghost was = records_view(self.records@);
        let record = LogRecord {
            seq: self.seq,
            ts: ts.to_owned(),
            level,
            target: target.to_owned(),
            message,
        };
        self.seq = if self.seq == u64::MAX {
            0
        } else {
            self.seq + 1
        };
        self.records.push_back(record.clone());
        assert(records_view(self.records@) =~= was.push(record@));
        if self.records.len() > self.capacity {
            self.records.pop_front();
            assert(records_view(self.records@) =~= was.push(record@).skip(1));
        }
        record
    }

    /// The records, oldest first.
    pub fn snapshot(&self) -> (r: Vec<LogRecord>)
        ensures
            records_view(r@) == self@,
    {
        let mut out: Vec<LogRecord> = Vec::new();
        let mut i: usize = 0;
        while i < self.records.len()
            invariant
                i <= self.records@.len(),
                out@ == self.records@.take(i as int),
            decreases self.records@.len() - i,
        {
            out.push(self.records[i].clone());
            i += 1;
        }
        assert(self.records@.take(i as int) =~= self.records@);
        out
    }
}

/// An event flattened to text: the message, then the other fields.
pub struct MessageVisitor {
    message: String,
    fields: String,
}

impl MessageVisitor {
    /// The message so far.
    pub closed spec fn message(&self) -> Seq<char> {
        self.message@
    }

    /// The other fields so far.
    pub closed spec fn fields(&self) -> Seq<char> {
        self.fields@
    }

    /// Nothing yet.
    pub fn new() -> (r: Self)
        ensures
            r.message() == Seq::<char>::empty(),
            r.fields() == Seq::<char>::empty(),
    {
        MessageVisitor { message: String::new(), fields: String::new() }
    }

    /// Takes a field with its shown value: the message as it is, any other one
    /// as ` name=value`.
    pub fn record(&mut self, name: &str, shown: &str)
        ensures
            name@ == "message"@ ==> final(self).message() == old(self).message() + shown@
                && final(self).fields() == old(self).fields(),
            name@ != "message"@ ==> final(self).message() == old(self).message()
                && final(self).fields() == old(self).fields() + " "@ + name@ + "="@ + shown@,
    {
        if text::same(name, "message") {
            self.message.append(shown);
        } else {
            self.fields.append(" ");
            self.fields.append(name);
            self.fields.append("=");
            self.fields.append(shown);
        }
    }

    /// The message, then the other fields.
    pub fn finish(self) -> (r: String)
        ensures
            r@ == self.message() + self.fields(),
    {
        text::concat2(&self.message, &self.fields)
    }
}

// ---------------------------------------------------------------------------
// Laws

/// The numbers of the records follow one another, up to the next one.
pub open spec fn numbered(records: Seq<RecordView>, next: int) -> bool {
    forall|i: int|
        0 <= i < records.len() ==> (#[trigger] records[i]).seq == next - records.len() + i
}

/// A ring whose numbers follow one another keeps that through a push, whether or
/// not a record leaves.
pub proof fn numbers_increase_across_eviction(
    records: Seq<RecordView>,
    capacity: int,
    record: RecordView,
)
    requires
        numbered(records, record.seq),
        capacity >= 1,
        record.seq < u64::MAX,
    ensures
        numbered(newest(records.push(record), capacity), following(record.seq)),
{
    let next = newest(records.push(record), capacity);
    assert forall|i: int| 0 <= i < next.len() implies (#[trigger] next[i]).seq == record.seq + 1
        - next.len() + i by {
        let k = records.len() + 1 - next.len() + i;
        if k < records.len() {
            assert(records[k].seq == record.seq - records.len() + k);
        }
    }
}

/// A push into a ring keeps the newest records, in order, within the capacity.
pub proof fn ring_keeps_the_newest(records: Seq<RecordView>, capacity: int, record: RecordView)
    requires
        records.len() <= capacity,
        capacity >= 1,
    ensures
        newest(records.push(record), capacity).len() <= capacity,
        newest(records.push(record), capacity).last() == record,
        newest(records.push(record), capacity).drop_last() == records.skip(
            records.len() + 1 - newest(records.push(record), capacity).len(),
        ),
{
    let next = newest(records.push(record), capacity);
    assert(next.drop_last() =~= records.skip(records.len() + 1 - next.len()));
}

} // verus!
