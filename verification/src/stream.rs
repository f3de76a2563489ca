//! Log output of the engine: its lines, and which of them have been seen before.

use crate::model::{entry_from, entry_models, EntryModel, LogEntry};
use crate::text::{
    concat, copied, is_text, line_parts, lines, same_text, text_before, text_less, text_of,
    text_order_is_total, texts,
};
use vstd::prelude::*;
use vstd::utf8::{decode_utf8, valid_utf8};

verus! {

/// A piece of log output, and the stream that it comes from.
#[derive(Clone, Debug, PartialEq, Eq)]
pub enum LogOutput {
    StdErr { message: Vec<u8> },
    StdOut { message: Vec<u8> },
    StdIn { message: Vec<u8> },
    Console { message: Vec<u8> },
}

/// The name of the stream.
pub open spec fn stream_name(output: LogOutput) -> Seq<char> {
    match output {
        LogOutput::StdErr { .. } => "stderr"@,
        LogOutput::StdOut { .. } => "stdout"@,
        LogOutput::StdIn { .. } => "stdin"@,
        LogOutput::Console { .. } => "console"@,
    }
}

/// The bytes of the output.
pub open spec fn output_bytes(output: LogOutput) -> Seq<u8> {
    match output {
        LogOutput::StdErr { message } => message@,
        LogOutput::StdOut { message } => message@,
        LogOutput::StdIn { message } => message@,
        LogOutput::Console { message } => message@,
    }
}

/// The text of some bytes, with a replacement character for what is no UTF-8.
pub uninterp spec fn lossy_text(bytes: Seq<u8>) -> Seq<char>;

/// `String::from_utf8_lossy` decodes bytes: UTF-8 as it stands, and what is none as replacement
/// characters. The text depends on the bytes alone; how many replacement characters stand for
/// what is no UTF-8 is left open.
#[verifier::external_body]
fn decode_lossy(bytes: &Vec<u8>) -> (text: String)
    ensures
        text@ == lossy_text(bytes@),
        valid_utf8(bytes@) ==> text@ == decode_utf8(bytes@),
{
    String::from_utf8_lossy(bytes).into_owned()
}

/// The log lines of a text: one for each line, a last one without a line feed among them.
pub open spec fn entries_of(stream: Seq<char>, message: Seq<char>) -> Seq<EntryModel> {
    line_parts(message).map_values(|line: Seq<char>| entry_from(stream, line))
}

/// Reads the lines of a text as log lines of a stream.
pub fn split_log_lines(stream: &str, message: &str) -> (entries: Vec<LogEntry>)
    ensures
        entry_models(entries@) == entries_of(stream@, message@),
{
    let parts = lines(message);
    let mut entries: Vec<LogEntry> = Vec::new();
    let mut i: usize = 0;
    let ghost expected = entries_of(stream@, message@);
    proof {
        assert(entry_models(entries@) =~= expected.take(0));
    }
    while i < parts.len()
        invariant
            i <= parts@.len(),
            texts(parts@) == line_parts(message@),
            expected == entries_of(stream@, message@),
            entry_models(entries@) == expected.take(i as int),
        decreases parts@.len() - i,
    {
        let ghost before = entries@;
        let entry = LogEntry::parse(stream, parts[i].as_str());
        entries.push(entry);
        proof {
            assert(texts(parts@)[i as int] == parts@[i as int]@);
            assert(expected[i as int] == entry@);
            assert(entry_models(entries@) =~= entry_models(before).push(entry@));
            assert(expected.take(i + 1) =~= expected.take(i as int).push(expected[i as int]));
        }
        i += 1;
    }
    proof {
        assert(texts(parts@).len() == parts@.len());
        assert(expected.take(i as int) =~= expected);
    }
    entries
}

/// The log lines of a piece of output.
pub open spec fn output_entries(output: LogOutput) -> Seq<EntryModel> {
    entries_of(stream_name(output), lossy_text(output_bytes(output)))
}

/// Reads a piece of log output.
pub fn parse_log_output(output: LogOutput) -> (entries: Vec<LogEntry>)
    ensures
        entry_models(entries@) == output_entries(output),
        valid_utf8(output_bytes(output)) ==> entry_models(entries@) == entries_of(
            stream_name(output),
            decode_utf8(output_bytes(output)),
        ),
{
    let (stream, message) = match output {
        LogOutput::StdErr { message } => ("stderr", message),
        LogOutput::StdOut { message } => ("stdout", message),
        LogOutput::StdIn { message } => ("stdin", message),
        LogOutput::Console { message } => ("console", message),
    };
    let text = decode_lossy(&message);
    split_log_lines(stream, text.as_str())
}

// ---------------------------------------------------------------------------------------------
// The replay gate
// ---------------------------------------------------------------------------------------------

impl EntryModel {
    /// What tells a log line from others: its stream, its timestamp and its message.
    pub open spec fn signature(self) -> Seq<char> {
        self.stream + "|"@ + match self.timestamp {
            Some(timestamp) => timestamp,
            None => ""@,
        } + "|"@ + self.message
    }

    /// The timestamp, where it is not empty.
    pub open spec fn stamp(self) -> Option<Seq<char>> {
        match self.timestamp {
            Some(timestamp) if timestamp.len() > 0 => Some(timestamp),
            _ => None,
        }
    }
}

/// What tells a log line from others.
pub fn log_signature(entry: &LogEntry) -> (signature: String)
    ensures
        signature@ == entry@.signature(),
{
    let head = concat(entry.stream.as_str(), "|");
    let middle = match &entry.timestamp {
        Some(timestamp) => concat(head.as_str(), timestamp.as_str()),
        None => concat(head.as_str(), ""),
    };
    let tail = concat(middle.as_str(), "|");
    concat(tail.as_str(), entry.message.as_str())
}

/// Remembers the log lines of the last timestamp, so that lines which come again are not taken
/// twice.
pub struct LogReplayGate {
    pub last_timestamp: Option<String>,
    pub seen_at_last_timestamp: Vec<String>,
    pub last_untimestamped_signature: Option<String>,
}

/// What a replay gate remembers.
#[verifier::ext_equal]
pub struct GateModel {
    pub last: Option<Seq<char>>,
    pub seen: Set<Seq<char>>,
    pub plain: Option<Seq<char>>,
}

impl View for LogReplayGate {
    type V = GateModel;

    open spec fn view(&self) -> GateModel {
        GateModel {
            last: text_of(self.last_timestamp),
            seen: texts(self.seen_at_last_timestamp@).to_set(),
            plain: text_of(self.last_untimestamped_signature),
        }
    }
}

impl GateModel {
    /// The replay gate has seen a log line.
    pub open spec fn remembering(self, entry: EntryModel) -> GateModel {
        match entry.stamp() {
            Some(stamp) => GateModel {
                last: Some(stamp),
                seen: if self.last == Some(stamp) {
                    self.seen.insert(entry.signature())
                } else {
                    Set::empty().insert(entry.signature())
                },
                plain: None,
            },
            None => GateModel { plain: Some(entry.signature()), ..self },
        }
    }

    /// A log line is new: it is later than the last timestamp, or has not been seen at it; a line
    /// without a timestamp is other than the last such line.
    pub open spec fn is_new(self, entry: EntryModel) -> bool {
        match entry.stamp() {
            Some(stamp) => match self.last {
                Some(last) => {
                    &&& !text_less(stamp, last)
                    &&& stamp == last ==> !self.seen.contains(entry.signature())
                },
                None => true,
            },
            None => self.plain != Some(entry.signature()),
        }
    }

    /// The replay gate after a log line has come: a new line is remembered.
    pub open spec fn after(self, entry: EntryModel) -> GateModel {
        if self.is_new(entry) {
            self.remembering(entry)
        } else {
            self
        }
    }
}

impl Default for LogReplayGate {
    fn default() -> (gate: Self)
        ensures
            gate.wf(),
            gate@ == (GateModel { last: None, seen: Set::empty(), plain: None }),
    {
        let gate = LogReplayGate {
            last_timestamp: None,
            seen_at_last_timestamp: Vec::new(),
            last_untimestamped_signature: None,
        };
        proof {
            assert(texts(gate.seen_at_last_timestamp@).to_set() =~= Set::empty());
        }
        gate
    }
}

impl LogReplayGate {
    /// No signature is held twice.
    pub open spec fn wf(self) -> bool {
        texts(self.seen_at_last_timestamp@).no_duplicates()
    }

    fn has_seen(&self, signature: &str) -> (b: bool)
        ensures
            b == self@.seen.contains(signature@),
    {
        let ghost held = texts(self.seen_at_last_timestamp@);
        let mut i: usize = 0;
        while i < self.seen_at_last_timestamp.len()
            invariant
                i <= self.seen_at_last_timestamp@.len(),
                held == texts(self.seen_at_last_timestamp@),
                forall|j: int| 0 <= j < i ==> #[trigger] held[j] != signature@,
            decreases self.seen_at_last_timestamp@.len() - i,
        {
            proof {
                assert(held[i as int] == self.seen_at_last_timestamp@[i as int]@);
            }
            if same_text(self.seen_at_last_timestamp[i].as_str(), signature) {
                return true;
            }
            i += 1;
        }
        false
    }

    fn note(&mut self, signature: String)
        requires
            old(self).wf(),
        ensures
            final(self).wf(),
            final(self)@ == (GateModel {
                seen: old(self)@.seen.insert(signature@),
                ..old(self)@
            }),
    {
        if self.has_seen(signature.as_str()) {
            proof {
                assert(self@.seen.insert(signature@) =~= self@.seen);
            }
            return;
        }
        let ghost before = texts(self.seen_at_last_timestamp@);
        let ghost added = signature@;
        self.seen_at_last_timestamp.push(signature);
        proof {
            let now = texts(self.seen_at_last_timestamp@);
            assert(now =~= before.push(added));
            assert forall|i: int, j: int| 0 <= i < now.len() && 0 <= j < now.len() && i
                != j implies now[i] != now[j] by {
                if i == before.len() {
                    assert(before.to_set().contains(before[j]));
                } else if j == before.len() {
                    assert(before.to_set().contains(before[i]));
                }
            }
            assert forall|s: Seq<char>| now.to_set().contains(s) <==> #[trigger]
                before.to_set().insert(added).contains(s) by {
                if before.contains(s) {
                    let k = choose|k: int| 0 <= k < before.len() && before[k] == s;
                    assert(now[k] == s);
                }
                if s == added {
                    assert(now[before.len() as int] == s);
                }
            }
            assert(now.to_set() =~= before.to_set().insert(added));
        }
    }

    fn stamp_of(entry: &LogEntry) -> (stamp: Option<String>)
        ensures
            text_of(stamp) == entry@.stamp(),
    {
        match &entry.timestamp {
            Some(timestamp) => if timestamp.as_str().is_empty() {
                None
            } else {
                Some(copied(timestamp.as_str()))
            },
            None => None,
        }
    }

    /// Remembers a log line.
    pub fn remember(&mut self, entry: &LogEntry)
        requires
            old(self).wf(),
        ensures
            final(self).wf(),
            final(self)@ == old(self)@.remembering(entry@),
    {
        let signature = log_signature(entry);
        match LogReplayGate::stamp_of(entry) {
            Some(timestamp) => {
                if !is_text(&self.last_timestamp, timestamp.as_str()) {
                    self.last_timestamp = Some(timestamp);
                    self.seen_at_last_timestamp.clear();
                    proof {
                        assert(texts(self.seen_at_last_timestamp@).to_set() =~= Set::empty());
                    }
                }
                self.note(signature);
                self.last_untimestamped_signature = None;
            },
            None => {
                self.last_untimestamped_signature = Some(signature);
            },
        }
    }

    /// Whether a log line is new. A new line is remembered.
    pub fn accepts(&mut self, entry: &LogEntry) -> (accepted: bool)
        requires
            old(self).wf(),
        ensures
            final(self).wf(),
            accepted == old(self)@.is_new(entry@),
            final(self)@ == old(self)@.after(entry@),
    {
        let signature = log_signature(entry);
        match LogReplayGate::stamp_of(entry) {
            Some(timestamp) => {
                let stale = match &self.last_timestamp {
                    Some(last) => text_before(timestamp.as_str(), last.as_str()) || (same_text(
                        timestamp.as_str(),
                        last.as_str(),
                    ) && self.has_seen(signature.as_str())),
                    None => false,
                };
                if stale {
                    proof {
                        text_order_is_total(timestamp@, timestamp@);
                    }
                    return false;
                }
            },
            None => {
                if is_text(&self.last_untimestamped_signature, signature.as_str()) {
                    return false;
                }
            },
        }
        self.remember(entry);
        true
    }
}

// ---------------------------------------------------------------------------------------------
// Laws of the replay gate
// ---------------------------------------------------------------------------------------------

/// A log line that has been remembered is not new, nor is one that has been accepted.
pub proof fn remembered_lines_are_refused(gate: GateModel, entry: EntryModel)
    ensures
        !gate.remembering(entry).is_new(entry),
        !gate.after(entry).is_new(entry),
{
    match entry.stamp() {
        Some(stamp) => text_order_is_total(stamp, stamp),
        None => {},
    }
}

/// A log line with a later timestamp than the last one is new, one with an earlier timestamp is
/// not.
pub proof fn later_lines_are_accepted(gate: GateModel, entry: EntryModel)
    requires
        gate.last is Some,
        entry.stamp() is Some,
    ensures
        text_less(gate.last->0, entry.stamp()->0) ==> gate.is_new(entry),
        text_less(entry.stamp()->0, gate.last->0) ==> !gate.is_new(entry),
{
    text_order_is_total(gate.last->0, entry.stamp()->0);
    text_order_is_total(entry.stamp()->0, gate.last->0);
}

/// The last timestamp of a gate never goes back.
pub proof fn gate_does_not_go_back(gate: GateModel, entry: EntryModel)
    requires
        gate.last is Some,
    ensures
        gate.after(entry).last is Some,
        !text_less(gate.after(entry).last->0, gate.last->0),
{
    text_order_is_total(gate.last->0, gate.last->0);
}

/// The replay gate after log lines have been remembered one after another.
pub open spec fn remembering_all(gate: GateModel, entries: Seq<EntryModel>) -> GateModel
    decreases entries.len(),
{
    if entries.len() == 0 {
        gate
    } else {
        remembering_all(gate, entries.drop_last()).remembering(entries.last())
    }
}

/// Every line has a timestamp, and none is earlier than the one before it.
pub open spec fn stamped_in_order(entries: Seq<EntryModel>) -> bool {
    &&& forall|i: int| 0 <= i < entries.len() ==> (#[trigger] entries[i]).stamp() is Some
    &&& forall|i: int, j: int|
        0 <= i < j < entries.len() ==> !text_less(
            (#[trigger] entries[j]).stamp()->0,
            (#[trigger] entries[i]).stamp()->0,
        )
}

/// When log lines with timestamps have been remembered in order, each of them is refused if it
/// comes again.
pub proof fn replayed_lines_are_refused(gate: GateModel, entries: Seq<EntryModel>, i: int)
    requires
        stamped_in_order(entries),
        0 <= i < entries.len(),
    ensures
        !remembering_all(gate, entries).is_new(entries[i]),
    decreases entries.len(),
{
    let rest = entries.drop_last();
    let last = entries.last();
    let stamp = last.stamp()->0;
    let own = entries[i].stamp()->0;
    text_order_is_total(own, stamp);
    if i < rest.len() {
        assert(rest[i] == entries[i]);
        assert(!text_less(last.stamp()->0, entries[i].stamp()->0));
        if own == stamp {
            assert(stamped_in_order(rest));
            replayed_lines_are_refused(gate, rest, i);
            remembered_last(gate, rest);
            assert(rest.last() == entries[rest.len() - 1]);
            if rest.last().stamp()->0 != stamp {
                assert(i < rest.len() - 1);
                text_order_is_total(rest.last().stamp()->0, stamp);
                assert(!text_less(entries[rest.len() - 1].stamp()->0, entries[i].stamp()->0));
                assert(!text_less(
                    entries[entries.len() - 1].stamp()->0,
                    entries[rest.len() - 1].stamp()->0,
                ));
            }
        }
    }
}

/// After some lines with timestamps, the last timestamp of the replay gate is that of the last
/// line.
proof fn remembered_last(gate: GateModel, entries: Seq<EntryModel>)
    requires
        entries.len() > 0,
        entries.last().stamp() is Some,
    ensures
        remembering_all(gate, entries).last == entries.last().stamp(),
{
}

// ---------------------------------------------------------------------------------------------
// From when on the log is followed
// ---------------------------------------------------------------------------------------------

/// The seconds since 1970 of a timestamp after RFC 3339.
pub uninterp spec fn rfc3339_seconds(text: Seq<char>) -> Option<i64>;

/// `chrono::DateTime::parse_from_rfc3339` reads a timestamp, or refuses it, and
/// `chrono::DateTime::timestamp` gives its seconds since 1970. The result depends on the text
/// alone; which texts are taken and what they come to is left to RFC 3339.
#[verifier::external_body]
fn parse_seconds(text: &str) -> (seconds: Option<i64>)
    ensures
        seconds == rfc3339_seconds(text@),
{
    chrono::DateTime::parse_from_rfc3339(text).ok().map(|time| time.timestamp())
}

/// `chrono::Utc::now` reads the clock, and `chrono::DateTime::timestamp` gives the seconds since
/// 1970. A clock that stands before 1970 gives no result at all, so the seconds are never below
/// zero; nothing else is said of them.
#[verifier::external_body]
fn now_seconds() -> (seconds: i64)
    ensures
        seconds >= 0,
{
    chrono::Utc::now().timestamp()
}

/// A number of seconds, where it fits in 32 bits.
pub open spec fn short_seconds(seconds: i64) -> Option<i32> {
    if i32::MIN <= seconds <= i32::MAX {
        Some(seconds as i32)
    } else {
        None
    }
}

/// A number of seconds, where it fits in 32 bits.
pub fn seconds_within(seconds: i64) -> (short: Option<i32>)
    ensures
        short == short_seconds(seconds),
{
    if i32::MIN as i64 <= seconds && seconds <= i32::MAX as i64 {
        Some(seconds as i32)
    } else {
        None
    }
}

/// The marker of a moment: its seconds, or the latest ones where they do not fit in 32 bits.
pub open spec fn moment_marker(seconds: i64) -> i32 {
    match short_seconds(seconds) {
        Some(short) => short,
        None => i32::MAX,
    }
}

/// The marker of a moment.
pub fn marker_of(seconds: i64) -> (marker: i32)
    ensures
        marker == moment_marker(seconds),
{
    match seconds_within(seconds) {
        Some(short) => short,
        None => i32::MAX,
    }
}

/// The clock may show these seconds since 1970: `now_seconds` may return them.
pub closed spec fn clock_may_show(seconds: i64) -> bool {
    call_ensures(now_seconds, (), seconds)
}

/// The marker of this moment: that of the seconds which the clock shows.
pub fn current_unix_seconds() -> (marker: i32)
    ensures
        marker >= 0,
        exists|now: i64| #[trigger] clock_may_show(now) && marker == moment_marker(now),
{
    let now: i64 = now_seconds();
    proof {
        assert(clock_may_show(now));
    }
    marker_of(now)
}

/// The moment of a log line, where its timestamp tells one that fits in 32 bits.
pub open spec fn since_marker(entry: EntryModel) -> Option<i32> {
    match entry.timestamp {
        Some(timestamp) => match rfc3339_seconds(timestamp) {
            Some(seconds) => short_seconds(seconds),
            None => None,
        },
        None => None,
    }
}

/// The moment of a log line.
pub fn log_since_marker(entry: &LogEntry) -> (marker: Option<i32>)
    ensures
        marker == since_marker(entry@),
{
    match &entry.timestamp {
        Some(timestamp) => match parse_seconds(timestamp.as_str()) {
            Some(seconds) => seconds_within(seconds),
            None => None,
        },
        None => None,
    }
}

} // verus!
