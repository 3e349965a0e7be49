//! Log records: their text, their line on the console, filtering, and the
//! records that the logging treatments make of messages.
//!
//! Timestamps are rendered by the `chrono` crate.
use vstd::prelude::*;
use vstd::string::StringExecFns;
use crate::text::{push_char, same_text};
use super::level::{Level, LogLevel, level_name};

verus! {

/// An instant in UTC: whole seconds since the Unix epoch, and nanoseconds
/// into that second.
#[derive(Clone, Copy, PartialEq, Eq, Structural)]
pub struct Timestamp {
    pub secs: i64,
    pub nanos: u32,
}

/// A log record.
pub struct Log {
    pub timestamp: Timestamp,
    pub level: LogLevel,
    pub label: String,
    pub message: String,
}

/// A log record as values.
pub type LogView = (Timestamp, LogLevel, Seq<char>, Seq<char>);

impl Log {
    /// The record's timestamp, level, label and message.
    pub open spec fn view(&self) -> LogView {
        (self.timestamp, self.level, self.label@, self.message@)
    }

    /// A record with the given fields.
    pub fn new(timestamp: Timestamp, level: LogLevel, label: String, message: String) -> (r: Log)
        ensures
            r.view() == (timestamp, level, label@, message@),
    {
        Log { timestamp, level, label, message }
    }

    /// A copy of the record.
    pub fn duplicate(&self) -> (r: Log)
        ensures
            r.view() == self.view(),
    {
        Log {
            timestamp: self.timestamp,
            level: self.level,
            label: self.label.clone(),
            message: self.message.clone(),
        }
    }
}

/// The views of a list of records.
pub open spec fn logs_view(logs: Seq<Log>) -> Seq<LogView> {
    logs.map_values(|l: Log| l.view())
}

/// The RFC 3339 text of the instant `secs`, `nanos` with milliseconds and a
/// `Z` suffix as `chrono` writes it, or `None` where `chrono` cannot
/// represent the instant.
pub uninterp spec fn rfc3339_millis(secs: i64, nanos: u32) -> Option<Seq<char>>;

/// `DateTime::<Utc>::from_timestamp(secs, nanos)` then
/// `to_rfc3339_opts(SecondsFormat::Millis, true)`. Claims the named result.
#[verifier::external_body]
fn format_timestamp(secs: i64, nanos: u32) -> (r: Option<String>)
    ensures
        r is None <==> rfc3339_millis(secs, nanos) is None,
        r matches Some(t) ==> t@ == rfc3339_millis(secs, nanos)->0,
{
    ::chrono::DateTime::<::chrono::Utc>::from_timestamp(secs, nanos).map(
        |t| t.to_rfc3339_opts(::chrono::SecondsFormat::Millis, true),
    )
}

/// The text of a timestamp; empty where it cannot be represented.
pub open spec fn timestamp_text(t: Timestamp) -> Seq<char> {
    match rfc3339_millis(t.secs, t.nanos) {
        Some(s) => s,
        None => Seq::empty(),
    }
}

/// `": "`.
pub open spec fn separator() -> Seq<char> {
    seq![':', ' ']
}

/// The text of a record: `[timestamp] level: label: message`.
pub open spec fn log_text(l: LogView) -> Seq<char> {
    seq!['['] + timestamp_text(l.0) + seq![']', ' '] + level_name(l.1) + separator() + l.2
        + separator() + l.3
}

/// Appends the text of `t` to `s`.
fn push_timestamp(s: &mut String, t: Timestamp)
    ensures
        final(s)@ == old(s)@ + timestamp_text(t),
{
    match format_timestamp(t.secs, t.nanos) {
        Some(text) => s.append(text.as_str()),
        None => {
            assert(old(s)@ + timestamp_text(t) =~= old(s)@);
        },
    }
}

/// Appends `": "` to `s`.
fn push_separator(s: &mut String)
    ensures
        final(s)@ == old(s)@ + separator(),
{
    push_char(s, ':');
    push_char(s, ' ');
    assert(old(s)@.push(':').push(' ') =~= old(s)@ + separator());
}

impl Log {
    /// The text of the record: `[timestamp] level: label: message`, the
    /// timestamp in RFC 3339 with milliseconds.
    pub fn to_string(&self) -> (r: String)
        ensures
            r@ == log_text(self.view()),
    {
        let mut r = String::new();
        push_char(&mut r, '[');
        push_timestamp(&mut r, self.timestamp);
        push_char(&mut r, ']');
        push_char(&mut r, ' ');
        let name = self.level.name();
        r.append(name.as_str());
        push_separator(&mut r);
        r.append(self.label.as_str());
        push_separator(&mut r);
        r.append(self.message.as_str());
        assert(r@ =~= log_text(self.view()));
        r
    }
}

/// A console line: the text before the level (`[timestamp] ` or nothing),
/// the level, and the text after it (`: label: message`). The console
/// shows the level's name in bold and in the level's colour.
pub struct ConsoleLine {
    pub before: String,
    pub level: LogLevel,
    pub after: String,
}

/// The console line of a record, with or without its timestamp.
pub fn console_line(log: &Log, timestamp: bool) -> (r: ConsoleLine)
    ensures
        r.before@ == (if timestamp {
            seq!['['] + timestamp_text(log.timestamp) + seq![']', ' ']
        } else {
            Seq::empty()
        }),
        r.level == log.level,
        r.after@ == separator() + log.label@ + separator() + log.message@,
{
    let mut before = String::new();
    if timestamp {
        push_char(&mut before, '[');
        push_timestamp(&mut before, log.timestamp);
        push_char(&mut before, ']');
        push_char(&mut before, ' ');
        assert(before@ =~= seq!['['] + timestamp_text(log.timestamp) + seq![']', ' ']);
    }
    let mut after = String::new();
    push_separator(&mut after);
    after.append(log.label.as_str());
    push_separator(&mut after);
    after.append(log.message.as_str());
    assert(after@ =~= separator() + log.label@ + separator() + log.message@);
    ConsoleLine { before, level: log.level, after }
}

/// Whether a record passes a filter on levels and labels: its level is one
/// of `levels` and its label one of `labels`.
pub open spec fn passes(l: LogView, levels: Seq<Level>, labels: Seq<Seq<char>>) -> bool {
    (exists|i: int| 0 <= i < levels.len() && (#[trigger] levels[i]).level == l.1) && (exists|j: int|
        0 <= j < labels.len() && #[trigger] labels[j] == l.2)
}

/// The records of `logs` that pass the filter, in order.
pub open spec fn filtered(logs: Seq<LogView>, levels: Seq<Level>, labels: Seq<Seq<char>>) -> Seq<LogView>
    decreases logs.len(),
{
    if logs.len() == 0 {
        Seq::empty()
    } else {
        let rest = filtered(logs.drop_last(), levels, labels);
        if passes(logs.last(), levels, labels) {
            rest.push(logs.last())
        } else {
            rest
        }
    }
}

fn level_listed(levels: &Vec<Level>, level: LogLevel) -> (r: bool)
    ensures
        r == exists|i: int| 0 <= i < levels@.len() && (#[trigger] levels@[i]).level == level,
{
    let mut i: usize = 0;
    while i < levels.len()
        invariant
            i <= levels@.len(),
            forall|k: int| 0 <= k < i ==> (#[trigger] levels@[k]).level != level,
        decreases levels@.len() - i,
    {
        if levels[i].level == level {
            return true;
        }
        i = i + 1;
    }
    false
}

fn label_listed(labels: &Vec<String>, label: &String) -> (r: bool)
    ensures
        r == exists|j: int| 0 <= j < labels@.len() && #[trigger] labels@[j]@ == label@,
{
    let mut i: usize = 0;
    while i < labels.len()
        invariant
            i <= labels@.len(),
            forall|k: int| 0 <= k < i ==> (#[trigger] labels@[k])@ != label@,
        decreases labels@.len() - i,
    {
        if same_text(labels[i].as_str(), label.as_str()) {
            return true;
        }
        i = i + 1;
    }
    false
}

/// Filtering keeps exactly the records whose level equals the level of one
/// of `levels` and whose label equals one of `labels`: every kept record is
/// one of `logs` with such a level and label (a level only compares equal,
/// it is no threshold), and every record of `logs` with such a level and
/// label is kept.
pub proof fn lemma_filter_logs_keeps_listed(logs: Seq<LogView>, levels: Seq<Level>, labels: Seq<Seq<char>>)
    ensures
        filtered(logs, levels, labels).len() <= logs.len(),
        forall|k: int|
            0 <= k < filtered(logs, levels, labels).len() ==> {
                let r = #[trigger] filtered(logs, levels, labels)[k];
                &&& logs.contains(r)
                &&& exists|i: int| 0 <= i < levels.len() && (#[trigger] levels[i]).level == r.1
                &&& exists|j: int| 0 <= j < labels.len() && #[trigger] labels[j] == r.2
            },
        forall|k: int|
            0 <= k < logs.len() && (exists|i: int| 0 <= i < levels.len() && (#[trigger] levels[i]).level
                == (#[trigger] logs[k]).1) && (exists|j: int| 0 <= j < labels.len() && #[trigger] labels[j]
                == logs[k].2) ==> filtered(logs, levels, labels).contains(logs[k]),
    decreases logs.len(),
{
    if logs.len() > 0 {
        let init = logs.drop_last();
        lemma_filter_logs_keeps_listed(init, levels, labels);
        let rest = filtered(init, levels, labels);
        let f = filtered(logs, levels, labels);
        assert(f == if passes(logs.last(), levels, labels) { rest.push(logs.last()) } else { rest });
        assert forall|k: int| 0 <= k < f.len() implies ({
            let r = #[trigger] f[k];
            &&& logs.contains(r)
            &&& exists|i: int| 0 <= i < levels.len() && (#[trigger] levels[i]).level == r.1
            &&& exists|j: int| 0 <= j < labels.len() && #[trigger] labels[j] == r.2
        }) by {
            if k < rest.len() {
                assert(f[k] == rest[k]);
                let r = rest[k];
                assert(init.contains(r));
                let q = choose|q: int| 0 <= q < init.len() && init[q] == r;
                assert(logs[q] == r);
            } else {
                assert(passes(logs.last(), levels, labels));
                assert(f[k] == logs.last());
                assert(logs[logs.len() - 1] == logs.last());
                let i = choose|i: int| 0 <= i < levels.len() && (#[trigger] levels[i]).level == logs.last().1;
                let j = choose|j: int| 0 <= j < labels.len() && #[trigger] labels[j] == logs.last().2;
                assert(levels[i].level == f[k].1);
                assert(labels[j] == f[k].2);
            }
        }
        assert forall|k: int|
            0 <= k < logs.len() && (exists|i: int| 0 <= i < levels.len() && (#[trigger] levels[i]).level
                == (#[trigger] logs[k]).1) && (exists|j: int| 0 <= j < labels.len() && #[trigger] labels[j]
                == logs[k].2) implies f.contains(logs[k]) by {
            if k < logs.len() - 1 {
                assert(init[k] == logs[k]);
                assert(rest.contains(init[k]));
                let q = choose|q: int| 0 <= q < rest.len() && rest[q] == init[k];
                assert(f[q] == rest[q]);
            } else {
                assert(passes(logs.last(), levels, labels));
                assert(f[f.len() - 1] == logs.last());
            }
        }
    }
}

/// Filtering a single record keeps it exactly when its level equals the
/// level of one of `levels` and its label equals one of `labels`.
pub proof fn lemma_filter_one_log(l: LogView, levels: Seq<Level>, labels: Seq<Seq<char>>)
    ensures
        filtered(seq![l], levels, labels) == if (exists|i: int| 0 <= i < levels.len() && (#[trigger] levels[i]).level == l.1)
            && (exists|j: int| 0 <= j < labels.len() && #[trigger] labels[j] == l.2) {
            seq![l]
        } else {
            Seq::empty()
        },
{
    let e = Seq::<LogView>::empty();
    assert(seq![l].drop_last() =~= e);
    assert(seq![l].last() == l);
    assert(filtered(e, levels, labels) == e);
    assert(e.push(l) =~= seq![l]);
    assert(filtered(seq![l], levels, labels) == if passes(l, levels, labels) { e.push(l) } else { e });
}

/// Filtering keeps the order of the records: filtering one list of records
/// after another gives the records kept of the first, then those kept of
/// the second.
pub proof fn lemma_filter_logs_concat(a: Seq<LogView>, b: Seq<LogView>, levels: Seq<Level>, labels: Seq<Seq<char>>)
    ensures
        filtered(a + b, levels, labels) == filtered(a, levels, labels) + filtered(b, levels, labels),
    decreases b.len(),
{
    if b.len() == 0 {
        assert(a + b =~= a);
        assert(filtered(a, levels, labels) + Seq::<LogView>::empty() =~= filtered(a, levels, labels));
    } else {
        lemma_filter_logs_concat(a, b.drop_last(), levels, labels);
        assert((a + b).drop_last() =~= a + b.drop_last());
        assert((a + b).last() == b.last());
        let fa = filtered(a, levels, labels);
        let fb0 = filtered(b.drop_last(), levels, labels);
        assert((fa + fb0).push(b.last()) =~= fa + fb0.push(b.last()));
    }
}

/// The records of `logs` whose level is one of `levels` and whose label is
/// one of `labels`, in order.
pub fn filter_logs(logs: &Vec<Log>, levels: &Vec<Level>, labels: &Vec<String>) -> (r: Vec<Log>)
    ensures
        logs_view(r@) == filtered(logs_view(logs@), levels@, labels@.map_values(|s: String| s@)),
{
    let ghost labels_v = labels@.map_values(|s: String| s@);
    let mut r: Vec<Log> = Vec::new();
    let mut i: usize = 0;
    while i < logs.len()
        invariant
            i <= logs@.len(),
            labels_v == labels@.map_values(|s: String| s@),
            logs_view(r@) == filtered(logs_view(logs@).subrange(0, i as int), levels@, labels_v),
        decreases logs@.len() - i,
    {
        let ghost before = r@;
        let ghost prefix = logs_view(logs@).subrange(0, i + 1);
        assert(prefix.drop_last() =~= logs_view(logs@).subrange(0, i as int));
        assert(prefix.last() == logs@[i as int].view());
        let keep = level_listed(levels, logs[i].level) && label_listed(labels, &logs[i].label);
        proof {
            let l = logs@[i as int].view();
            if exists|j: int| 0 <= j < labels@.len() && #[trigger] labels@[j]@ == l.2 {
                let j = choose|j: int| 0 <= j < labels@.len() && #[trigger] labels@[j]@ == l.2;
                assert(labels_v[j] == l.2);
            }
            if exists|j: int| 0 <= j < labels_v.len() && #[trigger] labels_v[j] == l.2 {
                let j = choose|j: int| 0 <= j < labels_v.len() && #[trigger] labels_v[j] == l.2;
                assert(labels@[j]@ == l.2);
            }
            assert(keep == passes(l, levels@, labels_v));
        }
        if keep {
            r.push(logs[i].duplicate());
            assert(logs_view(r@) =~= logs_view(before).push(logs@[i as int].view()));
        }
        i = i + 1;
    }
    assert(logs_view(logs@).subrange(0, logs@.len() as int) =~= logs_view(logs@));
    r
}

/// The records that the treatment `logStream` makes of `messages`: one per
/// message, in order, at `level` and with `label`, each stamped with the
/// instant it was made.
pub fn log_stream(level: Level, label: &String, messages: &Vec<String>, stamps: &Vec<Timestamp>) -> (r: Vec<Log>)
    requires
        stamps@.len() == messages@.len(),
    ensures
        r@.len() == messages@.len(),
        forall|i: int|
            #![trigger r@[i]]
            0 <= i < r@.len() ==> r@[i].view() == (stamps@[i], level.level, label@, messages@[i]@),
{
    let mut r: Vec<Log> = Vec::new();
    let mut i: usize = 0;
    while i < messages.len()
        invariant
            i <= messages@.len(),
            stamps@.len() == messages@.len(),
            r@.len() == i,
            forall|k: int|
                #![trigger r@[k]]
                0 <= k < i ==> r@[k].view() == (stamps@[k], level.level, label@, messages@[k]@),
        decreases messages@.len() - i,
    {
        r.push(Log::new(stamps[i], level.level, label.clone(), messages[i].clone()));
        i = i + 1;
    }
    r
}

/// The record that the treatment `logBlock` makes of `message`, stamped
/// with the instant it was made.
pub fn log_block(level: Level, label: &String, message: String, stamp: Timestamp) -> (r: Log)
    ensures
        r.view() == (stamp, level.level, label@, message@),
{
    Log::new(stamp, level.level, label.clone(), message)
}

} // verus!
