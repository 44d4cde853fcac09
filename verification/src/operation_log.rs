//! Logs of what the program does: their names, how many are kept, and how long they may grow.

use vstd::prelude::*;

use crate::numbers;
use crate::order;
use crate::order::{KeyPart, Ordered};
use crate::paths;
use crate::text;

verus! {

pub const DEFAULT_RETAIN_LOGS: usize = 20;

pub const DEFAULT_MAX_BYTES: u64 = 10 * 1024 * 1024;

/// The directory of the logs of a repository, where the platform writes `separator` between names.
pub fn logs_dir(root: &str, separator: char) -> (out: String)
    ensures
        out@ == paths::appended(root@, ".hotpath/logs"@, separator),
{
    paths::join_path(root, ".hotpath/logs", separator)
}

/// The name of a log that a process began at a moment.
pub open spec fn log_name(timestamp_unix_ms: nat, pid: nat) -> Seq<char> {
    "hotpath-"@ + numbers::zero_filled(numbers::decimal(timestamp_unix_ms), 13) + "-"@
        + numbers::decimal(pid) + ".jsonl"@
}

/// The name of a log that a process began at a moment.
pub fn log_file_name(timestamp_unix_ms: u128, pid: u32) -> (output: String)
    ensures
        output@ == log_name(timestamp_unix_ms as nat, pid as nat),
{
    let mut digits = String::new();
    numbers::push_wide_decimal(&mut digits, timestamp_unix_ms);
    assert(digits@ =~= numbers::decimal(timestamp_unix_ms as nat));
    let mut text = "hotpath-".to_string();
    let out = &mut text;
    numbers::push_zero_filled(out, digits.as_str(), 13);
    out.append("-");
    numbers::push_decimal(out, pid as u64);
    out.append(".jsonl");
    text
}

/// The names of logs sort by the moments at which they began, as long as these have no more than
/// thirteen digits.
pub proof fn later_logs_sort_later(first: nat, first_pid: nat, second: nat, second_pid: nat)
    requires
        first < second < 10000000000000,
    ensures
        text::text_lt(log_name(first, first_pid), log_name(second, second_pid)),
{
    reveal_with_fuel(numbers::ten_to, 14);
    assert(numbers::ten_to(13) == 10000000000000);
    numbers::zero_filled_is_last_digits(first, 13);
    numbers::zero_filled_is_last_digits(second, 13);
    let a = "-"@ + numbers::decimal(first_pid) + ".jsonl"@;
    let b = "-"@ + numbers::decimal(second_pid) + ".jsonl"@;
    numbers::last_digits_keep_the_order(first, second, 13, a, b);
    let prefix = "hotpath-"@;
    let x = numbers::last_digits(first, 13) + a;
    let y = numbers::last_digits(second, 13) + b;
    assert(log_name(first, first_pid) =~= prefix + x);
    assert(log_name(second, second_pid) =~= prefix + y);
    text::text_lt_skip_prefix(prefix + x, prefix + y, prefix.len() as int);
    assert((prefix + x).skip(prefix.len() as int) =~= x);
    assert((prefix + y).skip(prefix.len() as int) =~= y);
}

/// Whether a file is a log, by its name.
pub open spec fn is_log_name(name: Seq<char>) -> bool {
    text::begins_with(name, "hotpath-"@) && text::finishes_with(name, ".jsonl"@)
}

/// The name of a log is known as such.
pub proof fn log_names_are_log_names(timestamp_unix_ms: nat, pid: nat)
    ensures
        is_log_name(log_name(timestamp_unix_ms, pid)),
{
    let name = log_name(timestamp_unix_ms, pid);
    assert(name.take("hotpath-"@.len() as int) =~= "hotpath-"@);
    assert(name.skip(name.len() - ".jsonl"@.len()) =~= ".jsonl"@);
}

/// The name of a file.
pub struct LogName {
    pub name: String,
}

impl DeepView for LogName {
    type V = Seq<char>;

    open spec fn deep_view(&self) -> Seq<char> {
        self.name@
    }
}

impl Ordered for LogName {
    /// By name.
    open spec fn key(v: Seq<char>) -> Seq<KeyPart> {
        seq![KeyPart::Text(v)]
    }

    fn comes_before(&self, other: &Self) -> (r: bool) {
        proof {
            reveal_with_fuel(order::key_lt_from, 2);
        }
        text::precedes(self.name.as_str(), other.name.as_str())
    }
}

/// The logs among files, by name.
pub open spec fn logs_among(names: Seq<Seq<char>>) -> Seq<Seq<char>>
    decreases names.len(),
{
    if names.len() == 0 {
        Seq::empty()
    } else if is_log_name(names.last()) {
        logs_among(names.drop_last()).push(names.last())
    } else {
        logs_among(names.drop_last())
    }
}

/// The logs among files, in the order of their names.
pub open spec fn sorted_logs(names: Seq<Seq<char>>) -> Seq<Seq<char>> {
    order::sorted_by(logs_among(names), order::by_key::<LogName>())
}

/// So many of the logs go.
pub open spec fn surplus(logs: nat, retain: nat) -> nat {
    if logs > retain {
        (logs - retain) as nat
    } else {
        0
    }
}

/// The logs that go, so that no more than `retain` stay: the first by name.
pub open spec fn pruned(names: Seq<Seq<char>>, retain: nat) -> Seq<Seq<char>> {
    sorted_logs(names).take(surplus(sorted_logs(names).len(), retain) as int)
}

fn logs_of(names: &Vec<String>) -> (out: Vec<LogName>)
    ensures
        out.deep_view() == logs_among(names.deep_view()),
{
    let ghost all = names.deep_view();
    let mut out: Vec<LogName> = Vec::new();
    let mut i: usize = 0;
    assert(out.deep_view() =~= logs_among(all.take(0)));
    while i < names.len()
        invariant
            i <= names.len(),
            all == names.deep_view(),
            out.deep_view() == logs_among(all.take(i as int)),
        decreases names.len() - i,
    {
        let name = names[i].as_str();
        assert(all.take(i + 1).drop_last() =~= all.take(i as int));
        assert(all.take(i + 1).last() == name@);
        if text::starts_with(name, "hotpath-") && text::ends_with(name, ".jsonl") {
            let ghost before = out.deep_view();
            let one = LogName { name: name.to_string() };
            out.push(one);
            assert(out.deep_view() =~= before.push(one.deep_view()));
        }
        i = i + 1;
    }
    assert(all.take(i as int) =~= all);
    out
}

/// Which of the files in the directory of the logs go, so that no more than `retain` logs stay:
/// the first by name.
pub fn logs_to_remove(names: &Vec<String>, retain: usize) -> (out: Vec<String>)
    ensures
        out.deep_view() == pruned(names.deep_view(), retain as nat),
{
    let logs = order::sort(logs_of(names));
    let ghost all = logs.deep_view();
    let count: usize = if logs.len() > retain {
        logs.len() - retain
    } else {
        0
    };
    let mut out: Vec<String> = Vec::new();
    let mut i: usize = 0;
    assert(out.deep_view() =~= all.take(0));
    while i < count
        invariant
            i <= count,
            count <= logs.len(),
            all == logs.deep_view(),
            out.deep_view() == all.take(i as int),
        decreases count - i,
    {
        let ghost before = out.deep_view();
        let name = logs[i].name.clone();
        out.push(name);
        assert(out.deep_view() =~= before.push(name@));
        i = i + 1;
        assert(out.deep_view() =~= all.take(i as int));
    }
    out
}

/// No more than `retain` of the logs stay, and none of them comes before one that goes.
pub proof fn the_latest_logs_stay(names: Seq<Seq<char>>, retain: nat)
    ensures
        sorted_logs(names).to_multiset() == logs_among(names).to_multiset(),
        pruned(names, retain) == sorted_logs(names).take(pruned(names, retain).len() as int),
        sorted_logs(names).len() <= retain ==> pruned(names, retain).len() == 0,
        sorted_logs(names).len() > retain ==> sorted_logs(names).len() - pruned(
            names,
            retain,
        ).len() == retain,
        forall|i: int, j: int|
            0 <= i < j < sorted_logs(names).len() ==> !text::text_lt(
                #[trigger] sorted_logs(names)[j],
                #[trigger] sorted_logs(names)[i],
            ),
{
    let lt = order::by_key::<LogName>();
    order::by_key_is_strict_weak::<LogName>();
    order::sorted_by_permutes(logs_among(names), lt);
    order::sorted_by_is_sorted(logs_among(names), lt);
    reveal_with_fuel(order::key_lt_from, 2);
    assert forall|i: int, j: int|
        0 <= i < j < sorted_logs(names).len() implies !text::text_lt(
        #[trigger] sorted_logs(names)[j],
        #[trigger] sorted_logs(names)[i],
    ) by {
        let x = sorted_logs(names)[i];
        let y = sorted_logs(names)[j];
        assert(!lt(y, x));
        assert(LogName::key(y)[0] == KeyPart::Text(y));
        assert(LogName::key(x)[0] == KeyPart::Text(x));
        assert(order::key_lt(LogName::key(y), LogName::key(x)) == text::text_lt(y, x));
    }
}

/// How far a log has grown.
#[derive(Debug, Clone, Copy, PartialEq, Eq, Structural)]
pub struct LogBudget {
    pub bytes_written: u64,
    pub max_bytes: u64,
    pub truncated: bool,
}

/// What happens to an event.
#[derive(Debug, Clone, Copy, PartialEq, Eq, Structural)]
pub enum LogDecision {
    /// It is written.
    Write,
    /// It is not written, and a notice says so.
    Notice,
    /// It is not written.
    Skip,
}

impl LogBudget {
    /// The log is no longer than it may be.
    pub open spec fn wf(self) -> bool {
        self.bytes_written <= self.max_bytes
    }

    /// Whether so many more bytes fit.
    pub open spec fn fits(self, len: nat) -> bool {
        self.bytes_written + len <= self.max_bytes
    }

    /// What happens to an event of so many bytes.
    pub open spec fn decision(self, len: nat) -> LogDecision {
        if self.bytes_written < self.max_bytes && self.fits(len) {
            LogDecision::Write
        } else if self.truncated {
            LogDecision::Skip
        } else {
            LogDecision::Notice
        }
    }

    /// The budget once it is decided what happens to an event of so many bytes.
    pub open spec fn decided(self, len: nat) -> LogBudget {
        LogBudget { truncated: self.truncated || self.decision(len) == LogDecision::Notice, ..self }
    }

    /// The budget once so many bytes are written.
    pub open spec fn grown(self, len: nat) -> LogBudget {
        LogBudget { bytes_written: (self.bytes_written + len) as u64, ..self }
    }

    /// The budget of an empty log.
    pub fn new(max_bytes: u64) -> (out: LogBudget)
        ensures
            out == (LogBudget { bytes_written: 0, max_bytes, truncated: false }),
            out.wf(),
    {
        LogBudget { bytes_written: 0, max_bytes, truncated: false }
    }

    /// Whether so many more bytes fit.
    pub fn has_room(&self, len: u64) -> (r: bool)
        requires
            self.wf(),
        ensures
            r == self.fits(len as nat),
    {
        len <= self.max_bytes - self.bytes_written
    }

    /// Decides what happens to an event of so many bytes; a notice is due only once.
    pub fn admit_event(&mut self, len: u64) -> (decision: LogDecision)
        requires
            old(self).wf(),
        ensures
            decision == old(self).decision(len as nat),
            *final(self) == old(self).decided(len as nat),
            final(self).wf(),
    {
        if self.bytes_written < self.max_bytes && self.has_room(len) {
            LogDecision::Write
        } else if self.truncated {
            LogDecision::Skip
        } else {
            self.truncated = true;
            LogDecision::Notice
        }
    }

    /// Counts the bytes of an event or a notice that was written.
    pub fn record_written(&mut self, len: u64)
        requires
            old(self).fits(len as nat),
        ensures
            *final(self) == old(self).grown(len as nat),
            final(self).wf(),
    {
        self.bytes_written = self.bytes_written + len;
    }
}

/// The budget after an event of so many bytes, where a notice has so many.
pub open spec fn after_event(budget: LogBudget, len: nat, notice_len: nat) -> LogBudget {
    let decided = budget.decided(len);
    match budget.decision(len) {
        LogDecision::Write => decided.grown(len),
        LogDecision::Notice => if decided.fits(notice_len) {
            decided.grown(notice_len)
        } else {
            decided
        },
        LogDecision::Skip => decided,
    }
}

/// The budget after events, where a notice has so many bytes.
pub open spec fn after_events(budget: LogBudget, lens: Seq<nat>, notice_len: nat) -> LogBudget
    decreases lens.len(),
{
    if lens.len() == 0 {
        budget
    } else {
        after_event(after_events(budget, lens.drop_last(), notice_len), lens.last(), notice_len)
    }
}

/// Whatever events come, a log stays within its limit, does not shrink, and once a notice was due
/// none is due again.
pub proof fn logs_stay_within_their_limit(budget: LogBudget, lens: Seq<nat>, notice_len: nat)
    requires
        budget.wf(),
    ensures
        ({
            let after = after_events(budget, lens, notice_len);
            &&& after.wf()
            &&& after.max_bytes == budget.max_bytes
            &&& budget.bytes_written <= after.bytes_written
            &&& budget.truncated ==> after.truncated
            &&& forall|len: nat|
                after.truncated ==> #[trigger] after.decision(len) != LogDecision::Notice
        }),
    decreases lens.len(),
{
    if lens.len() > 0 {
        logs_stay_within_their_limit(budget, lens.drop_last(), notice_len);
    }
}

} // verus!
