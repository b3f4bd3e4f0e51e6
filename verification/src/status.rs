//! The log of what a validation found.

use vstd::prelude::*;

verus! {

/// The time stamp cannot be decoded, or lacks something that it has to hold.
pub const TIMESTAMP_MALFORMED: &'static str = "timeStamp.malformed";

/// The time stamp does not belong to the data that it came with.
pub const TIMESTAMP_MISMATCH: &'static str = "timeStamp.mismatch";

/// The time stamp was signed outside of the validity period of its certificate.
pub const TIMESTAMP_OUTSIDE_VALIDITY: &'static str = "timeStamp.outsideValidity";

/// The certificate behind the time stamp is trusted.
pub const TIMESTAMP_TRUSTED: &'static str = "timeStamp.trusted";

/// The time stamp, or the certificate behind it, is not trusted.
pub const TIMESTAMP_UNTRUSTED: &'static str = "timeStamp.untrusted";

/// The signature and the message imprint of the time stamp were checked.
pub const TIMESTAMP_VALIDATED: &'static str = "timeStamp.validated";

/// What a log entry reports.
#[derive(Clone, Copy, Debug, PartialEq, Eq, Structural)]
pub enum LogKind {
    Success,
    Informational,
    Failure,
}

/// One entry of the log.
#[derive(Debug, PartialEq, Eq)]
pub struct LogItem {
    /// What the entry reports.
    pub kind: LogKind,
    /// The item that the entry speaks of; empty where it is the time stamp itself.
    pub label: String,
    /// A description for human readers.
    pub description: String,
    /// The function that wrote the entry.
    pub function: String,
    /// The status code of the entry, if it has one.
    pub validation_status: Option<String>,
}

/// A [`LogItem`] with its texts as sequences of characters.
pub struct LogItemView {
    pub kind: LogKind,
    pub label: Seq<char>,
    pub description: Seq<char>,
    pub function: Seq<char>,
    pub validation_status: Option<Seq<char>>,
}

impl View for LogItem {
    type V = LogItemView;

    open spec fn view(&self) -> LogItemView {
        LogItemView {
            kind: self.kind,
            label: self.label@,
            description: self.description@,
            function: self.function@,
            validation_status: self.validation_status.deep_view(),
        }
    }
}

impl DeepView for LogItem {
    type V = LogItemView;

    open spec fn deep_view(&self) -> LogItemView {
        self@
    }
}

/// An entry that `verify_time_stamp` writes.
pub open spec fn log_entry(kind: LogKind, description: Seq<char>, status: Seq<char>) -> LogItemView {
    LogItemView {
        kind,
        label: Seq::empty(),
        description,
        function: "verify_time_stamp"@,
        validation_status: Some(status),
    }
}

/// An entry of `verify_time_stamp` that reports a finding.
pub open spec fn finding(description: Seq<char>, status: Seq<char>) -> LogItemView {
    log_entry(LogKind::Informational, description, status)
}

/// An entry of `verify_time_stamp` that reports a success.
pub open spec fn achievement(description: Seq<char>, status: Seq<char>) -> LogItemView {
    log_entry(LogKind::Success, description, status)
}

/// Some entry of the log carries the status code.
pub open spec fn log_has_status(log: Seq<LogItemView>, code: Seq<char>) -> bool {
    exists|i: int| 0 <= i < log.len() && #[trigger] log[i].validation_status == Some(code)
}

impl LogItem {
    /// An entry of `verify_time_stamp` that reports a finding.
    pub fn informational(description: &str, status: &str) -> (item: LogItem)
        ensures
            item@ == finding(description@, status@),
    {
        LogItem {
            kind: LogKind::Informational,
            label: String::new(),
            description: description.to_string(),
            function: "verify_time_stamp".to_string(),
            validation_status: Some(status.to_string()),
        }
    }

    /// An entry of `verify_time_stamp` that reports a success.
    pub fn success(description: &str, status: &str) -> (item: LogItem)
        ensures
            item@ == achievement(description@, status@),
    {
        LogItem {
            kind: LogKind::Success,
            label: String::new(),
            description: description.to_string(),
            function: "verify_time_stamp".to_string(),
            validation_status: Some(status.to_string()),
        }
    }
}

/// A text that may be missing, copied.
fn copy_text(text: &Option<String>) -> (copy: Option<String>)
    ensures
        copy.deep_view() == text.deep_view(),
{
    match text {
        Some(text) => Some(text.clone()),
        None => None,
    }
}

impl LogItem {
    /// Copies an entry.
    pub fn copy(&self) -> (copy: LogItem)
        ensures
            copy@ == self@,
    {
        LogItem {
            kind: self.kind,
            label: self.label.clone(),
            description: self.description.clone(),
            function: self.function.clone(),
            validation_status: copy_text(&self.validation_status),
        }
    }
}

/// The log of a validation, oldest entry first.
#[derive(Debug, PartialEq, Eq)]
pub struct StatusTracker {
    pub logged_items: Vec<LogItem>,
}

impl View for StatusTracker {
    type V = Seq<LogItemView>;

    open spec fn view(&self) -> Seq<LogItemView> {
        self.logged_items.deep_view()
    }
}

impl Default for StatusTracker {
    fn default() -> (tracker: StatusTracker)
        ensures
            tracker@ == Seq::<LogItemView>::empty(),
    {
        let tracker: StatusTracker = StatusTracker { logged_items: Vec::new() };
        assert(tracker@ =~= Seq::empty());
        tracker
    }
}

impl StatusTracker {
    /// Adds an entry to the end of the log.
    pub fn add_item(&mut self, item: LogItem)
        ensures
            final(self)@ == old(self)@.push(item@),
    {
        self.logged_items.push(item);
        assert(self@ =~= old(self)@.push(item@));
    }

    /// Moves the given entries to the end of the log.
    pub fn append(&mut self, items: Vec<LogItem>)
        ensures
            final(self)@ == old(self)@ + items.deep_view(),
    {
        let mut items: Vec<LogItem> = items;
        let ghost added: Seq<LogItem> = items@;
        self.logged_items.append(&mut items);
        assert(self@ =~= old(self)@ + added.map_values(|item: LogItem| item@));
    }

    /// Tells whether some entry of the log carries the status code.
    pub fn has_status(&self, code: &str) -> (found: bool)
        ensures
            found == log_has_status(self@, code@),
    {
        let wanted: String = code.to_string();
        let mut i: usize = 0;
        while i < self.logged_items.len()
            invariant
                i <= self.logged_items@.len(),
                wanted@ == code@,
                forall|j: int| 0 <= j < i ==> (#[trigger] self@[j]).validation_status != Some(code@),
            decreases self.logged_items@.len() - i,
        {
            if let Some(status) = &self.logged_items[i].validation_status {
                if *status == wanted {
                    assert(self@[i as int].validation_status == Some(code@));
                    return true;
                }
            }
            i = i + 1;
        }
        false
    }
}

/// Two logs, one after the other, carry the codes of both.
pub proof fn joined_logs_carry_both_codes(
    first: Seq<LogItemView>,
    second: Seq<LogItemView>,
    code: Seq<char>,
)
    ensures
        log_has_status(first + second, code) <==> log_has_status(first, code)
            || log_has_status(second, code),
{
    let both: Seq<LogItemView> = first + second;
    if log_has_status(first, code) {
        let i: int = choose|i: int|
            0 <= i < first.len() && #[trigger] first[i].validation_status == Some(code);
        assert(both[i].validation_status == Some(code));
    }
    if log_has_status(second, code) {
        let i: int = choose|i: int|
            0 <= i < second.len() && #[trigger] second[i].validation_status == Some(code);
        assert(both[first.len() + i].validation_status == Some(code));
    }
    if log_has_status(both, code) {
        let i: int = choose|i: int|
            0 <= i < both.len() && #[trigger] both[i].validation_status == Some(code);
        if i < first.len() {
            assert(first[i].validation_status == Some(code));
        } else {
            assert(second[i - first.len()].validation_status == Some(code));
        }
    }
}

/// The entries that a log has beyond those that it had before.
pub open spec fn added_entries(before: Seq<LogItemView>, after: Seq<LogItemView>) -> Seq<
    LogItemView,
> {
    after.skip(before.len() as int)
}

/// How many entries of the log carry the status code.
pub open spec fn count_status(log: Seq<LogItemView>, code: Seq<char>) -> nat
    decreases log.len(),
{
    if log.len() == 0 {
        0
    } else if log.last().validation_status == Some(code) {
        count_status(log.drop_last(), code) + 1
    } else {
        count_status(log.drop_last(), code)
    }
}

/// A log carries a code exactly when some of its entries do.
pub proof fn carried_codes_are_counted(log: Seq<LogItemView>, code: Seq<char>)
    ensures
        log_has_status(log, code) <==> count_status(log, code) > 0,
    decreases log.len(),
{
    if log.len() > 0 {
        let shorter: Seq<LogItemView> = log.drop_last();
        carried_codes_are_counted(shorter, code);
        joined_logs_carry_both_codes(shorter, seq![log.last()], code);
        assert(shorter + seq![log.last()] =~= log);
        assert(seq![log.last()][0] == log.last());
    }
}

/// Two logs, one after the other, have as many entries with a code as both together.
pub proof fn joined_logs_count_both(
    first: Seq<LogItemView>,
    second: Seq<LogItemView>,
    code: Seq<char>,
)
    ensures
        count_status(first + second, code) == count_status(first, code) + count_status(
            second,
            code,
        ),
    decreases second.len(),
{
    if second.len() == 0 {
        assert(first + second =~= first);
    } else {
        joined_logs_count_both(first, second.drop_last(), code);
        assert((first + second).drop_last() =~= first + second.drop_last());
        assert((first + second).last() == second.last());
    }
}

} // verus!
