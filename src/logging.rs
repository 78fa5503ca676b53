use vstd::prelude::*;
use crate::config::{char_is_whitespace, unicode_white_space};

verus! {

/// Where a log line comes from.
#[derive(Debug, Clone, Copy, PartialEq, Eq, Structural)]
pub enum LogType {
    Stdout,
    Stderr,
    System,
}

/// One line to be logged.
pub struct LogEntry {
    /// The local time, as `YYYY-MM-DD HH:MM:SS.mmm`.
    pub timestamp: String,
    pub process_name: String,
    pub log_type: LogType,
    pub content: String,
}

/// The pattern of the time stamp of log lines.
pub const TIMESTAMP_PATTERN: &'static str = "%Y-%m-%d %H:%M:%S%.3f";

/// Relies on chrono's `Local::now` and `DateTime::format`: the local time now,
/// written by `pattern`, a valid chrono pattern.
#[verifier::external_body]
fn local_time_text(pattern: &str) -> (r: String)
    requires
        pattern@ == TIMESTAMP_PATTERN@,
{
    chrono::Local::now().format(pattern).to_string()
}

impl LogEntry {
    /// An entry stamped with the local time now.
    pub fn now(process_name: &str, log_type: LogType, content: &str) -> (r: LogEntry)
        ensures
            r.process_name@ == process_name@,
            r.log_type == log_type,
            r.content@ == content@,
    {
        let timestamp = local_time_text(TIMESTAMP_PATTERN);
        LogEntry {
            timestamp,
            process_name: String::from_str(process_name),
            log_type,
            content: String::from_str(content),
        }
    }
}

/// The tag of a line: the process for its own output, `SYSTEM` for the
/// supervisor's notices.
pub open spec fn log_tag(t: LogType, process_name: Seq<char>) -> Seq<char> {
    match t {
        LogType::System => "SYSTEM"@,
        _ => process_name,
    }
}

/// `[<time>] [<tag>] <content>` and a line break.
pub open spec fn log_line(timestamp: Seq<char>, tag: Seq<char>, content: Seq<char>) -> Seq<char> {
    "["@ + timestamp + "] ["@ + tag + "] "@ + content + "\n"@
}

/// Turns entries into lines.
pub struct LogHandler {
    log_level: String,
}

impl LogHandler {
    pub closed spec fn level(&self) -> Seq<char> {
        self.log_level@
    }

    /// The level is kept for information: it filters nothing.
    pub fn new(log_level: &str) -> (r: LogHandler)
        ensures
            r.level() == log_level@,
    {
        LogHandler { log_level: String::from_str(log_level) }
    }

    pub fn log_level(&self) -> (r: &str)
        ensures
            r@ == self.level(),
    {
        self.log_level.as_str()
    }

    pub fn format_log_entry(&self, entry: &LogEntry) -> (r: String)
        ensures
            r@ == log_line(entry.timestamp@, log_tag(entry.log_type, entry.process_name@), entry.content@),
    {
        let tag = match entry.log_type {
            LogType::System => "SYSTEM",
            _ => entry.process_name.as_str(),
        };
        let r = String::from_str("[").concat(entry.timestamp.as_str()).concat("] [").concat(tag).concat(
            "] ",
        ).concat(entry.content.as_str()).concat("\n");
        r
    }

    /// The line for `content` from `process_name`, stamped with the local time now.
    pub fn line(&self, process_name: &str, log_type: LogType, content: &str) -> (r: String)
        ensures
            exists|t: Seq<char>| r@ == log_line(t, log_tag(log_type, process_name@), content@),
    {
        let entry = LogEntry::now(process_name, log_type, content);
        self.format_log_entry(&entry)
    }
}

/// `t` is `s` without the whitespace at either end.
pub open spec fn trim_of(s: Seq<char>, t: Seq<char>) -> bool {
    exists|a: int, b: int|
        0 <= a <= b <= s.len() && t == s.subrange(a, b)
            && (forall|i: int| 0 <= i < a ==> unicode_white_space(#[trigger] s[i]))
            && (forall|i: int| b <= i < s.len() ==> unicode_white_space(#[trigger] s[i]))
            && (a < b ==> !unicode_white_space(s[a]) && !unicode_white_space(s[b - 1]))
}

/// `s` without its whitespace at either end.
pub fn trim_text(s: &str) -> (r: String)
    ensures
        trim_of(s@, r@),
{
    let n = s.unicode_len();
    let mut a: usize = 0;
    while a < n && char_is_whitespace(s.get_char(a))
        invariant
            n == s@.len(),
            a <= n,
            forall|i: int| 0 <= i < a ==> unicode_white_space(#[trigger] s@[i]),
        decreases n - a,
    {
        a = a + 1;
    }
    let mut b: usize = n;
    while b > a && char_is_whitespace(s.get_char(b - 1))
        invariant
            n == s@.len(),
            a <= b <= n,
            a < n ==> !unicode_white_space(s@[a as int]),
            forall|i: int| b <= i < n ==> unicode_white_space(#[trigger] s@[i]),
        decreases b - a,
    {
        b = b - 1;
    }
    let r = String::from_str(s.substring_char(a, b));
    assert(trim_of(s@, r@)) by {
        if a < b {
            assert(!unicode_white_space(s@[a as int]));
        }
    }
    r
}

/// The text of a line read from a child's stream: the line terminator dropped,
/// none for an empty line, the rest without surrounding whitespace.
pub open spec fn stream_line_text(raw: Seq<char>, r: Option<String>) -> bool {
    let line = if raw.len() > 0 && raw.last() == '\n' {
        raw.drop_last()
    } else {
        raw
    };
    match r {
        None => line.len() == 0,
        Some(t) => line.len() > 0 && trim_of(line, t@),
    }
}

/// What a stream pump logs for a line read from a child: `None` for an empty
/// line.
pub fn stream_line(raw: &str) -> (r: Option<String>)
    ensures
        stream_line_text(raw@, r),
{
    let n = raw.unicode_len();
    let line = if n > 0 && raw.get_char(n - 1) == '\n' {
        raw.substring_char(0, n - 1)
    } else {
        raw
    };
    assert(n > 0 ==> raw@.drop_last() =~= raw@.subrange(0, n - 1));
    if line.unicode_len() == 0 {
        None
    } else {
        Some(trim_text(line))
    }
}

} // verus!
