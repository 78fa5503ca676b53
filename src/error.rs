use vstd::prelude::*;
use crate::logging::{LogEntry, LogHandler, LogType};

verus! {

/// Errors reported by the supervisor. Each carries the text shown to the operator.
#[derive(Debug)]
pub enum JanusError {
    Io(String),
    Config(String),
    Process(String),
    Signal(String),
    Command(String),
}

pub type Result<T> = core::result::Result<T, JanusError>;

/// Outcome classes used when a managed process needs attention.
#[derive(Debug, Clone, Copy, PartialEq, Eq, Structural)]
pub enum ErrorType {
    StartFailed,
    AbnormalExit,
    RestartLimited,
    ConfigInvalid,
}

pub open spec fn error_type_label(t: ErrorType) -> Seq<char> {
    match t {
        ErrorType::StartFailed => "START_FAILED"@,
        ErrorType::AbnormalExit => "ABNORMAL_EXIT"@,
        ErrorType::RestartLimited => "RESTART_LIMITED"@,
        ErrorType::ConfigInvalid => "CONFIG_INVALID"@,
    }
}

/// The tag under which an error type is logged.
pub fn error_type_to_string(error_type: &ErrorType) -> (r: &'static str)
    ensures
        r@ == error_type_label(*error_type),
{
    match error_type {
        ErrorType::StartFailed => "START_FAILED",
        ErrorType::AbnormalExit => "ABNORMAL_EXIT",
        ErrorType::RestartLimited => "RESTART_LIMITED",
        ErrorType::ConfigInvalid => "CONFIG_INVALID",
    }
}

/// How an exit code is classified: an exit without error is still an exit that
/// nobody asked for, every other code is a crash.
pub open spec fn classify_exit(exit_code: i32) -> ErrorType {
    if exit_code == 0 {
        ErrorType::AbnormalExit
    } else {
        ErrorType::StartFailed
    }
}

pub fn classify_error(exit_code: i32) -> (r: ErrorType)
    ensures
        r == classify_exit(exit_code),
{
    if exit_code == 0 {
        ErrorType::AbnormalExit
    } else {
        ErrorType::StartFailed
    }
}

pub open spec fn error_prefix(e: JanusError) -> Seq<char> {
    match e {
        JanusError::Io(_) => "IO error: "@,
        JanusError::Config(_) => "Configuration error: "@,
        JanusError::Process(_) => "Process error: "@,
        JanusError::Signal(_) => "Signal handling error: "@,
        JanusError::Command(_) => "Command error: "@,
    }
}

pub open spec fn error_detail(e: JanusError) -> Seq<char> {
    match e {
        JanusError::Io(s) => s@,
        JanusError::Config(s) => s@,
        JanusError::Process(s) => s@,
        JanusError::Signal(s) => s@,
        JanusError::Command(s) => s@,
    }
}

impl JanusError {
    /// The detail of this error, without its kind.
    pub fn detail(&self) -> (r: &str)
        ensures
            r@ == error_detail(*self),
    {
        match self {
            JanusError::Io(s) => s.as_str(),
            JanusError::Config(s) => s.as_str(),
            JanusError::Process(s) => s.as_str(),
            JanusError::Signal(s) => s.as_str(),
            JanusError::Command(s) => s.as_str(),
        }
    }

    /// The message shown for this error: its kind, then its detail.
    pub fn message(&self) -> (r: String)
        ensures
            r@ == error_prefix(*self) + error_detail(*self),
    {
        let (prefix, detail) = match self {
            JanusError::Io(s) => ("IO error: ", s),
            JanusError::Config(s) => ("Configuration error: ", s),
            JanusError::Process(s) => ("Process error: ", s),
            JanusError::Signal(s) => ("Signal handling error: ", s),
            JanusError::Command(s) => ("Command error: ", s),
        };
        let r = String::from_str(prefix);
        r.concat(detail.as_str())
    }
}

/// `[<type>] <process>: <message>`
pub open spec fn error_text(process_name: Seq<char>, t: ErrorType, message: Seq<char>) -> Seq<char> {
    "["@ + error_type_label(t) + "] "@ + process_name + ": "@ + message
}

/// Turns the troubles of managed processes into supervisor log entries.
pub struct ErrorHandler {
    log_handler: LogHandler,
}

impl ErrorHandler {
    pub closed spec fn logger(&self) -> LogHandler {
        self.log_handler
    }

    pub fn new(log_handler: LogHandler) -> (r: ErrorHandler)
        ensures
            r.logger() == log_handler,
    {
        ErrorHandler { log_handler }
    }

    pub fn log_handler(&self) -> (r: &LogHandler)
        ensures
            *r == self.logger(),
    {
        &self.log_handler
    }

    /// The supervisor's entry reporting `message` about `process_name`.
    pub fn handle_error(&self, process_name: &str, error_type: ErrorType, message: &str) -> (r: LogEntry)
        ensures
            r.process_name@ == process_name@,
            r.log_type == LogType::System,
            r.content@ == error_text(process_name@, error_type, message@),
    {
        let text = String::from_str("[").concat(error_type_to_string(&error_type)).concat("] ").concat(
            process_name,
        ).concat(": ").concat(message);
        LogEntry::now(process_name, LogType::System, text.as_str())
    }

    pub fn classify_error(&self, exit_code: i32) -> (r: ErrorType)
        ensures
            r == classify_exit(exit_code),
    {
        classify_error(exit_code)
    }
}

} // verus!
