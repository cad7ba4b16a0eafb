//! A structured, in-memory event log.  Each call records one leveled
//! entry; the surrounding process decides how entries are emitted (to a
//! tracing backend, to stderr, or not at all).

use vstd::prelude::*;

verus! {

/// Severity of a log entry.
#[derive(Clone, Copy, Debug, PartialEq, Eq, Structural)]
pub enum LogLevel {
    Info,
    Error,
    Warn,
    Debug,
    Trace,
}

/// One recorded log entry.
#[derive(Clone, Debug, PartialEq, Eq)]
pub struct LogEntry {
    pub level: LogLevel,
    pub message: String,
}

/// Collects leveled log entries in order of arrival.  The view of a
/// logger is the sequence of `(level, message)` pairs recorded so far.
#[derive(Debug)]
pub struct Logger {
    pub entries: Vec<LogEntry>,
}

impl View for Logger {
    type V = Seq<(LogLevel, Seq<char>)>;

    open spec fn view(&self) -> Seq<(LogLevel, Seq<char>)> {
        self.entries@.map(|i: int, e: LogEntry| (e.level, e.message@))
    }
}

impl Default for Logger {
    /// An empty logger.
    fn default() -> (l: Logger)
        ensures
            l.entries@.len() == 0,
    {
        Logger::new()
    }
}

impl Logger {
    /// A logger with no recorded entries.
    pub fn new() -> (l: Logger)
        ensures
            l@ =~= Seq::<(LogLevel, Seq<char>)>::empty(),
            l.entries@.len() == 0,
    {
        Logger { entries: Vec::new() }
    }

    /// Records `message` at the given level.
    pub fn record(&mut self, level: LogLevel, message: &str)
        ensures
            final(self)@ == old(self)@.push((level, message@)),
    {
        let entry = LogEntry { level, message: message.to_owned() };
        self.entries.push(entry);
        proof {
            assert(self@ =~= old(self)@.push((level, message@)));
        }
    }

    /// Records an informational entry.
    pub fn info(&mut self, message: &str)
        ensures
            final(self)@ == old(self)@.push((LogLevel::Info, message@)),
    {
        self.record(LogLevel::Info, message);
    }

    /// Records an error entry.
    pub fn error(&mut self, message: &str)
        ensures
            final(self)@ == old(self)@.push((LogLevel::Error, message@)),
    {
        self.record(LogLevel::Error, message);
    }

    /// Records a warning entry.
    pub fn warn(&mut self, message: &str)
        ensures
            final(self)@ == old(self)@.push((LogLevel::Warn, message@)),
    {
        self.record(LogLevel::Warn, message);
    }

    /// Records a debug entry.
    pub fn debug(&mut self, message: &str)
        ensures
            final(self)@ == old(self)@.push((LogLevel::Debug, message@)),
    {
        self.record(LogLevel::Debug, message);
    }

    /// Records a trace entry.
    pub fn trace(&mut self, message: &str)
        ensures
            final(self)@ == old(self)@.push((LogLevel::Trace, message@)),
    {
        self.record(LogLevel::Trace, message);
    }
}

} // verus!
