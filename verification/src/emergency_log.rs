//! The emergency log: every entry of a session is kept in a buffer and appended, one JSON line
//! each, to the session's journal file, from which a session can be recovered.
//!
//! Writing and reading the files, and the JSON of an entry, are the program's part: this module
//! keeps the buffer, names the session and its file, and cuts a journal into its lines.
use vstd::prelude::*;
use crate::opencode_connector::path_from;
use crate::text::{chars_of, push_str, string_of, lines_of, vec_lines};

verus! {

/// Where and how the log is kept.
#[derive(Debug)]
pub struct EmergencyLogConfig {
    pub log_dir: std::path::PathBuf,
    pub max_buffer_size: usize,
    pub flush_interval_secs: u64,
    pub max_file_size_mb: u64,
    pub enable_compression: bool,
    pub retention_days: u32,
}

impl Default for EmergencyLogConfig {
    /// `./logs/emergency`, a buffer of 1000, flushed every five seconds, files up to 100 MB,
    /// compressed, kept 90 days.
    fn default() -> (r: Self)
        ensures
            r.max_buffer_size == 1000 && r.flush_interval_secs == 5 && r.max_file_size_mb == 100 && r.enable_compression
                && r.retention_days == 90,
    {
        EmergencyLogConfig {
            log_dir: path_from("./logs/emergency"),
            max_buffer_size: 1000,
            flush_interval_secs: 5,
            max_file_size_mb: 100,
            enable_compression: true,
            retention_days: 90,
        }
    }
}

/// What an entry records.
#[derive(Debug, Clone, Copy, PartialEq, Eq, Structural)]
pub enum LogEntryType {
    UserInput,
    AssistantResponse,
    SystemEvent,
    Error,
    ToolCall,
    ToolResult,
}

/// An entry of the log.
#[derive(Debug)]
pub struct LogEntry {
    /// Unix milliseconds.
    pub timestamp: i64,
    pub session_id: String,
    pub entry_type: LogEntryType,
    pub content: String,
    pub metadata: serde_json::Value,
}

/// The abstract value of an entry (its metadata is carried as it is).
pub struct EntryView {
    pub timestamp: i64,
    pub session_id: Seq<char>,
    pub entry_type: LogEntryType,
    pub content: Seq<char>,
}

pub open spec fn entry_view(e: LogEntry) -> EntryView {
    EntryView { timestamp: e.timestamp, session_id: e.session_id@, entry_type: e.entry_type, content: e.content@ }
}

/// The buffer of a session's entries.
pub struct EmergencyLogger {
    config: EmergencyLogConfig,
    buffer: Vec<LogEntry>,
    current_session: String,
}

/// The abstract state: the session's name and the buffered entries, oldest first.
pub struct LoggerView {
    pub session: Seq<char>,
    pub buffer: Seq<EntryView>,
}

impl View for EmergencyLogger {
    type V = LoggerView;

    closed spec fn view(&self) -> LoggerView {
        LoggerView {
            session: self.current_session@,
            buffer: Seq::new(self.buffer@.len(), |i: int| entry_view(self.buffer@[i])),
        }
    }
}

/// The name of a session started at `stamp` (its UTC time written `YYYYmmdd_HHMMSS`).
pub open spec fn session_name(stamp: Seq<char>) -> Seq<char> {
    "session_"@ + stamp
}

/// The name of a session's journal file.
pub open spec fn journal_name(session: Seq<char>) -> Seq<char> {
    session + ".jsonl"@
}

/// The name of the journal file of session `session_id`.
pub fn journal_file_name(session_id: &str) -> (r: String)
    ensures
        r@ == journal_name(session_id@),
{
    let mut v: Vec<char> = Vec::new();
    push_str(&mut v, session_id);
    push_str(&mut v, ".jsonl");
    string_of(&v)
}

/// The lines of a journal, each holding one entry written as JSON (`str::lines`).
pub fn journal_lines(content: &str) -> (r: Vec<String>)
    ensures
        crate::text::strings_view(r@) == lines_of(content@),
{
    let cs = chars_of(content);
    let lines = vec_lines(&cs);
    let n = lines.len();
    let mut out: Vec<String> = Vec::new();
    let mut i: usize = 0;
    while i < n
        invariant
            i <= n,
            n == lines@.len(),
            n == lines_of(cs@).len(),
            forall|k: int| 0 <= k < n ==> (#[trigger] lines@[k])@ == lines_of(cs@)[k],
            out@.len() == i,
            forall|k: int| 0 <= k < i ==> (#[trigger] out@[k])@ == lines_of(cs@)[k],
        decreases n - i,
    {
        out.push(string_of(&lines[i]));
        i = i + 1;
    }
    assert(crate::text::strings_view(out@) =~= lines_of(content@));
    out
}

impl EmergencyLogger {
    /// A logger for the session started at `stamp`, with an empty buffer.
    pub fn new(config: EmergencyLogConfig, stamp: &str) -> (r: Self)
        ensures
            r@.session == session_name(stamp@),
            r@.buffer.len() == 0,
    {
        let mut v: Vec<char> = Vec::new();
        push_str(&mut v, "session_");
        push_str(&mut v, stamp);
        let r = EmergencyLogger { config, buffer: Vec::new(), current_session: string_of(&v) };
        assert(r@.buffer =~= seq![]);
        r
    }

    /// The name of the current session.
    pub fn session_id(&self) -> (r: &str)
        ensures
            r@ == self@.session,
    {
        self.current_session.as_str()
    }

    /// Logs an entry at `now`: it is buffered, and a copy is handed back to be written to the
    /// journal.
    pub fn log(&mut self, entry_type: LogEntryType, content: String, metadata: serde_json::Value, now: i64) -> (r: LogEntry)
        ensures
            entry_view(r) == (EntryView { timestamp: now, session_id: old(self)@.session, entry_type, content: content@ }),
            final(self)@ == (LoggerView { buffer: old(self)@.buffer.push(entry_view(r)), ..old(self)@ }),
    {
        let entry = LogEntry {
            timestamp: now,
            session_id: self.current_session.clone(),
            entry_type,
            content: content.clone(),
            metadata: crate::mcp_server::clone_value(&metadata),
        };
        let copy = LogEntry { timestamp: now, session_id: self.current_session.clone(), entry_type, content, metadata };
        let ghost e = entry_view(entry);
        self.buffer.push(entry);
        assert(self@.buffer =~= old(self)@.buffer.push(e));
        copy
    }

    /// How many entries are buffered.
    pub fn buffered(&self) -> (r: usize)
        ensures
            r == self@.buffer.len(),
    {
        self.buffer.len()
    }

    /// Empties the buffer.
    pub fn flush(&mut self) -> (r: Result<(), String>)
        ensures
            r is Ok,
            final(self)@ == (LoggerView { buffer: seq![], ..old(self)@ }),
    {
        self.buffer = Vec::new();
        assert(self@.buffer =~= seq![]);
        Ok(())
    }
}

} // verus!
