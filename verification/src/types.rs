//! The parsed records — timestamp, frame and log entry — and the typed
//! parse failure.

use vstd::prelude::*;

verus! {

/// Capture time of a logged frame: whole seconds since an epoch plus
/// sub-second microseconds, both read from decimal digit runs.
#[derive(Debug, PartialEq, Eq, Clone, Copy)]
pub struct Timestamp {
    pub seconds: u64,
    pub micros: u64,
}

/// One CAN frame: identifier, payload bytes, and whether the frame is
/// flexible-data-rate, with its flags nibble (`0` on a classic frame).
#[derive(Debug, PartialEq, Eq)]
pub struct CanFrame {
    pub can_id: u32,
    pub data: Vec<u8>,
    pub is_fd: bool,
    pub fd_flags: u8,
}

/// Mathematical model of a `CanFrame`: the payload as a sequence of bytes.
pub struct CanFrameModel {
    pub can_id: u32,
    pub data: Seq<u8>,
    pub is_fd: bool,
    pub fd_flags: u8,
}

impl View for CanFrame {
    type V = CanFrameModel;

    open spec fn view(&self) -> CanFrameModel {
        CanFrameModel { can_id: self.can_id, data: self.data@, is_fd: self.is_fd, fd_flags: self.fd_flags }
    }
}

/// One parsed log line: capture time, interface name and frame.
#[derive(Debug, PartialEq, Eq)]
pub struct LogEntry {
    timestamp: Timestamp,
    interface: String,
    frame: CanFrame,
}

/// Mathematical model of a `LogEntry`: the interface name as a sequence
/// of characters.
pub struct LogEntryModel {
    pub timestamp: Timestamp,
    pub interface: Seq<char>,
    pub frame: CanFrameModel,
}

impl View for LogEntry {
    type V = LogEntryModel;

    closed spec fn view(&self) -> LogEntryModel {
        LogEntryModel { timestamp: self.timestamp, interface: self.interface@, frame: self.frame@ }
    }
}

impl LogEntry {
    /// Builds an entry from its three parts.
    pub fn new(timestamp: Timestamp, interface: String, frame: CanFrame) -> (e: LogEntry)
        ensures
            e@ == (LogEntryModel { timestamp, interface: interface@, frame: frame@ }),
    {
        LogEntry { timestamp, interface, frame }
    }

    /// Capture time of the entry.
    pub fn timestamp(&self) -> (t: &Timestamp)
        ensures
            *t == self@.timestamp,
    {
        &self.timestamp
    }

    /// Name of the interface the frame was captured on.
    pub fn interface(&self) -> (r: &str)
        ensures
            r@ == self@.interface,
    {
        self.interface.as_str()
    }

    /// The frame itself.
    pub fn frame(&self) -> (f: &CanFrame)
        ensures
            f@ == self@.frame,
    {
        &self.frame
    }
}

/// What went wrong: a mandated literal or character class was not found,
/// a digit run exceeded its integer width, or the data field could not be
/// paired into whole bytes.
#[derive(Debug, PartialEq, Eq, Clone, Copy)]
pub enum ErrorKind {
    SyntaxError,
    NumericOverflow,
    OddHexLength,
}

/// The grammar stage that failed.
#[derive(Debug, PartialEq, Eq, Clone, Copy)]
pub enum Stage {
    Timestamp,
    Interface,
    CanId,
    Separator,
    FdFlags,
    Data,
}

/// A parse failure: its kind, the stage it arose in, and the character
/// position of the unconsumed input at the failure point.
#[derive(Debug, PartialEq, Eq, Clone, Copy)]
pub struct ParseError {
    pub kind: ErrorKind,
    pub stage: Stage,
    pub at: usize,
}

/// Model of a failure, with the position as a mathematical integer.
pub struct FailModel {
    pub kind: ErrorKind,
    pub stage: Stage,
    pub at: int,
}

impl View for ParseError {
    type V = FailModel;

    open spec fn view(&self) -> FailModel {
        FailModel { kind: self.kind, stage: self.stage, at: self.at as int }
    }
}

} // verus!
