//! Parser for candump-format log lines: a timestamp, an interface name and a
//! CAN frame (classic or flexible-data-rate), parsed from one line of text.
//!
//! The grammar is a fixed left-to-right sequence of stages with one branch
//! point (the `##` / `#` separator). Parsing is all-or-nothing: on failure a
//! typed error reports the stage and the position of the unconsumed input;
//! on success the text after the frame is handed back unconsumed.

pub mod grammar;
pub mod laws;
pub mod parse;
pub mod scan;
pub mod types;

pub use parse::dump_entry;
pub use types::CanFrame;
pub use types::ErrorKind;
pub use types::LogEntry;
pub use types::ParseError;
pub use types::Stage;
pub use types::Timestamp;
