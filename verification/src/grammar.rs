//! The grammar, as a function: each stage maps the text and a start
//! position to the position after what it consumed and the value it
//! denotes, or to the failure it raises. The stages run strictly left to
//! right; the one branch point is the separator, where two `#` characters
//! are preferred over one.

use vstd::prelude::*;
use crate::scan::alnum_class;
use crate::scan::byte_pairs;
use crate::scan::dec_value;
use crate::scan::digit_class;
use crate::scan::hex_class;
use crate::scan::hex_digit_value;
use crate::scan::hex_value;
use crate::scan::is_hex_digit;
use crate::scan::run_end;
use crate::scan::space_class;
use crate::types::CanFrameModel;
use crate::types::ErrorKind;
use crate::types::FailModel;
use crate::types::LogEntryModel;
use crate::types::Stage;
use crate::types::Timestamp;

verus! {

/// Timestamp stage: literal `(`, a non-empty decimal run for the seconds,
/// literal `.`, a non-empty decimal run for the microseconds, literal `)`.
/// A run whose value exceeds the 64-bit range is an overflow failure.
pub open spec fn spec_timestamp(s: Seq<char>, i: int) -> Result<(int, Timestamp), FailModel> {
    if !(i < s.len() && s[i] == '(') {
        Err(FailModel { kind: ErrorKind::SyntaxError, stage: Stage::Timestamp, at: i })
    } else {
        let j1 = run_end(s, i + 1, digit_class());
        if j1 == i + 1 {
            Err(FailModel { kind: ErrorKind::SyntaxError, stage: Stage::Timestamp, at: i + 1 })
        } else if dec_value(s.subrange(i + 1, j1)) > u64::MAX {
            Err(FailModel { kind: ErrorKind::NumericOverflow, stage: Stage::Timestamp, at: i + 1 })
        } else if !(j1 < s.len() && s[j1] == '.') {
            Err(FailModel { kind: ErrorKind::SyntaxError, stage: Stage::Timestamp, at: j1 })
        } else {
            let j2 = run_end(s, j1 + 1, digit_class());
            if j2 == j1 + 1 {
                Err(FailModel { kind: ErrorKind::SyntaxError, stage: Stage::Timestamp, at: j1 + 1 })
            } else if dec_value(s.subrange(j1 + 1, j2)) > u64::MAX {
                Err(FailModel { kind: ErrorKind::NumericOverflow, stage: Stage::Timestamp, at: j1 + 1 })
            } else if !(j2 < s.len() && s[j2] == ')') {
                Err(FailModel { kind: ErrorKind::SyntaxError, stage: Stage::Timestamp, at: j2 })
            } else {
                Ok((j2 + 1, Timestamp {
                    seconds: dec_value(s.subrange(i + 1, j1)) as u64,
                    micros: dec_value(s.subrange(j1 + 1, j2)) as u64,
                }))
            }
        }
    }
}

/// Separator stage: two `#` characters make the frame flexible-data-rate,
/// a single `#` makes it classic, and the double form is tried first.
/// `None` when neither alternative matches.
pub open spec fn spec_separator(s: Seq<char>, i: int) -> Option<(int, bool)> {
    if i + 1 < s.len() && s[i] == '#' && s[i + 1] == '#' {
        Some((i + 2, true))
    } else if i < s.len() && s[i] == '#' {
        Some((i + 1, false))
    } else {
        None
    }
}

/// Data stage: a non-empty run of hexadecimal digits, decoded two digits
/// to a byte. An odd run cannot be paired into whole bytes and fails;
/// nothing is truncated.
pub open spec fn spec_data(s: Seq<char>, i: int) -> Result<(int, Seq<u8>), FailModel> {
    let m = run_end(s, i, hex_class());
    if m == i {
        Err(FailModel { kind: ErrorKind::SyntaxError, stage: Stage::Data, at: i })
    } else if (m - i) % 2 != 0 {
        Err(FailModel { kind: ErrorKind::OddHexLength, stage: Stage::Data, at: i })
    } else {
        Ok((m, byte_pairs(s.subrange(i, m))))
    }
}

/// Frame stage: the identifier as a non-empty hexadecimal run within the
/// 32-bit range, the separator, on a flexible-data-rate frame exactly one
/// hexadecimal flags digit, then the data field.
pub open spec fn spec_frame(s: Seq<char>, i: int) -> Result<(int, CanFrameModel), FailModel> {
    let j = run_end(s, i, hex_class());
    if j == i {
        Err(FailModel { kind: ErrorKind::SyntaxError, stage: Stage::CanId, at: i })
    } else if hex_value(s.subrange(i, j)) > u32::MAX {
        Err(FailModel { kind: ErrorKind::NumericOverflow, stage: Stage::CanId, at: i })
    } else {
        match spec_separator(s, j) {
            None => Err(FailModel { kind: ErrorKind::SyntaxError, stage: Stage::Separator, at: j }),
            Some((k, is_fd)) => {
                if is_fd {
                    if !(k < s.len() && is_hex_digit(s[k])) {
                        Err(FailModel { kind: ErrorKind::SyntaxError, stage: Stage::FdFlags, at: k })
                    } else {
                        match spec_data(s, k + 1) {
                            Err(f) => Err(f),
                            Ok((m, data)) => Ok((m, CanFrameModel {
                                can_id: hex_value(s.subrange(i, j)) as u32,
                                data,
                                is_fd: true,
                                fd_flags: hex_digit_value(s[k]) as u8,
                            })),
                        }
                    }
                } else {
                    match spec_data(s, k) {
                        Err(f) => Err(f),
                        Ok((m, data)) => Ok((m, CanFrameModel {
                            can_id: hex_value(s.subrange(i, j)) as u32,
                            data,
                            is_fd: false,
                            fd_flags: 0,
                        })),
                    }
                }
            },
        }
    }
}

/// The whole line: the timestamp, optional spaces, a non-empty
/// alphanumeric interface name, optional spaces, then the frame. The
/// position returned with the entry is where consumption stopped; any
/// text from there on is not part of the entry.
pub open spec fn spec_entry(s: Seq<char>) -> Result<(int, LogEntryModel), FailModel> {
    match spec_timestamp(s, 0) {
        Err(f) => Err(f),
        Ok((i1, timestamp)) => {
            let i2 = run_end(s, i1, space_class());
            let j = run_end(s, i2, alnum_class());
            if j == i2 {
                Err(FailModel { kind: ErrorKind::SyntaxError, stage: Stage::Interface, at: i2 })
            } else {
                let i3 = run_end(s, j, space_class());
                match spec_frame(s, i3) {
                    Err(f) => Err(f),
                    Ok((i4, frame)) => Ok((i4, LogEntryModel {
                        timestamp,
                        interface: s.subrange(i2, j),
                        frame,
                    })),
                }
            }
        },
    }
}

} // verus!
