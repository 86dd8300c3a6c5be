//! The executable parser. Each function consumes from a character
//! position of the line and is proved to agree with the grammar stage it
//! implements.

use vstd::prelude::*;
use crate::grammar::spec_data;
use crate::grammar::spec_entry;
use crate::grammar::spec_frame;
use crate::grammar::spec_timestamp;
use crate::scan::byte_pairs;
use crate::scan::check_hex_digit;
use crate::scan::dec_value;
use crate::scan::digit_class;
use crate::scan::digit_value;
use crate::scan::hex_class;
use crate::scan::hex_digit_of;
use crate::scan::hex_value;
use crate::scan::lemma_run_end_bounds;
use crate::scan::run_end;
use crate::scan::scan_alnum;
use crate::scan::scan_digits;
use crate::scan::scan_hex_digits;
use crate::scan::scan_spaces;
use crate::types::CanFrame;
use crate::types::CanFrameModel;
use crate::types::ErrorKind;
use crate::types::FailModel;
use crate::types::LogEntry;
use crate::types::LogEntryModel;
use crate::types::ParseError;
use crate::types::Stage;
use crate::types::Timestamp;

verus! {

/// A digit run and every prefix of it: dropping digits from the right
/// never increases the value.
proof fn lemma_dec_value_prefix(s: Seq<char>, k: int)
    requires
        0 <= k <= s.len(),
    ensures
        dec_value(s.take(k)) <= dec_value(s),
    decreases s.len() - k,
{
    if k < s.len() {
        lemma_dec_value_prefix(s.drop_last(), k);
        assert(s.drop_last().take(k) =~= s.take(k));
    } else {
        assert(s.take(k) =~= s);
    }
}

/// The hexadecimal counterpart of `lemma_dec_value_prefix`.
proof fn lemma_hex_value_prefix(s: Seq<char>, k: int)
    requires
        0 <= k <= s.len(),
    ensures
        hex_value(s.take(k)) <= hex_value(s),
    decreases s.len() - k,
{
    if k < s.len() {
        lemma_hex_value_prefix(s.drop_last(), k);
        assert(s.drop_last().take(k) =~= s.take(k));
    } else {
        assert(s.take(k) =~= s);
    }
}

/// Why a run of digits starting at `i` failed to produce a number.
enum NumErr {
    Empty,
    Overflow,
}

/// Reads the decimal run starting at `i` as a 64-bit number.
fn parse_dec_u64(s: &str, n: usize, i: usize) -> (r: Result<(usize, u64), NumErr>)
    requires
        n == s@.len(),
        i <= n,
    ensures
        ({
            let j = run_end(s@, i as int, digit_class());
            match r {
                Ok((j2, v)) => j2 == j && i < j && v == dec_value(s@.subrange(i as int, j)),
                Err(NumErr::Empty) => j == i,
                Err(NumErr::Overflow) => i < j && dec_value(s@.subrange(i as int, j)) > u64::MAX,
            }
        }),
{
    let ghost jg = run_end(s@, i as int, digit_class());
    proof {
        lemma_run_end_bounds(s@, i as int, digit_class());
    }
    let j = scan_digits(s, n, i);
    if j == i {
        return Err(NumErr::Empty);
    }
    let mut k = i;
    let mut acc: u64 = 0;
    while k < j
        invariant
            i <= k <= j <= n,
            n == s@.len(),
            j == jg,
            jg == run_end(s@, i as int, digit_class()),
            forall|t: int| i <= t < jg ==> digit_class()(s@[t]),
            acc == dec_value(s@.subrange(i as int, k as int)),
        decreases j - k,
    {
        let c = s.get_char(k);
        assert(digit_class()(c));
        let d = (c as u32 - '0' as u32) as u64;
        assert(d == digit_value(c) && d <= 9);
        proof {
            assert(s@.subrange(i as int, k + 1).drop_last() =~= s@.subrange(i as int, k as int));
            assert(s@.subrange(i as int, k + 1).last() == c);
            assert(dec_value(s@.subrange(i as int, k + 1)) == acc * 10 + d);
        }
        if acc > u64::MAX / 10 || (acc == u64::MAX / 10 && d > u64::MAX % 10) {
            proof {
                assert(acc * 10 + d > u64::MAX) by (nonlinear_arith)
                    requires
                        d <= 9,
                        acc > u64::MAX / 10 || (acc == u64::MAX / 10 && d > u64::MAX % 10),
                ;
                lemma_dec_value_prefix(s@.subrange(i as int, jg), k + 1 - i);
                assert(s@.subrange(i as int, jg).take(k + 1 - i) =~= s@.subrange(i as int, k + 1));
            }
            return Err(NumErr::Overflow);
        }
        proof {
            assert(acc * 10 + d <= u64::MAX) by (nonlinear_arith)
                requires
                    d <= 9,
                    !(acc > u64::MAX / 10 || (acc == u64::MAX / 10 && d > u64::MAX % 10)),
            ;
        }
        acc = acc * 10 + d;
        k = k + 1;
    }
    Ok((j, acc))
}

/// Reads the hexadecimal run starting at `i` as a 32-bit number.
fn parse_hex_u32(s: &str, n: usize, i: usize) -> (r: Result<(usize, u32), NumErr>)
    requires
        n == s@.len(),
        i <= n,
    ensures
        ({
            let j = run_end(s@, i as int, hex_class());
            match r {
                Ok((j2, v)) => j2 == j && i < j && v == hex_value(s@.subrange(i as int, j)),
                Err(NumErr::Empty) => j == i,
                Err(NumErr::Overflow) => i < j && hex_value(s@.subrange(i as int, j)) > u32::MAX,
            }
        }),
{
    let ghost jg = run_end(s@, i as int, hex_class());
    proof {
        lemma_run_end_bounds(s@, i as int, hex_class());
    }
    let j = scan_hex_digits(s, n, i);
    if j == i {
        return Err(NumErr::Empty);
    }
    let mut k = i;
    let mut acc: u32 = 0;
    while k < j
        invariant
            i <= k <= j <= n,
            n == s@.len(),
            j == jg,
            jg == run_end(s@, i as int, hex_class()),
            forall|t: int| i <= t < jg ==> hex_class()(s@[t]),
            acc == hex_value(s@.subrange(i as int, k as int)),
        decreases j - k,
    {
        let c = s.get_char(k);
        assert(hex_class()(c));
        let d = hex_digit_of(c) as u32;
        proof {
            assert(s@.subrange(i as int, k + 1).drop_last() =~= s@.subrange(i as int, k as int));
            assert(s@.subrange(i as int, k + 1).last() == c);
            assert(hex_value(s@.subrange(i as int, k + 1)) == acc * 16 + d);
        }
        if acc > u32::MAX / 16 {
            proof {
                assert(acc * 16 + d > u32::MAX) by (nonlinear_arith)
                    requires
                        acc > u32::MAX / 16,
                ;
                lemma_hex_value_prefix(s@.subrange(i as int, jg), k + 1 - i);
                assert(s@.subrange(i as int, jg).take(k + 1 - i) =~= s@.subrange(i as int, k + 1));
            }
            return Err(NumErr::Overflow);
        }
        proof {
            assert(acc * 16 + d <= u32::MAX) by (nonlinear_arith)
                requires
                    d < 16,
                    acc <= u32::MAX / 16,
            ;
        }
        acc = acc * 16 + d;
        k = k + 1;
    }
    Ok((j, acc))
}

/// Parses the timestamp stage starting at `i`, in agreement with
/// `spec_timestamp`.
pub fn parse_timestamp(s: &str, n: usize, i: usize) -> (r: Result<(usize, Timestamp), ParseError>)
    requires
        n == s@.len(),
        i <= n,
    ensures
        match r {
            Ok((j, t)) => j <= n && spec_timestamp(s@, i as int) == Ok::<(int, Timestamp), FailModel>(((j as int), t)),
            Err(e) => spec_timestamp(s@, i as int) == Err::<(int, Timestamp), FailModel>(e@),
        },
{
    if !(i < n && s.get_char(i) == '(') {
        return Err(ParseError { kind: ErrorKind::SyntaxError, stage: Stage::Timestamp, at: i });
    }
    match parse_dec_u64(s, n, i + 1) {
        Err(NumErr::Empty) => Err(ParseError { kind: ErrorKind::SyntaxError, stage: Stage::Timestamp, at: i + 1 }),
        Err(NumErr::Overflow) => Err(ParseError { kind: ErrorKind::NumericOverflow, stage: Stage::Timestamp, at: i + 1 }),
        Ok((j1, seconds)) => {
            if !(j1 < n && s.get_char(j1) == '.') {
                return Err(ParseError { kind: ErrorKind::SyntaxError, stage: Stage::Timestamp, at: j1 });
            }
            match parse_dec_u64(s, n, j1 + 1) {
                Err(NumErr::Empty) => Err(ParseError { kind: ErrorKind::SyntaxError, stage: Stage::Timestamp, at: j1 + 1 }),
                Err(NumErr::Overflow) => Err(ParseError { kind: ErrorKind::NumericOverflow, stage: Stage::Timestamp, at: j1 + 1 }),
                Ok((j2, micros)) => {
                    if !(j2 < n && s.get_char(j2) == ')') {
                        return Err(ParseError { kind: ErrorKind::SyntaxError, stage: Stage::Timestamp, at: j2 });
                    }
                    Ok((j2 + 1, Timestamp { seconds, micros }))
                },
            }
        },
    }
}

/// Parses the data stage starting at `i`, in agreement with `spec_data`.
pub fn parse_data(s: &str, n: usize, i: usize) -> (r: Result<(usize, Vec<u8>), ParseError>)
    requires
        n == s@.len(),
        i <= n,
    ensures
        match r {
            Ok((m, data)) => m <= n && spec_data(s@, i as int) == Ok::<(int, Seq<u8>), FailModel>(((m as int), data@)),
            Err(e) => spec_data(s@, i as int) == Err::<(int, Seq<u8>), FailModel>(e@),
        },
{
    proof {
        lemma_run_end_bounds(s@, i as int, hex_class());
    }
    let m = scan_hex_digits(s, n, i);
    if m == i {
        return Err(ParseError { kind: ErrorKind::SyntaxError, stage: Stage::Data, at: i });
    }
    if (m - i) % 2 != 0 {
        return Err(ParseError { kind: ErrorKind::OddHexLength, stage: Stage::Data, at: i });
    }
    let mut data: Vec<u8> = Vec::new();
    let mut k = i;
    while k < m
        invariant
            i <= k <= m <= n,
            n == s@.len(),
            (k - i) % 2 == 0,
            (m - i) % 2 == 0,
            m == run_end(s@, i as int, hex_class()),
            forall|t: int| i <= t < m ==> hex_class()(s@[t]),
            data@ == byte_pairs(s@.subrange(i as int, k as int)),
        decreases m - k,
    {
        let c1 = s.get_char(k);
        let c2 = s.get_char(k + 1);
        let b = hex_digit_of(c1) * 16 + hex_digit_of(c2);
        data.push(b);
        proof {
            assert(byte_pairs(s@.subrange(i as int, k + 2)) =~= byte_pairs(
                s@.subrange(i as int, k as int),
            ).push(b));
        }
        k = k + 2;
    }
    Ok((m, data))
}

/// Parses the frame stage starting at `i`, in agreement with
/// `spec_frame`.
pub fn parse_frame(s: &str, n: usize, i: usize) -> (r: Result<(usize, CanFrame), ParseError>)
    requires
        n == s@.len(),
        i <= n,
    ensures
        match r {
            Ok((m, f)) => m <= n && spec_frame(s@, i as int) == Ok::<(int, CanFrameModel), FailModel>(((m as int), f@)),
            Err(e) => spec_frame(s@, i as int) == Err::<(int, CanFrameModel), FailModel>(e@),
        },
{
    match parse_hex_u32(s, n, i) {
        Err(NumErr::Empty) => Err(ParseError { kind: ErrorKind::SyntaxError, stage: Stage::CanId, at: i }),
        Err(NumErr::Overflow) => Err(ParseError { kind: ErrorKind::NumericOverflow, stage: Stage::CanId, at: i }),
        Ok((j, can_id)) => {
            let fd_double = j < n && s.get_char(j) == '#' && j + 1 < n && s.get_char(j + 1) == '#';
            if fd_double {
                let k = j + 2;
                if !(k < n) {
                    return Err(ParseError { kind: ErrorKind::SyntaxError, stage: Stage::FdFlags, at: k });
                }
                let cf = s.get_char(k);
                if !check_hex_digit(cf) {
                    return Err(ParseError { kind: ErrorKind::SyntaxError, stage: Stage::FdFlags, at: k });
                }
                let fd_flags = hex_digit_of(cf);
                match parse_data(s, n, k + 1) {
                    Err(e) => Err(e),
                    Ok((m, data)) => Ok((m, CanFrame { can_id, data, is_fd: true, fd_flags })),
                }
            } else if j < n && s.get_char(j) == '#' {
                let k = j + 1;
                match parse_data(s, n, k) {
                    Err(e) => Err(e),
                    Ok((m, data)) => Ok((m, CanFrame { can_id, data, is_fd: false, fd_flags: 0 })),
                }
            } else {
                Err(ParseError { kind: ErrorKind::SyntaxError, stage: Stage::Separator, at: j })
            }
        },
    }
}

/// Parses one candump line. On success, hands back the entry together
/// with the text after the frame's data field, unconsumed; on failure,
/// the typed error of the stage that failed. Either way the result is
/// exactly what the grammar (`spec_entry`) assigns to the line.
pub fn dump_entry(input: &str) -> (r: Result<(&str, LogEntry), ParseError>)
    ensures
        match r {
            Ok((rest, entry)) => spec_entry(input@) matches Ok((c, m)) && entry@ == m && rest@
                == input@.subrange(c, input@.len() as int),
            Err(e) => spec_entry(input@) == Err::<(int, LogEntryModel), FailModel>(e@),
        },
{
    let n = input.unicode_len();
    match parse_timestamp(input, n, 0) {
        Err(e) => Err(e),
        Ok((i1, timestamp)) => {
            let i2 = scan_spaces(input, n, i1);
            let j = scan_alnum(input, n, i2);
            if j == i2 {
                return Err(ParseError { kind: ErrorKind::SyntaxError, stage: Stage::Interface, at: i2 });
            }
            let interface = input.substring_char(i2, j).to_owned();
            let i3 = scan_spaces(input, n, j);
            match parse_frame(input, n, i3) {
                Err(e) => Err(e),
                Ok((i4, frame)) => {
                    let rest = input.substring_char(i4, n);
                    Ok((rest, LogEntry::new(timestamp, interface, frame)))
                },
            }
        },
    }
}

} // verus!
