//! Properties of the grammar that hold of every input, stated and proved
//! once for all callers.

use vstd::prelude::*;
use crate::grammar::spec_data;
use crate::grammar::spec_separator;
use crate::grammar::spec_timestamp;
use crate::scan::byte_pairs;
use crate::scan::dec_value;
use crate::scan::digit_class;
use crate::scan::hex_class;
use crate::scan::hex_digit_value;
use crate::scan::hex_encoding;
use crate::scan::is_digit;
use crate::scan::is_hex_digit;
use crate::scan::lemma_run_end_is;
use crate::scan::nibble_char;
use crate::scan::run_end;
use crate::types::ErrorKind;
use crate::types::FailModel;
use crate::types::Stage;
use crate::types::Timestamp;

verus! {

/// For every pair of non-empty digit runs whose values fit 64 bits, the
/// timestamp stage on `(S.M)` yields exactly those two values and
/// consumes no more than the closing parenthesis, whatever text follows.
pub proof fn lemma_timestamp_exact(ds: Seq<char>, ms: Seq<char>, rest: Seq<char>)
    requires
        ds.len() > 0,
        ms.len() > 0,
        forall|k: int| 0 <= k < ds.len() ==> is_digit(ds[k]),
        forall|k: int| 0 <= k < ms.len() ==> is_digit(ms[k]),
        dec_value(ds) <= u64::MAX,
        dec_value(ms) <= u64::MAX,
    ensures
        ({
            let s = seq!['('] + ds + seq!['.'] + ms + seq![')'] + rest;
            spec_timestamp(s, 0) == Ok::<(int, Timestamp), FailModel>((ds.len() + ms.len() + 3 as int,
            Timestamp { seconds: dec_value(ds) as u64, micros: dec_value(ms) as u64 }))
        }),
{
    let s = seq!['('] + ds + seq!['.'] + ms + seq![')'] + rest;
    let j1 = 1 + ds.len() as int;
    let j2 = j1 + 1 + ms.len() as int;
    assert(s[0] == '(');
    assert(s[j1] == '.');
    assert(s[j2] == ')');
    assert forall|k: int| 1 <= k < j1 implies digit_class()(s[k]) by {
        assert(s[k] == ds[k - 1]);
    }
    assert(!digit_class()(s[j1]));
    lemma_run_end_is(s, 1, j1, digit_class());
    assert forall|k: int| j1 + 1 <= k < j2 implies digit_class()(s[k]) by {
        assert(s[k] == ms[k - j1 - 1]);
    }
    assert(!digit_class()(s[j2]));
    lemma_run_end_is(s, j1 + 1, j2, digit_class());
    assert(s.subrange(1, j1) =~= ds);
    assert(s.subrange(j1 + 1, j2) =~= ms);
}

/// Every nibble value names one hexadecimal digit, and reading that
/// digit back gives the value.
pub proof fn lemma_nibble_char_value(v: int)
    requires
        0 <= v < 16,
    ensures
        is_hex_digit(nibble_char(v)),
        hex_digit_value(nibble_char(v)) == v,
{
}

/// A hexadecimal digit's value is a nibble.
pub proof fn lemma_hex_digit_value_bound(c: char)
    requires
        is_hex_digit(c),
    ensures
        hex_digit_value(c) < 16,
{
}

/// Decoding an even run of hexadecimal digits round-trips: encoding the
/// bytes again gives a run of the same length whose digits carry the
/// same values, digit for digit — case is the one thing not kept.
pub proof fn lemma_data_round_trip(s: Seq<char>)
    requires
        s.len() % 2 == 0,
        forall|k: int| 0 <= k < s.len() ==> is_hex_digit(s[k]),
    ensures
        hex_encoding(byte_pairs(s)).len() == s.len(),
        forall|k: int| 0 <= k < s.len() ==> is_hex_digit(#[trigger] hex_encoding(byte_pairs(s))[k])
            && hex_digit_value(hex_encoding(byte_pairs(s))[k]) == hex_digit_value(s[k]),
{
    let b = byte_pairs(s);
    let e = hex_encoding(b);
    assert forall|k: int| 0 <= k < s.len() implies is_hex_digit(e[k]) && hex_digit_value(e[k])
        == hex_digit_value(s[k]) by {
        let p = 2 * (k / 2);
        let hi = hex_digit_value(s[p]);
        let lo = hex_digit_value(s[p + 1]);
        lemma_hex_digit_value_bound(s[p]);
        lemma_hex_digit_value_bound(s[p + 1]);
        assert(b[k / 2] == (hi * 16 + lo) as u8);
        assert(b[k / 2] / 16 == hi && b[k / 2] % 16 == lo) by (nonlinear_arith)
            requires
                hi < 16,
                lo < 16,
                b[k / 2] == (hi * 16 + lo) as u8,
        ;
        if k % 2 == 0 {
            lemma_nibble_char_value(hi as int);
        } else {
            lemma_nibble_char_value(lo as int);
        }
    }
}

/// An odd run of hexadecimal digits in the data field always fails with
/// the odd-length kind; it is never silently truncated to whole bytes.
pub proof fn lemma_odd_data_rejected(s: Seq<char>, i: int)
    requires
        0 <= i <= s.len(),
        run_end(s, i, hex_class()) > i,
        (run_end(s, i, hex_class()) - i) % 2 != 0,
    ensures
        spec_data(s, i) == Err::<(int, Seq<u8>), FailModel>(FailModel {
            kind: ErrorKind::OddHexLength,
            stage: Stage::Data,
            at: i,
        }),
{
}

/// Wherever two `#` characters stand, the separator matcher takes both
/// and marks the frame flexible-data-rate; the single-`#` alternative is
/// never preferred.
pub proof fn lemma_separator_prefers_double(s: Seq<char>, i: int)
    requires
        0 <= i,
        i + 1 < s.len(),
        s[i] == '#',
        s[i + 1] == '#',
    ensures
        spec_separator(s, i) == Some((i + 2, true)),
{
}

} // verus!

