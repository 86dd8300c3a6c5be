//! Character classes of the grammar, runs of characters drawn from a class,
//! and the numeric values of digit sequences.

use vstd::prelude::*;

verus! {

/// Decimal digit, `0` through `9`.
pub open spec fn is_digit(c: char) -> bool {
    '0' <= c && c <= '9'
}

/// Hexadecimal digit, upper or lower case.
pub open spec fn is_hex_digit(c: char) -> bool {
    ('0' <= c && c <= '9') || ('a' <= c && c <= 'f') || ('A' <= c && c <= 'F')
}

/// Space-class character skipped between grammar stages: space or tab.
pub open spec fn is_space(c: char) -> bool {
    c == ' ' || c == '\t'
}

/// ASCII alphanumeric character, the class an interface name is drawn from.
pub open spec fn is_alnum(c: char) -> bool {
    ('0' <= c && c <= '9') || ('a' <= c && c <= 'z') || ('A' <= c && c <= 'Z')
}

/// Numeric value of a decimal digit.
pub open spec fn digit_value(c: char) -> nat {
    (c as int - '0' as int) as nat
}

/// Numeric value of a hexadecimal digit.
pub open spec fn hex_digit_value(c: char) -> nat {
    if '0' <= c && c <= '9' {
        (c as int - '0' as int) as nat
    } else if 'a' <= c && c <= 'f' {
        (c as int - 'a' as int + 10) as nat
    } else {
        (c as int - 'A' as int + 10) as nat
    }
}

/// The decimal-digit class, as a value the run functions can take.
pub open spec fn digit_class() -> spec_fn(char) -> bool {
    |c: char| is_digit(c)
}

/// The hexadecimal-digit class.
pub open spec fn hex_class() -> spec_fn(char) -> bool {
    |c: char| is_hex_digit(c)
}

/// The space class.
pub open spec fn space_class() -> spec_fn(char) -> bool {
    |c: char| is_space(c)
}

/// The ASCII-alphanumeric class.
pub open spec fn alnum_class() -> spec_fn(char) -> bool {
    |c: char| is_alnum(c)
}

/// First index at or after `i` that falls outside the class `p`, taking
/// `s.len()` when the run reaches the end of the text.
pub open spec fn run_end(s: Seq<char>, i: int, p: spec_fn(char) -> bool) -> int
    decreases s.len() - i when 0 <= i <= s.len()
{
    if i < s.len() && p(s[i]) {
        run_end(s, i + 1, p)
    } else {
        i
    }
}

/// A run's end lies between its start and the end of the text, every
/// character of the run is in the class, and the character at the end
/// (if any) is not.
pub proof fn lemma_run_end_bounds(s: Seq<char>, i: int, p: spec_fn(char) -> bool)
    requires
        0 <= i <= s.len(),
    ensures
        i <= run_end(s, i, p) <= s.len(),
        forall|k: int| i <= k < run_end(s, i, p) ==> p(s[k]),
        run_end(s, i, p) < s.len() ==> !p(s[run_end(s, i, p)]),
    decreases s.len() - i,
{
    if i < s.len() && p(s[i]) {
        lemma_run_end_bounds(s, i + 1, p);
    }
}

/// The end of a run is the one position `j` with only class characters
/// before it (from `i`) and none at it.
pub proof fn lemma_run_end_is(s: Seq<char>, i: int, j: int, p: spec_fn(char) -> bool)
    requires
        0 <= i <= j <= s.len(),
        forall|k: int| i <= k < j ==> p(s[k]),
        j < s.len() ==> !p(s[j]),
    ensures
        run_end(s, i, p) == j,
    decreases j - i,
{
    if i < j {
        lemma_run_end_is(s, i + 1, j, p);
    }
}

/// Value of a decimal digit sequence, most significant digit first.
pub open spec fn dec_value(s: Seq<char>) -> nat
    decreases s.len()
{
    if s.len() == 0 {
        0
    } else {
        dec_value(s.drop_last()) * 10 + digit_value(s.last())
    }
}

/// Value of a hexadecimal digit sequence, most significant digit first.
pub open spec fn hex_value(s: Seq<char>) -> nat
    decreases s.len()
{
    if s.len() == 0 {
        0
    } else {
        hex_value(s.drop_last()) * 16 + hex_digit_value(s.last())
    }
}

/// Bytes encoded by a run of hexadecimal digits taken two at a time, most
/// significant nibble first; a trailing odd digit encodes nothing.
pub open spec fn byte_pairs(s: Seq<char>) -> Seq<u8> {
    Seq::new((s.len() / 2) as nat, |k: int| (hex_digit_value(s[2 * k]) * 16 + hex_digit_value(s[2 * k + 1])) as u8)
}

/// Upper-case hexadecimal digit for a nibble value.
pub open spec fn nibble_char(v: int) -> char {
    if v == 0 { '0' }
    else if v == 1 { '1' }
    else if v == 2 { '2' }
    else if v == 3 { '3' }
    else if v == 4 { '4' }
    else if v == 5 { '5' }
    else if v == 6 { '6' }
    else if v == 7 { '7' }
    else if v == 8 { '8' }
    else if v == 9 { '9' }
    else if v == 10 { 'A' }
    else if v == 11 { 'B' }
    else if v == 12 { 'C' }
    else if v == 13 { 'D' }
    else if v == 14 { 'E' }
    else { 'F' }
}

/// Upper-case hexadecimal encoding of a byte sequence, most significant
/// nibble of each byte first: the inverse direction of `byte_pairs`.
pub open spec fn hex_encoding(b: Seq<u8>) -> Seq<char> {
    Seq::new(2 * b.len(), |k: int| if k % 2 == 0 { nibble_char(b[k / 2] as int / 16) } else { nibble_char(b[k / 2] as int % 16) })
}

/// Decimal-digit test on one character.
pub fn check_digit(c: char) -> (b: bool)
    ensures
        b == is_digit(c),
{
    '0' <= c && c <= '9'
}

/// Hexadecimal-digit test on one character.
pub fn check_hex_digit(c: char) -> (b: bool)
    ensures
        b == is_hex_digit(c),
{
    ('0' <= c && c <= '9') || ('a' <= c && c <= 'f') || ('A' <= c && c <= 'F')
}

/// Space-class test on one character.
pub fn check_space(c: char) -> (b: bool)
    ensures
        b == is_space(c),
{
    c == ' ' || c == '\t'
}

/// ASCII-alphanumeric test on one character.
pub fn check_alnum(c: char) -> (b: bool)
    ensures
        b == is_alnum(c),
{
    ('0' <= c && c <= '9') || ('a' <= c && c <= 'z') || ('A' <= c && c <= 'Z')
}

/// Numeric value of a hexadecimal digit, as a machine integer.
pub fn hex_digit_of(c: char) -> (v: u8)
    requires
        is_hex_digit(c),
    ensures
        v == hex_digit_value(c),
        v < 16,
{
    if '0' <= c && c <= '9' {
        (c as u32 - '0' as u32) as u8
    } else if 'a' <= c && c <= 'f' {
        (c as u32 - 'a' as u32 + 10) as u8
    } else {
        (c as u32 - 'A' as u32 + 10) as u8
    }
}

/// End of the run of decimal digits starting at `i`.
pub fn scan_digits(s: &str, n: usize, i: usize) -> (j: usize)
    requires
        n == s@.len(),
        i <= n,
    ensures
        i <= j <= n,
        j == run_end(s@, i as int, digit_class()),
{
    let mut j = i;
    while j < n && check_digit(s.get_char(j))
        invariant
            i <= j <= n,
            n == s@.len(),
            run_end(s@, i as int, digit_class()) == run_end(s@, j as int, digit_class()),
        decreases n - j,
    {
        j += 1;
    }
    j
}

/// End of the run of hexadecimal digits starting at `i`.
pub fn scan_hex_digits(s: &str, n: usize, i: usize) -> (j: usize)
    requires
        n == s@.len(),
        i <= n,
    ensures
        i <= j <= n,
        j == run_end(s@, i as int, hex_class()),
{
    let mut j = i;
    while j < n && check_hex_digit(s.get_char(j))
        invariant
            i <= j <= n,
            n == s@.len(),
            run_end(s@, i as int, hex_class()) == run_end(s@, j as int, hex_class()),
        decreases n - j,
    {
        j += 1;
    }
    j
}

/// End of the run of space-class characters starting at `i`.
pub fn scan_spaces(s: &str, n: usize, i: usize) -> (j: usize)
    requires
        n == s@.len(),
        i <= n,
    ensures
        i <= j <= n,
        j == run_end(s@, i as int, space_class()),
{
    let mut j = i;
    while j < n && check_space(s.get_char(j))
        invariant
            i <= j <= n,
            n == s@.len(),
            run_end(s@, i as int, space_class()) == run_end(s@, j as int, space_class()),
        decreases n - j,
    {
        j += 1;
    }
    j
}

/// End of the run of ASCII-alphanumeric characters starting at `i`.
pub fn scan_alnum(s: &str, n: usize, i: usize) -> (j: usize)
    requires
        n == s@.len(),
        i <= n,
    ensures
        i <= j <= n,
        j == run_end(s@, i as int, alnum_class()),
{
    let mut j = i;
    while j < n && check_alnum(s.get_char(j))
        invariant
            i <= j <= n,
            n == s@.len(),
            run_end(s@, i as int, alnum_class()) == run_end(s@, j as int, alnum_class()),
        decreases n - j,
    {
        j += 1;
    }
    j
}

} // verus!
