//! Verified parsers for the datetime and offset string formats found in
//! media metadata.
//!
//! Each parser's behaviour is pinned by a spec-level grammar over the
//! character sequence of its input: a parser returns a value exactly when
//! the input matches its grammar, and the value is a direct function of the
//! digits in the string.  Malformed input yields `None`, never a panic.
//!
//! The accepted formats are strict: every numeric field is fixed-width and
//! zero-padded, as in `2024:01:01 10:30:00`, `2024-05-05T10:00:00Z` or
//! `+02:00`.

use crate::civil::{civil_of_seconds, civil_from_seconds, lemma_seconds_bounds, CivilDateTime};
use vstd::prelude::*;

verus! {

/// An ASCII decimal digit.
pub open spec fn is_digit(c: char) -> bool {
    '0' <= c && c <= '9'
}

/// The numeric value of an ASCII digit.
pub open spec fn digit_value(c: char) -> int {
    c as int - '0' as int
}

/// Every character of `s` in `[from, to)` is a digit.
pub open spec fn all_digits(s: Seq<char>, from: int, to: int) -> bool {
    forall|i: int| from <= i < to ==> is_digit(s[i])
}

/// The value of the decimal digits of `s` in `[from, to)`.
pub open spec fn digits_value(s: Seq<char>, from: int, to: int) -> int
    decreases to - from,
{
    if to <= from {
        0
    } else {
        digits_value(s, from, to - 1) * 10 + digit_value(s[to - 1])
    }
}

pub open spec fn pow10(e: int) -> int
    decreases e,
{
    if e <= 0 {
        1
    } else {
        10 * pow10(e - 1)
    }
}

/// Number of decimal digits of a nonnegative integer.
pub open spec fn digit_count(n: int) -> int
    decreases n,
{
    if n <= 9 {
        1
    } else {
        1 + digit_count(n / 10)
    }
}

pub proof fn lemma_pow10_mono(a: int, b: int)
    requires
        0 <= a <= b,
    ensures
        1 <= pow10(a) <= pow10(b),
    decreases b - a,
{
    if a < b {
        lemma_pow10_mono(a, b - 1);
    } else {
        lemma_pow10_pos(a);
    }
}

pub proof fn lemma_pow10_pos(a: int)
    ensures
        pow10(a) >= 1,
    decreases a,
{
    if a > 0 {
        lemma_pow10_pos(a - 1);
    }
}

/// A digit run of width `w` has a value below `pow10(w)`.
pub proof fn lemma_digits_value_bound(s: Seq<char>, from: int, to: int)
    requires
        from <= to,
        all_digits(s, from, to),
    ensures
        0 <= digits_value(s, from, to) < pow10(to - from),
    decreases to - from,
{
    if from < to {
        lemma_digits_value_bound(s, from, to - 1);
    }
}

/// An `n` with `d` digits satisfies `pow10(d-1) <= n < pow10(d)`.
pub proof fn lemma_digit_count_bound(n: int)
    requires
        n >= 0,
    ensures
        1 <= digit_count(n),
        n < pow10(digit_count(n)),
    decreases n,
{
    if n <= 9 {
        reveal_with_fuel(pow10, 2);
    } else {
        lemma_digit_count_bound(n / 10);
        assert(n < 10 * pow10(digit_count(n / 10))) by (nonlinear_arith)
            requires
                n > 9,
                n / 10 < pow10(digit_count(n / 10)),
        ;
    }
}

/// The 19-character core `YYYY.MM.DD HH:MM:SS` with date separator `sep`.
pub open spec fn datetime_shape(s: Seq<char>, sep: char) -> bool {
    &&& s.len() >= 19
    &&& all_digits(s, 0, 4)
    &&& s[4] == sep
    &&& all_digits(s, 5, 7)
    &&& s[7] == sep
    &&& all_digits(s, 8, 10)
    &&& s[10] == ' '
    &&& all_digits(s, 11, 13)
    &&& s[13] == ':'
    &&& all_digits(s, 14, 16)
    &&& s[16] == ':'
    &&& all_digits(s, 17, 19)
}

/// The field values of a 19-character datetime core, with the given
/// nanosecond count.
pub open spec fn datetime_fields(s: Seq<char>, nanos: int) -> CivilDateTime {
    CivilDateTime {
        year: digits_value(s, 0, 4) as i32,
        month: digits_value(s, 5, 7) as u8,
        day: digits_value(s, 8, 10) as u8,
        hour: digits_value(s, 11, 13) as u8,
        minute: digits_value(s, 14, 16) as u8,
        second: digits_value(s, 17, 19) as u8,
        nanosecond: nanos as u32,
    }
}

/// Index of the first non-digit character at or after `from`.
pub open spec fn digits_end(s: Seq<char>, from: int) -> int
    decreases s.len() - from,
{
    if 0 <= from < s.len() && is_digit(s[from]) {
        digits_end(s, from + 1)
    } else {
        from
    }
}

/// Nanoseconds denoted by the digit run `[from, to)` read as a decimal
/// fraction of a second: the first nine digits count, left-aligned; later
/// digits are ignored.
pub open spec fn frac_nanos(s: Seq<char>, from: int, to: int) -> int {
    let end = if to - from >= 9 {
        from + 9
    } else {
        to
    };
    digits_value(s, from, end) * pow10(9 - (end - from))
}

/// A sign character of a UTC offset.  The Unicode minus sign is accepted
/// alongside the ASCII hyphen-minus.
pub open spec fn is_sign(c: char) -> bool {
    c == '+' || c == '-' || c == '\u{2212}'
}

pub open spec fn is_minus(c: char) -> bool {
    c == '-' || c == '\u{2212}'
}

/// The offset denoted by sign and two-digit hour and minute fields: minutes
/// at most 59 and a total magnitude below one day, else nothing.
pub open spec fn offset_of_fields(neg: bool, hh: int, mm: int) -> Option<i32> {
    if mm <= 59 && hh * 3600 + mm * 60 < 86400 {
        if neg {
            Some((-(hh * 3600 + mm * 60)) as i32)
        } else {
            Some((hh * 3600 + mm * 60) as i32)
        }
    } else {
        None
    }
}

/// The UTC offset written at `[from, s.len())`: `Z` (when allowed), or a
/// sign and `HH:MM`, or (when the colon is optional) a sign and `HHMM`.
pub open spec fn offset_tail_spec(s: Seq<char>, from: int, colon_required: bool, allow_z: bool) -> Option<i32> {
    if allow_z && s.len() == from + 1 && (s[from] == 'Z' || s[from] == 'z') {
        Some(0)
    } else if s.len() == from + 6 && is_sign(s[from]) && all_digits(s, from + 1, from + 3) && s[from
        + 3] == ':' && all_digits(s, from + 4, from + 6) {
        offset_of_fields(
            is_minus(s[from]),
            digits_value(s, from + 1, from + 3),
            digits_value(s, from + 4, from + 6),
        )
    } else if !colon_required && s.len() == from + 5 && is_sign(s[from]) && all_digits(
        s,
        from + 1,
        from + 5,
    ) {
        offset_of_fields(
            is_minus(s[from]),
            digits_value(s, from + 1, from + 3),
            digits_value(s, from + 3, from + 5),
        )
    } else {
        None
    }
}

/// Grammar of [`parse_naive`]: a 19-character datetime core with `:` or `-`
/// as the date separator, optionally followed by a dot and fractional-second
/// digits running to the end of the string; the fields must denote a real
/// date and time.  The flag records whether a nonzero fraction was present.
pub open spec fn naive_datetime_spec(s: Seq<char>) -> Option<(CivilDateTime, bool)> {
    if datetime_shape(s, ':') || datetime_shape(s, '-') {
        if s.len() == 19 {
            let dt = datetime_fields(s, 0);
            if dt.wf() {
                Some((dt, false))
            } else {
                None
            }
        } else if s.len() >= 21 && s[19] == '.' && all_digits(s, 20, s.len() as int) {
            let n = frac_nanos(s, 20, s.len() as int);
            let dt = datetime_fields(s, n);
            if dt.wf() {
                Some((dt, n != 0))
            } else {
                None
            }
        } else {
            None
        }
    } else {
        None
    }
}

/// Grammar of [`parse_offset_string`]: the literal `Z`, or a sign with
/// two-digit hours and minutes separated by an optional colon; hours above
/// 14 and minutes above 59 are rejected.
pub open spec fn offset_string_spec(s: Seq<char>) -> Option<i32> {
    if s.len() == 1 && s[0] == 'Z' {
        Some(0)
    } else if (s.len() == 5 || s.len() == 6) && (s[0] == '+' || s[0] == '-') {
        let colon = s.len() == 6;
        let hh_ok = all_digits(s, 1, 3);
        let rest_ok = if colon {
            s[3] == ':' && all_digits(s, 4, 6)
        } else {
            all_digits(s, 3, 5)
        };
        if hh_ok && rest_ok {
            let hh = digits_value(s, 1, 3);
            let mm = if colon {
                digits_value(s, 4, 6)
            } else {
                digits_value(s, 3, 5)
            };
            if hh > 14 || mm > 59 {
                None
            } else if s[0] == '-' {
                Some((-(hh * 3600 + mm * 60)) as i32)
            } else {
                Some((hh * 3600 + mm * 60) as i32)
            }
        } else {
            None
        }
    } else {
        None
    }
}

/// Grammar of the RFC 3339 fallback: `YYYY-MM-DD`, a `T`, `t` or space,
/// `HH:MM:SS`, an optional dot with at least one fractional digit, and a
/// mandatory offset (`Z`, `z` or a signed `HH:MM`).  Yields the wall-clock
/// fields as written together with the offset.
pub open spec fn rfc3339_spec(s: Seq<char>) -> Option<(CivilDateTime, i32)> {
    if datetime_shape_rfc(s) {
        let fe = if s.len() > 19 && s[19] == '.' {
            digits_end(s, 20)
        } else {
            19
        };
        if s.len() > 19 && s[19] == '.' && fe == 20 {
            None
        } else {
            let nanos = if fe == 19 {
                0
            } else {
                frac_nanos(s, 20, fe)
            };
            match offset_tail_spec(s, fe, true, true) {
                Some(off) => {
                    let dt = datetime_fields(s, nanos);
                    if dt.wf() {
                        Some((dt, off))
                    } else {
                        None
                    }
                },
                None => None,
            }
        }
    } else {
        None
    }
}

/// The 19-character RFC 3339 core: hyphen-separated date, `T`, `t` or space
/// separator, colon-separated time.
pub open spec fn datetime_shape_rfc(s: Seq<char>) -> bool {
    &&& s.len() >= 19
    &&& all_digits(s, 0, 4)
    &&& s[4] == '-'
    &&& all_digits(s, 5, 7)
    &&& s[7] == '-'
    &&& all_digits(s, 8, 10)
    &&& (s[10] == 'T' || s[10] == 't' || s[10] == ' ')
    &&& all_digits(s, 11, 13)
    &&& s[13] == ':'
    &&& all_digits(s, 14, 16)
    &&& s[16] == ':'
    &&& all_digits(s, 17, 19)
}

/// Grammar of [`parse_datetime_offset`]: a colon-separated datetime core
/// followed immediately by a signed offset with optional colon, or failing
/// that the RFC 3339 form.  Yields the wall-clock fields and the offset.
pub open spec fn datetime_offset_spec(s: Seq<char>) -> Option<(CivilDateTime, i32)> {
    let exif = if datetime_shape(s, ':') {
        match offset_tail_spec(s, 19, false, false) {
            Some(off) => {
                let dt = datetime_fields(s, 0);
                if dt.wf() {
                    Some((dt, off))
                } else {
                    None
                }
            },
            None => None,
        }
    } else {
        None
    };
    if exif is Some {
        exif
    } else {
        rfc3339_spec(s)
    }
}

/// Grammar of [`parse_datetime_utc_z`]: either the metadata convention of a
/// colon-separated datetime core with a literal `Z` appended, or an RFC 3339
/// string whose instant is converted to UTC.  Yields the UTC wall-clock
/// value.
pub open spec fn utc_z_spec(s: Seq<char>) -> Option<CivilDateTime> {
    if s.len() == 20 && s[19] == 'Z' && datetime_shape(s, ':') && datetime_fields(s, 0).wf() {
        Some(datetime_fields(s, 0))
    } else {
        match rfc3339_spec(s) {
            Some((dt, off)) => Some(civil_of_seconds(dt.seconds() - off, dt.nanosecond as int)),
            None => None,
        }
    }
}

/// Nanoseconds denoted by a bare subsecond counter: the value is read as a
/// decimal fraction with as many places as it has digits (`123` is 0.123
/// seconds); values of more than nine digits are truncated to nanoseconds.
pub open spec fn subsec_nanos(n: int) -> int {
    if digit_count(n) <= 9 {
        n * pow10(9 - digit_count(n))
    } else {
        n % 1_000_000_000
    }
}

/// The merge of a numeric subsecond field into a datetime: zero leaves the
/// value untouched, anything else replaces the nanosecond field.
pub open spec fn merge_subseconds(dt: CivilDateTime, n: int) -> CivilDateTime {
    if n == 0 {
        dt
    } else {
        CivilDateTime { nanosecond: subsec_nanos(n) as u32, ..dt }
    }
}

fn pow10_exec(e: u32) -> (r: u64)
    requires
        e <= 9,
    ensures
        r == pow10(e as int),
{
    proof {
        reveal_with_fuel(pow10, 11);
    }
    if e == 0 {
        1
    } else if e == 1 {
        10
    } else if e == 2 {
        100
    } else if e == 3 {
        1_000
    } else if e == 4 {
        10_000
    } else if e == 5 {
        100_000
    } else if e == 6 {
        1_000_000
    } else if e == 7 {
        10_000_000
    } else if e == 8 {
        100_000_000
    } else {
        1_000_000_000
    }
}

/// Reads the value of the digit run `[from, to)`, or reports that some
/// character there is not a digit.
#[verifier::loop_isolation(false)]
pub fn read_digits(s: &str, from: usize, to: usize) -> (r: Option<u32>)
    requires
        from <= to <= s@.len(),
        to - from <= 9,
    ensures
        match r {
            Some(v) => all_digits(s@, from as int, to as int) && v == digits_value(
                s@,
                from as int,
                to as int,
            ),
            None => !all_digits(s@, from as int, to as int),
        },
{
    let mut acc: u32 = 0;
    let mut i: usize = from;
    while i < to
        invariant
            from <= i <= to,
            all_digits(s@, from as int, i as int),
            acc == digits_value(s@, from as int, i as int),
        decreases to - i,
    {
        let c = s.get_char(i);
        if !('0' <= c && c <= '9') {
            return None;
        }
        proof {
            lemma_digits_value_bound(s@, from as int, i as int);
            lemma_pow10_mono(i - from, 8);
            reveal_with_fuel(pow10, 11);
        }
        let d: u32 = (c as u32) - ('0' as u32);
        acc = acc * 10 + d;
        i = i + 1;
    }
    Some(acc)
}

fn char_is(s: &str, i: usize, c: char) -> (r: bool)
    requires
        i < s@.len(),
    ensures
        r == (s@[i as int] == c),
{
    s.get_char(i) == c
}

/// First index at or after `from` whose character is not a digit.
#[verifier::loop_isolation(false)]
fn scan_digits_end(s: &str, from: usize) -> (e: usize)
    requires
        from <= s@.len(),
    ensures
        from <= e <= s@.len(),
        all_digits(s@, from as int, e as int),
        e == s@.len() || !is_digit(s@[e as int]),
{
    let n = s.unicode_len();
    let mut i: usize = from;
    while i < n
        invariant
            from <= i <= n,
            all_digits(s@, from as int, i as int),
        decreases n - i,
    {
        let c = s.get_char(i);
        if !('0' <= c && c <= '9') {
            return i;
        }
        i = i + 1;
    }
    i
}

/// Parses a naive datetime string as found in capture-time metadata fields
/// (`YYYY:MM:DD HH:MM:SS` or with `-` as the date separator, with optional
/// fractional seconds).  The flag reports whether the string itself carried
/// a nonzero subsecond part.
pub fn parse_naive(s: &str) -> (r: Option<(CivilDateTime, bool)>)
    ensures
        r == naive_datetime_spec(s@),
        r matches Some(p) ==> p.0.wf() && 0 <= p.0.year <= 9999,
{
    let n = s.unicode_len();
    if n < 19 {
        return None;
    }
    let sep = s.get_char(4);
    if !(sep == ':' || sep == '-') {
        return None;
    }
    let core = match parse_core(s, sep) {
        Some(c) => c,
        None => {
            return None;
        },
    };
    let mut nanos: u64 = 0;
    if n > 19 {
        if n < 21 || !char_is(s, 19, '.') {
            return None;
        }
        let i = scan_digits_end(s, 20);
        if i < n {
            return None;
        }
        let end: usize = if n - 20 >= 9 {
            29
        } else {
            n
        };
        proof {
            assert(all_digits(s@, 20, end as int));
        }
        let v = read_digits(s, 20, end).unwrap();
        proof {
            lemma_digits_value_bound(s@, 20, end as int);
            lemma_pow10_mono(end - 20, 9);
            lemma_pow10_pos(9 - (end - 20));
            assert(digits_value(s@, 20, end as int) * pow10(9 - (end - 20)) < pow10(
                end - 20,
            ) * pow10(9 - (end - 20))) by (nonlinear_arith)
                requires
                    digits_value(s@, 20, end as int) < pow10(end - 20),
                    pow10(9 - (end - 20)) >= 1,
            ;
            assert(pow10(end - 20) * pow10(9 - (end - 20)) == pow10(9)) by {
                lemma_pow10_mul(end - 20, 9 - (end - 20));
            }
            reveal_with_fuel(pow10, 11);
        }
        nanos = (v as u64) * pow10_exec((9 - (end - 20)) as u32);
        assert(nanos == frac_nanos(s@, 20, n as int));
    }
    proof {
        lemma_digits_value_bound(s@, 0, 4);
        lemma_digits_value_bound(s@, 5, 7);
        lemma_digits_value_bound(s@, 8, 10);
        lemma_digits_value_bound(s@, 11, 13);
        lemma_digits_value_bound(s@, 14, 16);
        lemma_digits_value_bound(s@, 17, 19);
        reveal_with_fuel(pow10, 11);
        assert(datetime_fields(s@, nanos as int) == (CivilDateTime {
            year: core.0 as i32,
            month: core.1 as u8,
            day: core.2 as u8,
            hour: core.3 as u8,
            minute: core.4 as u8,
            second: core.5 as u8,
            nanosecond: nanos as u32,
        }));
    }
    let dt = match CivilDateTime::from_fields(
        core.0 as i32,
        core.1 as u8,
        core.2 as u8,
        core.3 as u8,
        core.4 as u8,
        core.5 as u8,
        nanos as u32,
    ) {
        Some(dt) => dt,
        None => {
            return None;
        },
    };
    Some((dt, nanos != 0))
}

proof fn lemma_pow10_mul(a: int, b: int)
    requires
        a >= 0,
        b >= 0,
    ensures
        pow10(a) * pow10(b) == pow10(a + b),
    decreases a,
{
    if a > 0 {
        lemma_pow10_mul(a - 1, b);
        assert(pow10(a) * pow10(b) == 10 * (pow10(a - 1) * pow10(b))) by (nonlinear_arith)
            requires
                pow10(a) == 10 * pow10(a - 1),
        ;
    }
}

/// Reads the six numeric fields of a 19-character datetime core with date
/// separator `sep`.
fn parse_core(s: &str, sep: char) -> (r: Option<(u32, u32, u32, u32, u32, u32)>)
    requires
        s@.len() >= 19,
    ensures
        r is Some <==> datetime_shape(s@, sep),
        match r {
            Some(v) => v.0 == digits_value(s@, 0, 4) && v.1 == digits_value(s@, 5, 7) && v.2
                == digits_value(s@, 8, 10) && v.3 == digits_value(s@, 11, 13) && v.4
                == digits_value(s@, 14, 16) && v.5 == digits_value(s@, 17, 19),
            None => true,
        },
{
    let y = match read_digits(s, 0, 4) {
        Some(v) => v,
        None => {
            return None;
        },
    };
    if !char_is(s, 4, sep) {
        return None;
    }
    let mo = match read_digits(s, 5, 7) {
        Some(v) => v,
        None => {
            return None;
        },
    };
    if !char_is(s, 7, sep) {
        return None;
    }
    let d = match read_digits(s, 8, 10) {
        Some(v) => v,
        None => {
            return None;
        },
    };
    if !char_is(s, 10, ' ') {
        return None;
    }
    let h = match read_digits(s, 11, 13) {
        Some(v) => v,
        None => {
            return None;
        },
    };
    if !char_is(s, 13, ':') {
        return None;
    }
    let mi = match read_digits(s, 14, 16) {
        Some(v) => v,
        None => {
            return None;
        },
    };
    if !char_is(s, 16, ':') {
        return None;
    }
    let sec = match read_digits(s, 17, 19) {
        Some(v) => v,
        None => {
            return None;
        },
    };
    Some((y, mo, d, h, mi, sec))
}

/// Parses an explicit UTC-offset declaration such as `+02:00`, `-0500` or
/// `Z`, returning the offset in seconds together with the original string.
/// Offsets with hours above 14 or minutes above 59 are rejected.
pub fn parse_offset_string(offset_str: &str) -> (r: Option<(i32, String)>)
    ensures
        match r {
            Some(v) => offset_string_spec(offset_str@) == Some(v.0) && v.1@ == offset_str@
                && -86400 < v.0 < 86400,
            None => offset_string_spec(offset_str@) is None,
        },
{
    let n = offset_str.unicode_len();
    if n == 1 && char_is(offset_str, 0, 'Z') {
        return Some((0, String::from_str(offset_str)));
    }
    if n != 5 && n != 6 {
        return None;
    }
    let sign = offset_str.get_char(0);
    if !(sign == '+' || sign == '-') {
        return None;
    }
    let hh = match read_digits(offset_str, 1, 3) {
        Some(v) => v,
        None => {
            return None;
        },
    };
    let mm: u32;
    if n == 6 {
        if !char_is(offset_str, 3, ':') {
            return None;
        }
        mm = match read_digits(offset_str, 4, 6) {
            Some(v) => v,
            None => {
                return None;
            },
        };
    } else {
        mm = match read_digits(offset_str, 3, 5) {
            Some(v) => v,
            None => {
                return None;
            },
        };
    }
    if hh > 14 || mm > 59 {
        return None;
    }
    let secs: i32 = (hh * 3600 + mm * 60) as i32;
    let signed: i32 = if sign == '-' {
        -secs
    } else {
        secs
    };
    Some((signed, String::from_str(offset_str)))
}

/// Reads a UTC offset written at `[from, s.len())`.
fn parse_offset_tail(s: &str, from: usize, colon_required: bool, allow_z: bool) -> (r: Option<i32>)
    requires
        from <= s@.len(),
    ensures
        r == offset_tail_spec(s@, from as int, colon_required, allow_z),
{
    let n = s.unicode_len();
    if allow_z && n >= 1 && from == n - 1 {
        let c = s.get_char(from);
        if c == 'Z' || c == 'z' {
            return Some(0);
        }
    }
    let colon_form = n >= 6 && from == n - 6;
    let plain_form = !colon_required && n >= 5 && from == n - 5;
    if !colon_form && !plain_form {
        return None;
    }
    let sign = s.get_char(from);
    if !(sign == '+' || sign == '-' || sign == '\u{2212}') {
        return None;
    }
    let hh = match read_digits(s, from + 1, from + 3) {
        Some(v) => v,
        None => {
            return None;
        },
    };
    let mm: u32;
    if colon_form {
        if !char_is(s, from + 3, ':') {
            return None;
        }
        mm = match read_digits(s, from + 4, from + 6) {
            Some(v) => v,
            None => {
                return None;
            },
        };
    } else {
        mm = match read_digits(s, from + 3, from + 5) {
            Some(v) => v,
            None => {
                return None;
            },
        };
    }
    if mm > 59 {
        return None;
    }
    proof {
        if colon_form {
            lemma_digits_value_bound(s@, from as int + 1, from as int + 3);
            lemma_digits_value_bound(s@, from as int + 4, from as int + 6);
        } else {
            lemma_digits_value_bound(s@, from as int + 1, from as int + 3);
            lemma_digits_value_bound(s@, from as int + 3, from as int + 5);
        }
        reveal_with_fuel(pow10, 3);
    }
    let secs: i32 = (hh * 3600 + mm * 60) as i32;
    if secs >= 86400 {
        return None;
    }
    if sign == '+' {
        Some(secs)
    } else {
        Some(-secs)
    }
}

/// Parses an RFC 3339 string into its wall-clock fields and offset.
fn parse_rfc3339(s: &str) -> (r: Option<(CivilDateTime, i32)>)
    ensures
        r == rfc3339_spec(s@),
{
    let n = s.unicode_len();
    if n < 19 {
        return None;
    }
    // Shape checks for the hyphenated core.
    let sep10 = s.get_char(10);
    if !(sep10 == 'T' || sep10 == 't' || sep10 == ' ') {
        return None;
    }
    let core = match parse_core_rfc(s) {
        Some(c) => c,
        None => {
            return None;
        },
    };
    let mut fe: usize = 19;
    let mut nanos: u64 = 0;
    if n > 19 && char_is(s, 19, '.') {
        let i = scan_digits_end(s, 20);
        proof {
            lemma_digits_end(s@, 20, i as int);
        }
        if i == 20 {
            return None;
        }
        fe = i;
        let end: usize = if fe - 20 >= 9 {
            29
        } else {
            fe
        };
        proof {
            assert(all_digits(s@, 20, end as int));
        }
        let v = read_digits(s, 20, end).unwrap();
        proof {
            lemma_digits_value_bound(s@, 20, end as int);
            lemma_pow10_mono(end - 20, 9);
            lemma_pow10_pos(9 - (end - 20));
            assert(digits_value(s@, 20, end as int) * pow10(9 - (end - 20)) < pow10(
                end - 20,
            ) * pow10(9 - (end - 20))) by (nonlinear_arith)
                requires
                    digits_value(s@, 20, end as int) < pow10(end - 20),
                    pow10(9 - (end - 20)) >= 1,
            ;
            lemma_pow10_mul(end - 20, 9 - (end - 20));
            reveal_with_fuel(pow10, 11);
        }
        nanos = (v as u64) * pow10_exec((9 - (end - 20)) as u32);
        assert(nanos == frac_nanos(s@, 20, fe as int));
    }
    let off = match parse_offset_tail(s, fe, true, true) {
        Some(o) => o,
        None => {
            return None;
        },
    };
    proof {
        lemma_digits_value_bound(s@, 0, 4);
        lemma_digits_value_bound(s@, 5, 7);
        lemma_digits_value_bound(s@, 8, 10);
        lemma_digits_value_bound(s@, 11, 13);
        lemma_digits_value_bound(s@, 14, 16);
        lemma_digits_value_bound(s@, 17, 19);
        reveal_with_fuel(pow10, 11);
        assert(datetime_fields(s@, nanos as int) == (CivilDateTime {
            year: core.0 as i32,
            month: core.1 as u8,
            day: core.2 as u8,
            hour: core.3 as u8,
            minute: core.4 as u8,
            second: core.5 as u8,
            nanosecond: nanos as u32,
        }));
    }
    let dt = match CivilDateTime::from_fields(
        core.0 as i32,
        core.1 as u8,
        core.2 as u8,
        core.3 as u8,
        core.4 as u8,
        core.5 as u8,
        nanos as u32,
    ) {
        Some(dt) => dt,
        None => {
            return None;
        },
    };
    Some((dt, off))
}

proof fn lemma_digits_end(s: Seq<char>, from: int, stop: int)
    requires
        0 <= from <= stop <= s.len(),
        all_digits(s, from, stop),
        stop == s.len() || !is_digit(s[stop]),
    ensures
        digits_end(s, from) == stop,
    decreases stop - from,
{
    if from < stop {
        lemma_digits_end(s, from + 1, stop);
    }
}

/// Reads the six numeric fields of an RFC 3339 core, checking its shape.
fn parse_core_rfc(s: &str) -> (r: Option<(u32, u32, u32, u32, u32, u32)>)
    requires
        s@.len() >= 19,
        s@[10] == 'T' || s@[10] == 't' || s@[10] == ' ',
    ensures
        r is Some <==> datetime_shape_rfc(s@),
        match r {
            Some(v) => v.0 == digits_value(s@, 0, 4) && v.1 == digits_value(s@, 5, 7) && v.2
                == digits_value(s@, 8, 10) && v.3 == digits_value(s@, 11, 13) && v.4
                == digits_value(s@, 14, 16) && v.5 == digits_value(s@, 17, 19),
            None => true,
        },
{
    let y = match read_digits(s, 0, 4) {
        Some(v) => v,
        None => {
            return None;
        },
    };
    if !char_is(s, 4, '-') {
        return None;
    }
    let mo = match read_digits(s, 5, 7) {
        Some(v) => v,
        None => {
            return None;
        },
    };
    if !char_is(s, 7, '-') {
        return None;
    }
    let d = match read_digits(s, 8, 10) {
        Some(v) => v,
        None => {
            return None;
        },
    };
    let h = match read_digits(s, 11, 13) {
        Some(v) => v,
        None => {
            return None;
        },
    };
    if !char_is(s, 13, ':') {
        return None;
    }
    let mi = match read_digits(s, 14, 16) {
        Some(v) => v,
        None => {
            return None;
        },
    };
    if !char_is(s, 16, ':') {
        return None;
    }
    let sec = match read_digits(s, 17, 19) {
        Some(v) => v,
        None => {
            return None;
        },
    };
    Some((y, mo, d, h, mi, sec))
}

/// Parses a datetime string that carries its own UTC offset, such as a
/// file-system timestamp (`2024:07:07 15:00:00-07:00`), falling back to the
/// RFC 3339 form.  Yields the wall-clock fields and the offset in seconds.
pub fn parse_datetime_offset(s: &str) -> (r: Option<(CivilDateTime, i32)>)
    ensures
        r == datetime_offset_spec(s@),
        r matches Some(p) ==> p.0.wf() && 0 <= p.0.year <= 9999 && -86400 < p.1 < 86400,
{
    let n = s.unicode_len();
    if n >= 19 {
        let sep = s.get_char(4);
        if sep == ':' {
            if let Some(core) = parse_core(s, ':') {
                if let Some(off) = parse_offset_tail(s, 19, false, false) {
                    proof {
                        lemma_digits_value_bound(s@, 0, 4);
                        lemma_digits_value_bound(s@, 5, 7);
                        lemma_digits_value_bound(s@, 8, 10);
                        lemma_digits_value_bound(s@, 11, 13);
                        lemma_digits_value_bound(s@, 14, 16);
                        lemma_digits_value_bound(s@, 17, 19);
                        reveal_with_fuel(pow10, 11);
                        assert(datetime_fields(s@, 0) == (CivilDateTime {
                            year: core.0 as i32,
                            month: core.1 as u8,
                            day: core.2 as u8,
                            hour: core.3 as u8,
                            minute: core.4 as u8,
                            second: core.5 as u8,
                            nanosecond: 0u32,
                        }));
                    }
                    if let Some(dt) = CivilDateTime::from_fields(
                        core.0 as i32,
                        core.1 as u8,
                        core.2 as u8,
                        core.3 as u8,
                        core.4 as u8,
                        core.5 as u8,
                        0,
                    ) {
                        proof {
                            lemma_offset_tail_bounds(s@, 19, false, false, off);
                        }
                        return Some((dt, off));
                    }
                }
            }
        }
    }
    let r = parse_rfc3339(s);
    proof {
        if let Some((dt, off)) = r {
            lemma_rfc3339_values(s@, dt, off);
        }
    }
    r
}

/// Parses a UTC datetime string: the metadata convention of a
/// colon-separated datetime with a `Z` suffix (`2024:05:05 10:00:00Z`), or
/// any RFC 3339 string, converted to UTC.
pub fn parse_datetime_utc_z(s: &str) -> (r: Option<CivilDateTime>)
    ensures
        r == utc_z_spec(s@),
        r matches Some(dt) ==> dt.wf(),
{
    let n = s.unicode_len();
    if n == 20 && char_is(s, 19, 'Z') {
        let sep = s.get_char(4);
        if sep == ':' {
            if let Some(core) = parse_core(s, ':') {
                proof {
                    lemma_digits_value_bound(s@, 0, 4);
                    lemma_digits_value_bound(s@, 5, 7);
                    lemma_digits_value_bound(s@, 8, 10);
                    lemma_digits_value_bound(s@, 11, 13);
                    lemma_digits_value_bound(s@, 14, 16);
                    lemma_digits_value_bound(s@, 17, 19);
                    reveal_with_fuel(pow10, 11);
                    assert(datetime_fields(s@, 0) == (CivilDateTime {
                        year: core.0 as i32,
                        month: core.1 as u8,
                        day: core.2 as u8,
                        hour: core.3 as u8,
                        minute: core.4 as u8,
                        second: core.5 as u8,
                        nanosecond: 0u32,
                    }));
                }
                if let Some(dt) = CivilDateTime::from_fields(
                    core.0 as i32,
                    core.1 as u8,
                    core.2 as u8,
                    core.3 as u8,
                    core.4 as u8,
                    core.5 as u8,
                    0,
                ) {
                    return Some(dt);
                }
            }
        }
    }
    match parse_rfc3339(s) {
        Some((dt, off)) => {
            proof {
                lemma_rfc3339_values(s@, dt, off);
                lemma_seconds_bounds(dt);
                crate::civil::lemma_days_before_year_bounds(10001);
            }
            let t = crate::civil::civil_seconds(&dt);
            let utc = civil_from_seconds(t - (off as i64), dt.nanosecond);
            Some(utc)
        },
        None => None,
    }
}

/// An RFC 3339 parse yields a well-formed value with a four-digit year and
/// an offset of less than a day.
pub proof fn lemma_rfc3339_values(s: Seq<char>, dt: CivilDateTime, off: i32)
    requires
        rfc3339_spec(s) == Some((dt, off)),
    ensures
        dt.wf(),
        0 <= dt.year <= 9999,
        -86400 < off < 86400,
{
    lemma_digits_value_bound(s, 0, 4);
    reveal_with_fuel(pow10, 5);
    let fe = if s.len() > 19 && s[19] == '.' {
        digits_end(s, 20)
    } else {
        19
    };
    lemma_offset_tail_bounds(s, fe, true, true, off);
}

/// A parsed offset tail is smaller in magnitude than one day.
pub proof fn lemma_offset_tail_bounds(
    s: Seq<char>,
    from: int,
    colon_required: bool,
    allow_z: bool,
    off: i32,
)
    requires
        offset_tail_spec(s, from, colon_required, allow_z) == Some(off),
    ensures
        -86400 < off < 86400,
{
    if allow_z && s.len() == from + 1 && (s[from] == 'Z' || s[from] == 'z') {
    } else if s.len() == from + 6 && is_sign(s[from]) && all_digits(s, from + 1, from + 3) && s[from
        + 3] == ':' && all_digits(s, from + 4, from + 6) {
        lemma_digits_value_bound(s, from + 1, from + 3);
        lemma_digits_value_bound(s, from + 4, from + 6);
        reveal_with_fuel(pow10, 3);
    } else {
        lemma_digits_value_bound(s, from + 1, from + 3);
        lemma_digits_value_bound(s, from + 3, from + 5);
        reveal_with_fuel(pow10, 3);
    }
}

/// Merges a bare numeric subsecond counter into an already-parsed datetime.
/// The digit count of the value decides the decimal scale (`123` means
/// 0.123 seconds); zero is a no-op; the result never overflows.
pub fn add_subseconds_from_number(dt: CivilDateTime, subsec_num: u32) -> (r: CivilDateTime)
    ensures
        r == merge_subseconds(dt, subsec_num as int),
        r.year == dt.year && r.month == dt.month && r.day == dt.day && r.hour == dt.hour
            && r.minute == dt.minute && r.second == dt.second,
        r.nanosecond < 1_000_000_000 || r.nanosecond == dt.nanosecond,
{
    if subsec_num == 0 {
        return dt;
    }
    let dc = digit_count_exec(subsec_num);
    if dc <= 9 {
        proof {
            lemma_digit_count_bound(subsec_num as int);
            lemma_pow10_mono(dc as int, 9);
            lemma_pow10_pos(9 - dc as int);
            assert((subsec_num as int) * pow10(9 - dc as int) < pow10(dc as int) * pow10(
                9 - dc as int,
            )) by (nonlinear_arith)
                requires
                    (subsec_num as int) < pow10(dc as int),
                    pow10(9 - dc as int) >= 1,
            ;
            lemma_pow10_mul(dc as int, 9 - dc as int);
            reveal_with_fuel(pow10, 11);
        }
        let nanos: u64 = (subsec_num as u64) * pow10_exec(9 - dc);
        CivilDateTime { nanosecond: nanos as u32, ..dt }
    } else {
        let nanos: u32 = subsec_num % 1_000_000_000;
        CivilDateTime { nanosecond: nanos, ..dt }
    }
}

fn digit_count_exec(n: u32) -> (d: u32)
    ensures
        d == digit_count(n as int),
        1 <= d <= 10,
    decreases n,
{
    if n <= 9 {
        1
    } else {
        proof {
            reveal_with_fuel(pow10, 11);
            assert(n as int / 10 < pow10(9));
            lemma_digit_count_le(n as int / 10, 9);
        }
        1 + digit_count_exec(n / 10)
    }
}

proof fn lemma_digit_count_le(n: int, k: int)
    requires
        0 <= n,
        1 <= k,
        n < pow10(k),
    ensures
        digit_count(n) <= k,
    decreases n,
{
    if n > 9 {
        if k == 1 {
            reveal_with_fuel(pow10, 2);
        } else {
            assert(n / 10 < pow10(k - 1)) by (nonlinear_arith)
                requires
                    n < pow10(k),
                    pow10(k) == 10 * pow10(k - 1),
                    n > 9,
            ;
            lemma_digit_count_le(n / 10, k - 1);
        }
    }
}

} // verus!
