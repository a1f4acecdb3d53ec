//! Last-resort extraction of a capture time from a filename.
//!
//! Device naming conventions put timestamps into filenames in a few fixed
//! shapes.  Three are recognised, in order: a compact `YYYYMMDD_HHMMSS`
//! run, a hyphenated `YYYY-MM-DD_HH-MM-SS` run, and a leading 13-digit Unix
//! millisecond count followed by a dot.  The first two may appear anywhere
//! in the name; the leftmost occurrence wins.  A millisecond count denotes a
//! UTC instant; an optional fallback timezone turns it into a wall-clock
//! reading there, and without one the UTC projection is used.

use crate::civil::{
    civil_from_seconds, civil_of_seconds, lemma_days_before_year_bounds, unix_epoch_seconds,
    unix_epoch_seconds_exec, CivilDateTime,
};
use crate::parse::{all_digits, digits_value, lemma_digits_value_bound, pow10};
use crate::zone::{lookup_zone_utc_offset, zone_utc_offset};
use vstd::prelude::*;

verus! {

/// A compact `YYYYMMDD_HHMMSS` run starts at index `i`.
pub open spec fn compact_match_at(s: Seq<char>, i: int) -> bool {
    &&& 0 <= i
    &&& i + 15 <= s.len()
    &&& all_digits(s, i, i + 8)
    &&& s[i + 8] == '_'
    &&& all_digits(s, i + 9, i + 15)
}

/// Index of the leftmost compact run at or after `i`.
pub open spec fn first_compact_match(s: Seq<char>, i: int) -> Option<int>
    decreases s.len() - i,
{
    if i + 15 > s.len() || i < 0 {
        None
    } else if compact_match_at(s, i) {
        Some(i)
    } else {
        first_compact_match(s, i + 1)
    }
}

/// The field values of a compact run at `i`.
pub open spec fn compact_fields(s: Seq<char>, i: int) -> CivilDateTime {
    CivilDateTime {
        year: digits_value(s, i, i + 4) as i32,
        month: digits_value(s, i + 4, i + 6) as u8,
        day: digits_value(s, i + 6, i + 8) as u8,
        hour: digits_value(s, i + 9, i + 11) as u8,
        minute: digits_value(s, i + 11, i + 13) as u8,
        second: digits_value(s, i + 13, i + 15) as u8,
        nanosecond: 0,
    }
}

/// A hyphenated `YYYY-MM-DD_HH-MM-SS` run starts at index `i`.
pub open spec fn hyphen_match_at(s: Seq<char>, i: int) -> bool {
    &&& 0 <= i
    &&& i + 19 <= s.len()
    &&& all_digits(s, i, i + 4)
    &&& s[i + 4] == '-'
    &&& all_digits(s, i + 5, i + 7)
    &&& s[i + 7] == '-'
    &&& all_digits(s, i + 8, i + 10)
    &&& s[i + 10] == '_'
    &&& all_digits(s, i + 11, i + 13)
    &&& s[i + 13] == '-'
    &&& all_digits(s, i + 14, i + 16)
    &&& s[i + 16] == '-'
    &&& all_digits(s, i + 17, i + 19)
}

/// Index of the leftmost hyphenated run at or after `i`.
pub open spec fn first_hyphen_match(s: Seq<char>, i: int) -> Option<int>
    decreases s.len() - i,
{
    if i + 19 > s.len() || i < 0 {
        None
    } else if hyphen_match_at(s, i) {
        Some(i)
    } else {
        first_hyphen_match(s, i + 1)
    }
}

/// The field values of a hyphenated run at `i`.
pub open spec fn hyphen_fields(s: Seq<char>, i: int) -> CivilDateTime {
    CivilDateTime {
        year: digits_value(s, i, i + 4) as i32,
        month: digits_value(s, i + 5, i + 7) as u8,
        day: digits_value(s, i + 8, i + 10) as u8,
        hour: digits_value(s, i + 11, i + 13) as u8,
        minute: digits_value(s, i + 14, i + 16) as u8,
        second: digits_value(s, i + 17, i + 19) as u8,
        nanosecond: 0,
    }
}

/// The name begins with a 13-digit millisecond count followed by a dot.
pub open spec fn epoch_match(s: Seq<char>) -> bool {
    s.len() >= 14 && all_digits(s, 0, 13) && s[13] == '.'
}

/// The wall-clock reading of the millisecond count at the start of `s`: its
/// UTC projection, shifted into the fallback zone when one is given and
/// names a real zone.
pub open spec fn epoch_fields(s: Seq<char>, fallback: Option<Seq<char>>) -> CivilDateTime {
    let ms = digits_value(s, 0, 13);
    let secs = ms / 1000;
    let nanos = (ms % 1000) * 1_000_000;
    let delta = match fallback {
        Some(z) => match zone_utc_offset(z, secs) {
            Some(off) => off as int,
            None => 0,
        },
        None => 0,
    };
    civil_of_seconds(unix_epoch_seconds() + secs + delta, nanos)
}

/// The view of an optional string argument.
pub open spec fn opt_str_view(o: Option<&str>) -> Option<Seq<char>> {
    match o {
        Some(s) => Some(s@),
        None => None,
    }
}

/// The full filename grammar: the leftmost compact run, else the leftmost
/// hyphenated run, else a leading millisecond count; a run whose fields do
/// not denote a real date falls through to the next pattern.
pub open spec fn filename_datetime_spec(s: Seq<char>, fallback: Option<Seq<char>>) -> Option<
    CivilDateTime,
> {
    let compact = match first_compact_match(s, 0) {
        Some(i) => if compact_fields(s, i).wf() {
            Some(compact_fields(s, i))
        } else {
            None
        },
        None => None,
    };
    let hyphen = match first_hyphen_match(s, 0) {
        Some(i) => if hyphen_fields(s, i).wf() {
            Some(hyphen_fields(s, i))
        } else {
            None
        },
        None => None,
    };
    if compact is Some {
        compact
    } else if hyphen is Some {
        hyphen
    } else if epoch_match(s) {
        Some(epoch_fields(s, fallback))
    } else {
        None
    }
}

fn compact_at(s: &str, i: usize) -> (r: bool)
    requires
        i + 15 <= s@.len(),
        s@.len() <= usize::MAX,
    ensures
        r == compact_match_at(s@, i as int),
{
    let d1 = crate::parse::read_digits(s, i, i + 8);
    if d1.is_none() {
        return false;
    }
    if !(s.get_char(i + 8) == '_') {
        return false;
    }
    let d2 = crate::parse::read_digits(s, i + 9, i + 15);
    d2.is_some()
}

fn hyphen_at(s: &str, i: usize) -> (r: bool)
    requires
        i + 19 <= s@.len(),
        s@.len() <= usize::MAX,
    ensures
        r == hyphen_match_at(s@, i as int),
{
    let ok = crate::parse::read_digits(s, i, i + 4).is_some() && s.get_char(i + 4) == '-'
        && crate::parse::read_digits(s, i + 5, i + 7).is_some() && s.get_char(i + 7) == '-'
        && crate::parse::read_digits(s, i + 8, i + 10).is_some() && s.get_char(i + 10) == '_'
        && crate::parse::read_digits(s, i + 11, i + 13).is_some() && s.get_char(i + 13) == '-'
        && crate::parse::read_digits(s, i + 14, i + 16).is_some() && s.get_char(i + 16) == '-'
        && crate::parse::read_digits(s, i + 17, i + 19).is_some();
    ok
}

#[verifier::loop_isolation(false)]
fn find_compact(s: &str) -> (r: Option<usize>)
    ensures
        match r {
            Some(i) => first_compact_match(s@, 0) == Some(i as int) && compact_match_at(
                s@,
                i as int,
            ),
            None => first_compact_match(s@, 0) is None,
        },
{
    let n = s.unicode_len();
    if n < 15 {
        return None;
    }
    let mut i: usize = 0;
    while i <= n - 15
        invariant
            0 <= i <= n - 14,
            first_compact_match(s@, 0) == first_compact_match(s@, i as int),
        decreases n - i,
    {
        if compact_at(s, i) {
            return Some(i);
        }
        i = i + 1;
    }
    None
}

#[verifier::loop_isolation(false)]
fn find_hyphen(s: &str) -> (r: Option<usize>)
    ensures
        match r {
            Some(i) => first_hyphen_match(s@, 0) == Some(i as int) && hyphen_match_at(
                s@,
                i as int,
            ),
            None => first_hyphen_match(s@, 0) is None,
        },
{
    let n = s.unicode_len();
    if n < 19 {
        return None;
    }
    let mut i: usize = 0;
    while i <= n - 19
        invariant
            0 <= i <= n - 18,
            first_hyphen_match(s@, 0) == first_hyphen_match(s@, i as int),
        decreases n - i,
    {
        if hyphen_at(s, i) {
            return Some(i);
        }
        i = i + 1;
    }
    None
}

proof fn lemma_digits_value_split(s: Seq<char>, a: int, b: int, c: int)
    requires
        a <= b <= c,
    ensures
        digits_value(s, a, c) == digits_value(s, a, b) * pow10(c - b) + digits_value(s, b, c),
    decreases c - b,
{
    if b < c {
        lemma_digits_value_split(s, a, b, c - 1);
        assert(digits_value(s, a, b) * pow10(c - 1 - b) * 10 == digits_value(s, a, b) * pow10(
            c - b,
        )) by (nonlinear_arith)
            requires
                pow10(c - b) == 10 * pow10(c - 1 - b),
        ;
    }
}

/// Extracts a wall-clock timestamp from a filename, trying the recognised
/// device naming conventions in order.  A millisecond-count name is read in
/// the fallback timezone when one is given; this is a best-effort source of
/// last resort.
pub fn parse_datetime_from_filename(filename: &str, fallback_timezone: Option<&str>) -> (r: Option<
    CivilDateTime,
>)
    ensures
        r == filename_datetime_spec(filename@, opt_str_view(fallback_timezone)),
        r matches Some(dt) ==> dt.wf() && 0 <= dt.year <= 9999,
{
    if let Some(i) = find_compact(filename) {
        let n = filename.unicode_len();
        proof {
            assert(i + 15 <= n);
        }
        let y = crate::parse::read_digits(filename, i, i + 4).unwrap();
        let mo = crate::parse::read_digits(filename, i + 4, i + 6).unwrap();
        let d = crate::parse::read_digits(filename, i + 6, i + 8).unwrap();
        let h = crate::parse::read_digits(filename, i + 9, i + 11).unwrap();
        let mi = crate::parse::read_digits(filename, i + 11, i + 13).unwrap();
        let sec = crate::parse::read_digits(filename, i + 13, i + 15).unwrap();
        proof {
            let ii = i as int;
            lemma_digits_value_bound(filename@, ii, ii + 4);
            lemma_digits_value_bound(filename@, ii + 4, ii + 6);
            lemma_digits_value_bound(filename@, ii + 6, ii + 8);
            lemma_digits_value_bound(filename@, ii + 9, ii + 11);
            lemma_digits_value_bound(filename@, ii + 11, ii + 13);
            lemma_digits_value_bound(filename@, ii + 13, ii + 15);
            reveal_with_fuel(pow10, 5);
            assert(compact_fields(filename@, ii) == (CivilDateTime {
                year: y as i32,
                month: mo as u8,
                day: d as u8,
                hour: h as u8,
                minute: mi as u8,
                second: sec as u8,
                nanosecond: 0u32,
            }));
        }
        if let Some(dt) = CivilDateTime::from_fields(
            y as i32,
            mo as u8,
            d as u8,
            h as u8,
            mi as u8,
            sec as u8,
            0,
        ) {
            return Some(dt);
        }
        return parse_hyphen_or_epoch(filename, fallback_timezone);
    }
    parse_hyphen_or_epoch(filename, fallback_timezone)
}

/// The hyphenated and millisecond patterns, tried after the compact one.
fn parse_hyphen_or_epoch(filename: &str, fallback_timezone: Option<&str>) -> (r: Option<
    CivilDateTime,
>)
    requires
        match first_compact_match(filename@, 0) {
            Some(i) => !compact_fields(filename@, i).wf(),
            None => true,
        },
    ensures
        r == filename_datetime_spec(filename@, opt_str_view(fallback_timezone)),
        r matches Some(dt) ==> dt.wf() && 0 <= dt.year <= 9999,
{
    if let Some(i) = find_hyphen(filename) {
        let n = filename.unicode_len();
        proof {
            assert(i + 19 <= n);
        }
        let y = crate::parse::read_digits(filename, i, i + 4).unwrap();
        let mo = crate::parse::read_digits(filename, i + 5, i + 7).unwrap();
        let d = crate::parse::read_digits(filename, i + 8, i + 10).unwrap();
        let h = crate::parse::read_digits(filename, i + 11, i + 13).unwrap();
        let mi = crate::parse::read_digits(filename, i + 14, i + 16).unwrap();
        let sec = crate::parse::read_digits(filename, i + 17, i + 19).unwrap();
        proof {
            let ii = i as int;
            lemma_digits_value_bound(filename@, ii, ii + 4);
            lemma_digits_value_bound(filename@, ii + 5, ii + 7);
            lemma_digits_value_bound(filename@, ii + 8, ii + 10);
            lemma_digits_value_bound(filename@, ii + 11, ii + 13);
            lemma_digits_value_bound(filename@, ii + 14, ii + 16);
            lemma_digits_value_bound(filename@, ii + 17, ii + 19);
            reveal_with_fuel(pow10, 5);
            assert(hyphen_fields(filename@, ii) == (CivilDateTime {
                year: y as i32,
                month: mo as u8,
                day: d as u8,
                hour: h as u8,
                minute: mi as u8,
                second: sec as u8,
                nanosecond: 0u32,
            }));
        }
        if let Some(dt) = CivilDateTime::from_fields(
            y as i32,
            mo as u8,
            d as u8,
            h as u8,
            mi as u8,
            sec as u8,
            0,
        ) {
            return Some(dt);
        }
        return parse_epoch_millis(filename, fallback_timezone);
    }
    parse_epoch_millis(filename, fallback_timezone)
}

/// The leading-millisecond-count pattern, tried last.
fn parse_epoch_millis(filename: &str, fallback_timezone: Option<&str>) -> (r: Option<
    CivilDateTime,
>)
    requires
        match first_compact_match(filename@, 0) {
            Some(i) => !compact_fields(filename@, i).wf(),
            None => true,
        },
        match first_hyphen_match(filename@, 0) {
            Some(i) => !hyphen_fields(filename@, i).wf(),
            None => true,
        },
    ensures
        r == filename_datetime_spec(filename@, opt_str_view(fallback_timezone)),
        r matches Some(dt) ==> dt.wf() && 0 <= dt.year <= 9999,
{
    let n = filename.unicode_len();
    if n < 14 {
        return None;
    }
    let hi = match crate::parse::read_digits(filename, 0, 7) {
        Some(v) => v,
        None => {
            return None;
        },
    };
    let lo = match crate::parse::read_digits(filename, 7, 13) {
        Some(v) => v,
        None => {
            return None;
        },
    };
    if !(filename.get_char(13) == '.') {
        return None;
    }
    proof {
        lemma_digits_value_split(filename@, 0, 7, 13);
        lemma_digits_value_bound(filename@, 0, 7);
        lemma_digits_value_bound(filename@, 7, 13);
        reveal_with_fuel(pow10, 8);
    }
    let ms: u64 = (hi as u64) * 1_000_000 + (lo as u64);
    assert(ms == digits_value(filename@, 0, 13) && ms < 10_000_000_000_000);
    let secs: u64 = ms / 1000;
    let nanos: u32 = ((ms % 1000) as u32) * 1_000_000;
    let mut delta: i32 = 0;
    if let Some(z) = fallback_timezone {
        if let Some(off) = lookup_zone_utc_offset(z, secs as i64) {
            delta = off;
        }
    }
    proof {
        lemma_days_before_year_bounds(1970);
        lemma_days_before_year_bounds(10001);
    }
    let t: i64 = unix_epoch_seconds_exec() + (secs as i64) + (delta as i64);
    let dt = civil_from_seconds(t, nanos);
    proof {
        crate::civil::lemma_year_of_seconds_range(dt);
    }
    Some(dt)
}

} // verus!
