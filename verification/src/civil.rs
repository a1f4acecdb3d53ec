//! Civil (proleptic Gregorian) date-time values and calendar arithmetic.
//!
//! A [`CivilDateTime`] is a plain wall-clock reading: calendar date plus time
//! of day with nanosecond precision, carrying no timezone of its own.  The
//! same value is used for local readings and for UTC instants; which one it
//! is follows from where it sits in a result.
//!
//! Internally every value maps to a second count measured from the first
//! representable instant (the start of year -1), which makes offset
//! arithmetic and comparisons straightforward.  Years -1 and 10000 exist only
//! so that applying a UTC offset to a value of year 0 or 9999 stays
//! representable; parsers only ever produce four-digit years.

use vstd::prelude::*;

verus! {

/// A calendar date with a time of day, at nanosecond precision, without any
/// attached timezone or offset.
#[derive(Clone, Copy, Debug, PartialEq, Eq, Structural)]
pub struct CivilDateTime {
    pub year: i32,
    /// 1-based month, 1 = January.
    pub month: u8,
    /// 1-based day of the month.
    pub day: u8,
    pub hour: u8,
    pub minute: u8,
    pub second: u8,
    pub nanosecond: u32,
}

/// Gregorian leap-year rule.
pub open spec fn is_leap_year(y: int) -> bool {
    y % 4 == 0 && (y % 100 != 0 || y % 400 == 0)
}

pub open spec fn days_in_year(y: int) -> int {
    if is_leap_year(y) {
        366
    } else {
        365
    }
}

pub open spec fn days_in_month(y: int, m: int) -> int {
    if m == 1 {
        31
    } else if m == 2 {
        if is_leap_year(y) {
            29
        } else {
            28
        }
    } else if m == 3 {
        31
    } else if m == 4 {
        30
    } else if m == 5 {
        31
    } else if m == 6 {
        30
    } else if m == 7 {
        31
    } else if m == 8 {
        31
    } else if m == 9 {
        30
    } else if m == 10 {
        31
    } else if m == 11 {
        30
    } else {
        31
    }
}

/// Number of days from the start of year -1 (the epoch of this library's
/// internal day count) to the start of year `y`.
pub open spec fn days_before_year(y: int) -> int
    decreases y + 1,
{
    if y + 1 <= 0 {
        0
    } else {
        days_before_year(y - 1) + days_in_year(y - 1)
    }
}

/// Number of days in year `y` that lie before month `m`.
pub open spec fn days_before_month(y: int, m: int) -> int
    decreases m,
{
    if m <= 1 {
        0
    } else {
        days_before_month(y, m - 1) + days_in_month(y, m - 1)
    }
}

/// Day count of the date `(y, m, d)`, measured from -0001-01-01.
pub open spec fn day_index(y: int, m: int, d: int) -> int {
    days_before_year(y) + days_before_month(y, m) + d - 1
}

/// Exclusive upper bound of the internal second count: the start of year
/// 10001, which no representable value reaches.
pub open spec fn seconds_limit() -> int {
    days_before_year(10001) * 86400
}

impl CivilDateTime {
    /// The value denotes a real calendar date and time of day within the
    /// representable year range.
    pub open spec fn wf(self) -> bool {
        &&& -1 <= self.year <= 10000
        &&& 1 <= self.month <= 12
        &&& 1 <= self.day <= days_in_month(self.year as int, self.month as int)
        &&& self.hour < 24
        &&& self.minute < 60
        &&& self.second < 60
        &&& self.nanosecond < 1_000_000_000
    }

    /// Seconds (ignoring the nanosecond field) from -0001-01-01T00:00:00.
    pub open spec fn seconds(self) -> int {
        day_index(self.year as int, self.month as int, self.day as int) * 86400
            + self.hour as int * 3600 + self.minute as int * 60 + self.second as int
    }

    /// Total nanoseconds from -0001-01-01T00:00:00.
    pub open spec fn total_nanos(self) -> int {
        self.seconds() * 1_000_000_000 + self.nanosecond as int
    }
}

proof fn lemma_days_before_year_step(y: int)
    requires
        y >= -1,
    ensures
        days_before_year(y + 1) == days_before_year(y) + days_in_year(y),
{
    reveal_with_fuel(days_before_year, 2);
}

/// Each year adds between 365 and 366 days to the day count.
pub proof fn lemma_days_before_year_bounds(y: int)
    requires
        y >= -1,
    ensures
        365 * (y + 1) <= days_before_year(y) <= 366 * (y + 1),
    decreases y + 1,
{
    if y == -1 {
        reveal_with_fuel(days_before_year, 1);
    } else {
        lemma_days_before_year_bounds(y - 1);
        lemma_days_before_year_step(y - 1);
    }
}

/// The day count grows strictly with the year.
pub proof fn lemma_days_before_year_mono(y1: int, y2: int)
    requires
        -1 <= y1 <= y2,
    ensures
        days_before_year(y1) <= days_before_year(y2),
        y1 < y2 ==> days_before_year(y1) + days_in_year(y1) <= days_before_year(y2),
    decreases y2 - y1,
{
    if y1 < y2 {
        lemma_days_before_year_mono(y1 + 1, y2);
        lemma_days_before_year_step(y1);
    }
}

/// The months of a year exactly tile its day count.
pub proof fn lemma_months_tile_year(y: int)
    ensures
        days_before_month(y, 13) == days_in_year(y),
{
    reveal_with_fuel(days_before_month, 13);
}

/// Within a year, the day offset of a valid month/day pair lies inside the
/// year, and grows strictly with the month.
pub proof fn lemma_days_before_month_bounds(y: int, m: int)
    requires
        1 <= m <= 12,
    ensures
        0 <= days_before_month(y, m),
        days_before_month(y, m) + days_in_month(y, m) <= days_in_year(y),
    decreases 13 - m,
{
    lemma_days_before_month_nonneg(y, m);
    if m == 12 {
        lemma_months_tile_year(y);
        reveal_with_fuel(days_before_month, 2);
    } else {
        lemma_days_before_month_bounds(y, m + 1);
        reveal_with_fuel(days_before_month, 2);
        assert(days_before_month(y, m + 1) == days_before_month(y, m) + days_in_month(y, m));
        assert(days_in_month(y, m + 1) >= 28);
    }
}

proof fn lemma_days_before_month_nonneg(y: int, m: int)
    ensures
        0 <= days_before_month(y, m),
    decreases m,
{
    if m > 1 {
        lemma_days_before_month_nonneg(y, m - 1);
    }
}

/// The day index of a well-formed date lies within its year's slice of the
/// day count.
pub proof fn lemma_day_index_in_year(y: int, m: int, d: int)
    requires
        1 <= m <= 12,
        1 <= d <= days_in_month(y, m),
    ensures
        days_before_year(y) <= day_index(y, m, d),
        day_index(y, m, d) < days_before_year(y) + days_in_year(y),
{
    lemma_days_before_month_bounds(y, m);
}

/// Bounds of the internal second count over all well-formed values.
pub proof fn lemma_seconds_bounds(dt: CivilDateTime)
    requires
        dt.wf(),
    ensures
        0 <= dt.seconds() < seconds_limit(),
        dt.year >= 0 ==> dt.seconds() >= 365 * 86400,
        dt.year <= 9999 ==> dt.seconds() + 86400 <= seconds_limit(),
{
    let y = dt.year as int;
    lemma_day_index_in_year(y, dt.month as int, dt.day as int);
    lemma_days_before_year_bounds(y);
    lemma_days_before_year_mono(-1, y);
    lemma_days_before_year_mono(y, 10000);
    lemma_days_before_year_step(y);
    lemma_days_before_year_step(10000);
    assert(days_before_year(y) + days_in_year(y) <= days_before_year(10001)) by {
        lemma_days_before_year_mono(y + 1, 10001);
        lemma_days_before_year_step(y);
    }
    if dt.year >= 0 {
        lemma_days_before_year_mono(-1, 0);
        reveal_with_fuel(days_before_year, 2);
    }
    if dt.year <= 9999 {
        assert(days_before_year(y) + days_in_year(y) <= days_before_year(10000)) by {
            lemma_days_before_year_mono(y + 1, 10000);
            lemma_days_before_year_step(y);
        }
        lemma_days_before_year_step(10000);
    }
}

/// Two well-formed values with the same second count are the same date and
/// time of day.
pub proof fn lemma_seconds_injective(a: CivilDateTime, b: CivilDateTime)
    requires
        a.wf(),
        b.wf(),
        a.seconds() == b.seconds(),
    ensures
        a.year == b.year && a.month == b.month && a.day == b.day && a.hour == b.hour
            && a.minute == b.minute && a.second == b.second,
{
    let ida = day_index(a.year as int, a.month as int, a.day as int);
    let idb = day_index(b.year as int, b.month as int, b.day as int);
    lemma_day_index_in_year(a.year as int, a.month as int, a.day as int);
    lemma_day_index_in_year(b.year as int, b.month as int, b.day as int);
    // Equal second counts force equal day indices, since time of day < 86400.
    assert(ida == idb);
    // Equal day indices force equal years.
    if a.year < b.year {
        lemma_days_before_year_mono(a.year as int + 1, b.year as int);
        lemma_days_before_year_step(a.year as int);
        assert(false);
    }
    if b.year < a.year {
        lemma_days_before_year_mono(b.year as int + 1, a.year as int);
        lemma_days_before_year_step(b.year as int);
        assert(false);
    }
    // Equal years force equal months.
    lemma_days_before_month_mono_strict(a.year as int, a.month as int, b.month as int);
    lemma_days_before_month_mono_strict(a.year as int, b.month as int, a.month as int);
}

proof fn lemma_days_before_month_mono_strict(y: int, m1: int, m2: int)
    requires
        1 <= m1 <= 12,
        1 <= m2 <= 12,
    ensures
        m1 < m2 ==> days_before_month(y, m1) + days_in_month(y, m1) <= days_before_month(y, m2),
    decreases m2 - m1,
{
    if m1 < m2 {
        lemma_days_before_month_mono_strict(y, m1 + 1, m2);
        reveal_with_fuel(days_before_month, 2);
        assert(days_before_month(y, m1 + 1) == days_before_month(y, m1) + days_in_month(y, m1));
        if m1 + 1 < m2 {
            lemma_days_before_month_bounds(y, m1 + 1);
        }
    }
}

fn days_in_year_exec(y: i32) -> (n: i64)
    requires
        -1 <= y <= 10000,
    ensures
        n == days_in_year(y as int),
{
    if y == -1 {
        assert(!is_leap_year(-1));
        365
    } else if y % 4 == 0 && (y % 100 != 0 || y % 400 == 0) {
        366
    } else {
        365
    }
}

fn days_in_month_exec(y: i32, m: u8) -> (n: i64)
    requires
        -1 <= y <= 10000,
        1 <= m <= 12,
    ensures
        n == days_in_month(y as int, m as int),
{
    if m == 1 {
        31
    } else if m == 2 {
        if y >= 0 && y % 4 == 0 && (y % 100 != 0 || y % 400 == 0) {
            29
        } else if y == -1 {
            assert(!is_leap_year(-1));
            28
        } else {
            28
        }
    } else if m == 4 || m == 6 || m == 9 || m == 11 {
        30
    } else {
        31
    }
}

fn days_before_year_exec(y: i32) -> (n: i64)
    requires
        -1 <= y <= 10001,
    ensures
        n == days_before_year(y as int),
{
    let mut acc: i64 = 0;
    let mut i: i32 = -1;
    while i < y
        invariant
            -1 <= i <= y <= 10001,
            acc == days_before_year(i as int),
        decreases y - i,
    {
        proof {
            lemma_days_before_year_bounds(i as int);
            lemma_days_before_year_step(i as int);
        }
        let d = days_in_year_exec(i);
        acc = acc + d;
        i = i + 1;
    }
    acc
}

fn days_before_month_exec(y: i32, m: u8) -> (n: i64)
    requires
        -1 <= y <= 10000,
        1 <= m <= 12,
    ensures
        n == days_before_month(y as int, m as int),
{
    let mut acc: i64 = 0;
    let mut i: u8 = 1;
    while i < m
        invariant
            -1 <= y <= 10000,
            1 <= i <= m <= 12,
            acc == days_before_month(y as int, i as int),
        decreases m - i,
    {
        proof {
            lemma_days_before_month_bounds(y as int, i as int);
            reveal_with_fuel(days_before_month, 2);
        }
        let d = days_in_month_exec(y, i);
        acc = acc + d;
        i = i + 1;
    }
    acc
}

/// Second count of a well-formed value, for offset arithmetic and
/// comparisons.
pub fn civil_seconds(dt: &CivilDateTime) -> (t: i64)
    requires
        dt.wf(),
    ensures
        t == dt.seconds(),
{
    proof {
        lemma_seconds_bounds(*dt);
        lemma_days_before_year_bounds(dt.year as int);
        lemma_day_index_in_year(dt.year as int, dt.month as int, dt.day as int);
    }
    let days = days_before_year_exec(dt.year) + days_before_month_exec(dt.year, dt.month)
        + (dt.day as i64) - 1;
    days * 86400 + (dt.hour as i64) * 3600 + (dt.minute as i64) * 60 + (dt.second as i64)
}

/// The extreme years are only reachable from the extreme ends of the
/// second count.
pub proof fn lemma_year_of_seconds_range(dt: CivilDateTime)
    requires
        dt.wf(),
    ensures
        dt.seconds() >= 366 * 86400 ==> dt.year >= 0,
        dt.seconds() < 365 * 10001 * 86400 ==> dt.year <= 9999,
{
    lemma_day_index_in_year(dt.year as int, dt.month as int, dt.day as int);
    if dt.year == -1 {
        reveal_with_fuel(days_before_year, 1);
        assert(dt.seconds() < 366 * 86400);
    }
    if dt.year == 10000 {
        lemma_days_before_year_bounds(10000);
        assert(dt.seconds() >= 365 * 10001 * 86400);
    }
}

/// Second count of the Unix epoch, 1970-01-01T00:00:00, in the internal
/// time scale.
pub open spec fn unix_epoch_seconds() -> int {
    days_before_year(1970) * 86400
}

pub fn unix_epoch_seconds_exec() -> (t: i64)
    ensures
        t == unix_epoch_seconds(),
        365 * 1971 * 86400 <= t <= 366 * 1971 * 86400,
{
    proof {
        lemma_days_before_year_bounds(1970);
    }
    days_before_year_exec(1970) * 86400
}

/// The well-formed value with second count `t` and the given nanosecond
/// field.
pub open spec fn civil_of_seconds(t: int, nanosecond: int) -> CivilDateTime {
    choose|dt: CivilDateTime|
        dt.wf() && dt.seconds() == t && dt.nanosecond == nanosecond
}

/// The well-formed value with second count `t` and the given nanosecond
/// field; the inverse of [`civil_seconds`].
pub fn civil_from_seconds(t: i64, nanosecond: u32) -> (dt: CivilDateTime)
    requires
        0 <= t < seconds_limit(),
        nanosecond < 1_000_000_000,
    ensures
        dt.wf(),
        dt.seconds() == t,
        dt.nanosecond == nanosecond,
        dt == civil_of_seconds(t as int, nanosecond as int),
{
    proof {
        lemma_days_before_year_bounds(10001);
    }
    let day: i64 = t / 86400;
    let sod: i64 = t % 86400;
    assert(day * 86400 + sod == t && 0 <= sod < 86400 && 0 <= day < days_before_year(10001))
        by (nonlinear_arith)
        requires
            0 <= t < days_before_year(10001) * 86400,
            day == t / 86400,
            sod == t % 86400,
    ;

    let mut y: i32 = -1;
    let mut acc: i64 = 0;
    loop
        invariant
            -1 <= y <= 10000,
            acc == days_before_year(y as int),
            acc <= day < days_before_year(10001),
        ensures
            -1 <= y <= 10000,
            acc == days_before_year(y as int),
            acc <= day,
            day < acc + days_in_year(y as int),
        decreases 10001 - y,
    {
        proof {
            lemma_days_before_year_step(y as int);
            lemma_days_before_year_bounds(y as int);
        }
        let dy = days_in_year_exec(y);
        if acc + dy <= day {
            proof {
                if y == 10000 {
                    lemma_days_before_year_step(10000);
                    assert(false);
                }
            }
            acc = acc + dy;
            y = y + 1;
        } else {
            break;
        }
    }

    let mut m: u8 = 1;
    let mut rem: i64 = day - acc;
    proof {
        lemma_months_tile_year(y as int);
    }
    loop
        invariant
            1 <= m <= 12,
            rem == day - acc - days_before_month(y as int, m as int),
            0 <= rem,
            days_before_month(y as int, m as int) + rem < days_in_year(y as int),
            -1 <= y <= 10000,
            acc == days_before_year(y as int),
        ensures
            1 <= m <= 12,
            rem == day - acc - days_before_month(y as int, m as int),
            0 <= rem < days_in_month(y as int, m as int),
            -1 <= y <= 10000,
            acc == days_before_year(y as int),
        decreases 13 - m,
    {
        proof {
            lemma_days_before_month_bounds(y as int, m as int);
            reveal_with_fuel(days_before_month, 2);
        }
        let dm = days_in_month_exec(y, m);
        if rem >= dm {
            proof {
                if m == 12 {
                    lemma_months_tile_year(y as int);
                    reveal_with_fuel(days_before_month, 2);
                    assert(false);
                }
            }
            rem = rem - dm;
            m = m + 1;
        } else {
            break;
        }
    }
    proof {
        lemma_days_before_month_bounds(y as int, m as int);
    }

    let hour = (sod / 3600) as u8;
    let minute = ((sod % 3600) / 60) as u8;
    let second = (sod % 60) as u8;
    assert(hour as int * 3600 + minute as int * 60 + second as int == sod && hour < 24 && minute
        < 60 && second < 60) by (nonlinear_arith)
        requires
            0 <= sod < 86400,
            hour == (sod / 3600) as u8,
            minute == ((sod % 3600) / 60) as u8,
            second == (sod % 60) as u8,
    ;

    let dt = CivilDateTime {
        year: y,
        month: m,
        day: (rem + 1) as u8,
        hour,
        minute,
        second,
        nanosecond,
    };
    proof {
        assert(dt.wf() && dt.seconds() == t && dt.nanosecond == nanosecond);
        let c = civil_of_seconds(t as int, nanosecond as int);
        assert(c.wf() && c.seconds() == t && c.nanosecond == nanosecond);
        lemma_seconds_injective(c, dt);
        assert(c == dt);
    }
    dt
}


/// The character for a single decimal digit.
pub open spec fn digit_char(d: int) -> char {
    if d == 0 {
        '0'
    } else if d == 1 {
        '1'
    } else if d == 2 {
        '2'
    } else if d == 3 {
        '3'
    } else if d == 4 {
        '4'
    } else if d == 5 {
        '5'
    } else if d == 6 {
        '6'
    } else if d == 7 {
        '7'
    } else if d == 8 {
        '8'
    } else {
        '9'
    }
}

/// The decimal rendering of `n`, zero-padded to exactly `width` digits.
pub open spec fn padded_digits(n: int, width: nat) -> Seq<char>
    decreases width,
{
    if width == 0 {
        Seq::empty()
    } else {
        padded_digits(n / 10, (width - 1) as nat) + seq![digit_char(n % 10)]
    }
}

/// The display form of a UTC offset, sign then zero-padded hours, a colon
/// and zero-padded minutes, as in `+01:00`.
pub open spec fn offset_label(secs: int) -> Seq<char> {
    let sign = if secs < 0 {
        "-"@
    } else {
        "+"@
    };
    let a = if secs < 0 {
        -secs
    } else {
        secs
    };
    sign + padded_digits(a / 3600, 2) + ":"@ + padded_digits((a % 3600) / 60, 2)
}

/// The digits of the year field: four digits for common years, with a sign
/// prefix outside 0..=9999.
pub open spec fn year_label(y: int) -> Seq<char> {
    if y < 0 {
        "-"@ + padded_digits(-y, 4)
    } else if y <= 9999 {
        padded_digits(y, 4)
    } else {
        "+"@ + padded_digits(y, 5)
    }
}

/// The fractional-second part of an RFC 3339 rendering: empty for zero,
/// else a dot and the shortest of 3, 6 or 9 digits that renders the value
/// exactly.
pub open spec fn frac_label(nanos: int) -> Seq<char> {
    if nanos == 0 {
        Seq::empty()
    } else if nanos % 1_000_000 == 0 {
        "."@ + padded_digits(nanos / 1_000_000, 3)
    } else if nanos % 1_000 == 0 {
        "."@ + padded_digits(nanos / 1_000, 6)
    } else {
        "."@ + padded_digits(nanos, 9)
    }
}

/// The RFC 3339 rendering of a value read as a UTC instant.
pub open spec fn rfc3339_utc_label(dt: CivilDateTime) -> Seq<char> {
    year_label(dt.year as int) + "-"@ + padded_digits(dt.month as int, 2) + "-"@ + padded_digits(
        dt.day as int,
        2,
    ) + "T"@ + padded_digits(dt.hour as int, 2) + ":"@ + padded_digits(dt.minute as int, 2) + ":"@
        + padded_digits(dt.second as int, 2) + frac_label(dt.nanosecond as int) + "+00:00"@
}

fn digit_str(d: u64) -> (r: &'static str)
    requires
        d < 10,
    ensures
        r@ == seq![digit_char(d as int)],
{
    let r: &'static str = if d == 0 {
        "0"
    } else if d == 1 {
        "1"
    } else if d == 2 {
        "2"
    } else if d == 3 {
        "3"
    } else if d == 4 {
        "4"
    } else if d == 5 {
        "5"
    } else if d == 6 {
        "6"
    } else if d == 7 {
        "7"
    } else if d == 8 {
        "8"
    } else {
        "9"
    };
    proof {
        reveal_strlit("0");
        reveal_strlit("1");
        reveal_strlit("2");
        reveal_strlit("3");
        reveal_strlit("4");
        reveal_strlit("5");
        reveal_strlit("6");
        reveal_strlit("7");
        reveal_strlit("8");
        reveal_strlit("9");
        assert(r@ =~= seq![digit_char(d as int)]);
    }
    r
}

fn padded_digits_exec(n: u64, width: u8) -> (r: String)
    ensures
        r@ == padded_digits(n as int, width as nat),
    decreases width,
{
    if width == 0 {
        let r = String::from_str("");
        proof {
            reveal_strlit("");
            assert(r@ =~= padded_digits(n as int, 0));
        }
        r
    } else {
        let p = padded_digits_exec(n / 10, width - 1);
        p.concat(digit_str(n % 10))
    }
}

/// Renders a UTC offset for display, as in `+01:00` or `-07:30`.
pub fn format_offset_string(secs: i32) -> (r: String)
    requires
        -86400 < secs < 86400,
    ensures
        r@ == offset_label(secs as int),
{
    let neg = secs < 0;
    let a: i32 = if neg {
        -secs
    } else {
        secs
    };
    let sign: &'static str = if neg {
        "-"
    } else {
        "+"
    };
    String::from_str(sign).concat(padded_digits_exec((a / 3600) as u64, 2).as_str()).concat(
        ":",
    ).concat(padded_digits_exec(((a % 3600) / 60) as u64, 2).as_str())
}

impl CivilDateTime {
    /// The value with the given fields when they denote a real calendar
    /// date and time of day, `None` otherwise.
    pub fn from_fields(
        year: i32,
        month: u8,
        day: u8,
        hour: u8,
        minute: u8,
        second: u8,
        nanosecond: u32,
    ) -> (r: Option<CivilDateTime>)
        ensures
            ({
                let dt = CivilDateTime { year, month, day, hour, minute, second, nanosecond };
                r == if dt.wf() {
                    Some(dt)
                } else {
                    None::<CivilDateTime>
                }
            }),
    {
        if -1 <= year && year <= 10000 && 1 <= month && month <= 12 && hour < 24 && minute < 60
            && second < 60 && nanosecond < 1_000_000_000 {
            let dim = days_in_month_exec(year, month);
            if 1 <= day as i64 && day as i64 <= dim {
                return Some(CivilDateTime { year, month, day, hour, minute, second, nanosecond });
            }
        }
        None
    }

    /// Renders the value as an RFC 3339 timestamp read as UTC, as in
    /// `2017-11-06T10:03:19+00:00`; a nonzero nanosecond field appears as
    /// the shortest exact fraction of 3, 6 or 9 digits.
    pub fn to_rfc3339_utc(&self) -> (r: String)
        requires
            self.wf(),
        ensures
            r@ == rfc3339_utc_label(*self),
    {
        let mut out: String;
        if self.year < 0 {
            out = String::from_str("-").concat(
                padded_digits_exec((-(self.year as i64)) as u64, 4).as_str(),
            );
        } else if self.year <= 9999 {
            out = padded_digits_exec(self.year as u64, 4);
        } else {
            out = String::from_str("+").concat(padded_digits_exec(self.year as u64, 5).as_str());
        }
        out = out.concat("-").concat(padded_digits_exec(self.month as u64, 2).as_str());
        out = out.concat("-").concat(padded_digits_exec(self.day as u64, 2).as_str());
        out = out.concat("T").concat(padded_digits_exec(self.hour as u64, 2).as_str());
        out = out.concat(":").concat(padded_digits_exec(self.minute as u64, 2).as_str());
        out = out.concat(":").concat(padded_digits_exec(self.second as u64, 2).as_str());
        if self.nanosecond != 0 {
            if self.nanosecond % 1_000_000 == 0 {
                out = out.concat(".").concat(
                    padded_digits_exec((self.nanosecond / 1_000_000) as u64, 3).as_str(),
                );
            } else if self.nanosecond % 1_000 == 0 {
                out = out.concat(".").concat(
                    padded_digits_exec((self.nanosecond / 1_000) as u64, 6).as_str(),
                );
            } else {
                out = out.concat(".").concat(padded_digits_exec(self.nanosecond as u64, 9).as_str());
            }
        }
        out = out.concat("+00:00");
        out
    }
}

/// The UTC reading obtained by removing a UTC offset from a local
/// reading: the same instant, `off` seconds earlier on the wall clock.
pub open spec fn shifted_utc(local: CivilDateTime, off: int) -> CivilDateTime {
    civil_of_seconds(local.seconds() - off, local.nanosecond as int)
}

/// Applies a UTC offset to a local reading, yielding the UTC wall-clock
/// value of the same instant.
pub fn shift_to_utc(local: &CivilDateTime, off: i32) -> (r: CivilDateTime)
    requires
        local.wf(),
        0 <= local.year <= 9999,
        -86400 < off < 86400,
    ensures
        r == shifted_utc(*local, off as int),
        r.wf(),
{
    proof {
        lemma_seconds_bounds(*local);
        lemma_days_before_year_bounds(10001);
    }
    let t = civil_seconds(local);
    civil_from_seconds(t - (off as i64), local.nanosecond)
}

} // verus!
