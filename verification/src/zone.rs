//! Trusted access to the IANA timezone database.
//!
//! Interpreting a wall-clock reading in a named timezone — and finding the
//! zone's UTC offset at a given instant — requires the zone's full history of
//! offset and daylight-saving rules.  That database lives in the chrono-tz
//! crate, compiled in; this module wraps the two lookups the resolver needs
//! behind trusted contracts.  Both results are functions of the arguments
//! alone, so each is given a name that the resolver's own contracts build on.

use vstd::prelude::*;

verus! {

pub uninterp spec fn zone_local_offset(
    zone: Seq<char>,
    y: int,
    mo: int,
    d: int,
    h: int,
    mi: int,
    s: int,
) -> Option<i32>;

pub uninterp spec fn zone_utc_offset(zone: Seq<char>, t: int) -> Option<i32>;

/// Relies on chrono-tz's `Tz::from_str` and chrono's
/// `TimeZone::with_ymd_and_hms`: the offset that the named zone assigns to
/// the given wall-clock reading.  `None` when the name is not an IANA zone
/// or the reading falls in a gap (a spring-forward hour).  When the reading
/// is ambiguous (a repeated fall-back hour), this is the offset of the
/// earlier of the two instants.  The zone rules are compiled into the crate,
/// so the result depends on the arguments alone; a returned offset is
/// smaller in magnitude than one day, an invariant of chrono's `FixedOffset`.
#[verifier::external_body]
pub fn lookup_zone_local_offset(zone: &str, y: i32, mo: u8, d: u8, h: u8, mi: u8, s: u8) -> (r:
    Option<i32>)
    ensures
        r == zone_local_offset(zone@, y as int, mo as int, d as int, h as int, mi as int, s as int),
        r matches Some(off) ==> -86400 < off < 86400,
{
    let tz: chrono_tz::Tz = match zone.parse() {
        Ok(t) => t,
        Err(_) => return None,
    };
    match chrono::TimeZone::with_ymd_and_hms(&tz, y, mo as u32, d as u32, h as u32, mi as u32, s as u32) {
        chrono::LocalResult::Single(dt) => Some(chrono::Offset::fix(dt.offset()).local_minus_utc()),
        chrono::LocalResult::Ambiguous(earlier, _) => Some(
            chrono::Offset::fix(earlier.offset()).local_minus_utc(),
        ),
        chrono::LocalResult::None => None,
    }
}

/// Relies on chrono-tz's `Tz::from_str` and chrono's
/// `TimeZone::timestamp_opt`: the offset that the named zone is at during
/// the UTC instant `t` seconds after the Unix epoch.  `None` when the name
/// is not an IANA zone or the instant is outside chrono's range.  The zone
/// rules are compiled into the crate, so the result depends on the arguments
/// alone; a returned offset is smaller in magnitude than one day, an
/// invariant of chrono's `FixedOffset`.
#[verifier::external_body]
pub fn lookup_zone_utc_offset(zone: &str, t: i64) -> (r: Option<i32>)
    ensures
        r == zone_utc_offset(zone@, t as int),
        r matches Some(off) ==> -86400 < off < 86400,
{
    let tz: chrono_tz::Tz = match zone.parse() {
        Ok(t) => t,
        Err(_) => return None,
    };
    match chrono::TimeZone::timestamp_opt(&tz, t, 0) {
        chrono::LocalResult::Single(dt) => Some(chrono::Offset::fix(dt.offset()).local_minus_utc()),
        chrono::LocalResult::Ambiguous(dt, _) => Some(
            chrono::Offset::fix(dt.offset()).local_minus_utc(),
        ),
        chrono::LocalResult::None => None,
    }
}

} // verus!
