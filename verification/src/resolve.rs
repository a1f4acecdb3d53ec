//! The priority resolution engine.
//!
//! Eight cascade levels are tried in order; the first applicable one
//! decides the result, and later levels are never consulted.  The whole
//! decision procedure is a function of the document, the GPS-derived zone
//! name and the fallback zone, captured by [`resolve_spec`]; the public
//! entry point returns exactly that value or the extraction error when no
//! level applies.

use crate::civil::{civil_seconds, lemma_seconds_bounds, shift_to_utc, shifted_utc, offset_label,
    format_offset_string, CivilDateTime};
use crate::doc::MetaValue;
use crate::extract::{
    components_wf, extract_spec, extract_time_components, ExtractedTimeComponents,
    ExtractedTimeComponentsV,
};
use crate::filename::opt_str_view;
use crate::types::{SourceDetails, SourceDetailsV, TimeError, TimeInfo, TimeInfoV, TimeZoneInfo,
    TimeZoneInfoV};
use crate::zone::{lookup_zone_local_offset, zone_local_offset};
use vstd::prelude::*;

verus! {

/// The consistency tolerance of the confirmed-UTC level, in nanoseconds:
/// readings are consistent when their whole-second difference is at most
/// ten seconds, inclusive.
pub open spec fn within_gps_tolerance(a_ns: int, b_ns: int) -> bool {
    -11_000_000_000 < a_ns - b_ns < 11_000_000_000
}

/// The offset the named zone assigns to a wall-clock reading, by the
/// reading's calendar fields.
pub open spec fn zone_offset_of(zone: Seq<char>, dt: CivilDateTime) -> Option<i32> {
    zone_local_offset(
        zone,
        dt.year as int,
        dt.month as int,
        dt.day as int,
        dt.hour as int,
        dt.minute as int,
        dt.second as int,
    )
}

/// Confirmed UTC: a local reading, a direct-UTC reading and a GPS zone all
/// exist, the local reading resolves in the zone, and the two instants
/// agree within tolerance.  The direct-UTC value is trusted; the local
/// value is kept verbatim.
pub open spec fn confirmed_utc_result(c: ExtractedTimeComponentsV, gz: Option<Seq<char>>) -> Option<
    TimeInfoV,
> {
    match (c.best_local, c.potential_utc, gz) {
        (Some((local, lsrc)), Some((utc, usrc)), Some(zone)) => match zone_offset_of(zone, local) {
            Some(off) => if within_gps_tolerance(
                local.total_nanos() - off * 1_000_000_000,
                utc.total_nanos(),
            ) {
                Some(
                    TimeInfoV {
                        datetime_utc: Some(utc),
                        datetime_local: local,
                        timezone: Some(
                            TimeZoneInfoV {
                                name: zone,
                                offset_seconds: off as int,
                                source: usrc + " confirmed by "@ + lsrc + " @ GPS location"@,
                            },
                        ),
                        source_details: SourceDetailsV {
                            time_source: lsrc,
                            confidence: "High"@,
                        },
                    },
                )
            } else {
                None
            },
            None => None,
        },
        _ => None,
    }
}

/// Zoned time: the local reading interpreted in the GPS-derived zone, with
/// the earlier instant taken when the reading is ambiguous.
pub open spec fn zoned_result(local: CivilDateTime, lsrc: Seq<char>, gz: Option<Seq<char>>) -> Option<
    TimeInfoV,
> {
    match gz {
        Some(zone) => match zone_offset_of(zone, local) {
            Some(off) => Some(
                TimeInfoV {
                    datetime_utc: Some(shifted_utc(local, off as int)),
                    datetime_local: local,
                    timezone: Some(
                        TimeZoneInfoV {
                            name: zone,
                            offset_seconds: off as int,
                            source: "IANA from GPS"@,
                        },
                    ),
                    source_details: SourceDetailsV { time_source: lsrc, confidence: "High"@ },
                },
            ),
            None => None,
        },
        None => None,
    }
}

/// The cascade over extracted components and the GPS-derived zone name.
/// Levels, in order: confirmed UTC; zoned time; fixed offset; hybrid
/// local-plus-UTC; naive with an offset guessed from the file time; naive
/// only; UTC only; file time only.
pub open spec fn cascade_spec(c: ExtractedTimeComponentsV, gz: Option<Seq<char>>) -> Option<
    TimeInfoV,
> {
    let confirmed = confirmed_utc_result(c, gz);
    if confirmed is Some {
        confirmed
    } else {
        match c.best_local {
            Some((local, lsrc)) => {
                let zoned = zoned_result(local, lsrc, gz);
                if zoned is Some {
                    zoned
                } else {
                    match c.potential_explicit_offset {
                        Some((off, disp, osrc)) => Some(
                            TimeInfoV {
                                datetime_utc: Some(shifted_utc(local, off)),
                                datetime_local: local,
                                timezone: Some(
                                    TimeZoneInfoV {
                                        name: disp,
                                        offset_seconds: off,
                                        source: osrc,
                                    },
                                ),
                                source_details: SourceDetailsV {
                                    time_source: lsrc,
                                    confidence: "High"@,
                                },
                            },
                        ),
                        None => match c.potential_utc {
                            Some((utc, usrc)) => Some(
                                TimeInfoV {
                                    datetime_utc: Some(utc),
                                    datetime_local: local,
                                    timezone: Some(
                                        TimeZoneInfoV {
                                            name: "UTC"@,
                                            offset_seconds: 0,
                                            source: usrc,
                                        },
                                    ),
                                    source_details: SourceDetailsV {
                                        time_source: lsrc + " + "@ + usrc,
                                        confidence: "Medium"@,
                                    },
                                },
                            ),
                            None => match c.potential_file_dt {
                                Some((_, foff, fsrc)) => Some(
                                    TimeInfoV {
                                        datetime_utc: Some(shifted_utc(local, foff)),
                                        datetime_local: local,
                                        timezone: Some(
                                            TimeZoneInfoV {
                                                name: offset_label(foff),
                                                offset_seconds: foff,
                                                source: "Guessed from "@ + fsrc,
                                            },
                                        ),
                                        source_details: SourceDetailsV {
                                            time_source: lsrc,
                                            confidence: "Medium"@,
                                        },
                                    },
                                ),
                                None => Some(
                                    TimeInfoV {
                                        datetime_utc: None,
                                        datetime_local: local,
                                        timezone: None,
                                        source_details: SourceDetailsV {
                                            time_source: lsrc,
                                            confidence: "Low"@,
                                        },
                                    },
                                ),
                            },
                        },
                    }
                }
            },
            None => match c.potential_utc {
                Some((utc, usrc)) => Some(
                    TimeInfoV {
                        datetime_utc: Some(utc),
                        datetime_local: utc,
                        timezone: Some(
                            TimeZoneInfoV { name: "UTC"@, offset_seconds: 0, source: usrc },
                        ),
                        source_details: SourceDetailsV { time_source: usrc, confidence: "High"@ },
                    },
                ),
                None => match c.potential_file_dt {
                    Some((fdt, foff, fsrc)) => Some(
                        TimeInfoV {
                            datetime_utc: Some(shifted_utc(fdt, foff)),
                            datetime_local: fdt,
                            timezone: Some(
                                TimeZoneInfoV {
                                    name: offset_label(foff),
                                    offset_seconds: foff,
                                    source: fsrc,
                                },
                            ),
                            source_details: SourceDetailsV {
                                time_source: fsrc,
                                confidence: "Low"@,
                            },
                        },
                    ),
                    None => None,
                },
            },
        }
    }
}

/// The whole resolution as a function of its inputs: extraction followed
/// by the cascade.
pub open spec fn resolve_spec(
    doc: MetaValue,
    gps_zone: Option<Seq<char>>,
    fallback_zone: Option<Seq<char>>,
) -> Option<TimeInfoV> {
    cascade_spec(extract_spec(doc, fallback_zone), gps_zone)
}

/// Whether two instants agree within the confirmed-UTC tolerance, by their
/// second counts and nanosecond fields.
fn tolerance_check(ts_a: i64, na: u32, off: i32, ts_b: i64, nb: u32) -> (r: bool)
    requires
        0 <= ts_a < 400_000_000_000,
        0 <= ts_b < 400_000_000_000,
        -86400 < off < 86400,
        na < 1_000_000_000,
        nb < 1_000_000_000,
    ensures
        r == within_gps_tolerance(
            (ts_a * 1_000_000_000 + na) - off * 1_000_000_000,
            ts_b * 1_000_000_000 + nb,
        ),
{
    let d_sec: i64 = ts_a - (off as i64) - ts_b;
    if d_sec > 12 || d_sec < -12 {
        return false;
    }
    let d_ns: i64 = d_sec * 1_000_000_000 + (na as i64) - (nb as i64);
    -11_000_000_000 < d_ns && d_ns < 11_000_000_000
}

/// Applies the cascade to extracted components.
fn apply_priority_logic(components: &ExtractedTimeComponents, gps_zone: Option<&str>) -> (r: Option<
    TimeInfo,
>)
    requires
        components_wf(components@),
    ensures
        match r {
            Some(t) => cascade_spec(components@, opt_str_view(gps_zone)) == Some(t@),
            None => cascade_spec(components@, opt_str_view(gps_zone)) is None,
        },
{
    // --- Level 1: confirmed UTC. ---
    if let (Some((local, lsrc)), Some((utc, usrc)), Some(zone)) = (
        &components.best_local,
        &components.potential_utc,
        gps_zone,
    ) {
        if let Some(off) = lookup_zone_local_offset(
            zone,
            local.year,
            local.month,
            local.day,
            local.hour,
            local.minute,
            local.second,
        ) {
            proof {
                lemma_seconds_bounds(*local);
                lemma_seconds_bounds(*utc);
                crate::civil::lemma_days_before_year_bounds(10001);
            }
            let ts_l = civil_seconds(local);
            let ts_u = civil_seconds(utc);
            if tolerance_check(ts_l, local.nanosecond, off, ts_u, utc.nanosecond) {
                let tz_source = String::from_str(usrc.as_str()).concat(" confirmed by ").concat(
                    lsrc.as_str(),
                ).concat(" @ GPS location");
                return Some(
                    TimeInfo {
                        datetime_utc: Some(*utc),
                        datetime_local: *local,
                        timezone: Some(
                            TimeZoneInfo {
                                name: String::from_str(zone),
                                offset_seconds: off,
                                source: tz_source,
                            },
                        ),
                        source_details: SourceDetails {
                            time_source: String::from_str(lsrc.as_str()),
                            confidence: String::from_str("High"),
                        },
                    },
                );
            }
        }
    }

    if let Some((local, lsrc)) = &components.best_local {
        let local = *local;
        // --- Level 2: zoned time. ---
        if let Some(zone) = gps_zone {
            if let Some(off) = lookup_zone_local_offset(
                zone,
                local.year,
                local.month,
                local.day,
                local.hour,
                local.minute,
                local.second,
            ) {
                let utc = shift_to_utc(&local, off);
                return Some(
                    TimeInfo {
                        datetime_utc: Some(utc),
                        datetime_local: local,
                        timezone: Some(
                            TimeZoneInfo {
                                name: String::from_str(zone),
                                offset_seconds: off,
                                source: String::from_str("IANA from GPS"),
                            },
                        ),
                        source_details: SourceDetails {
                            time_source: String::from_str(lsrc.as_str()),
                            confidence: String::from_str("High"),
                        },
                    },
                );
            }
        }

        // --- Level 3: fixed offset. ---
        if let Some((off, disp, osrc)) = &components.potential_explicit_offset {
            let utc = shift_to_utc(&local, *off);
            return Some(
                TimeInfo {
                    datetime_utc: Some(utc),
                    datetime_local: local,
                    timezone: Some(
                        TimeZoneInfo {
                            name: String::from_str(disp.as_str()),
                            offset_seconds: *off,
                            source: String::from_str(osrc.as_str()),
                        },
                    ),
                    source_details: SourceDetails {
                        time_source: String::from_str(lsrc.as_str()),
                        confidence: String::from_str("High"),
                    },
                },
            );
        }

        // --- Level 4: hybrid local plus unconfirmed UTC. ---
        if let Some((utc, usrc)) = &components.potential_utc {
            return Some(
                TimeInfo {
                    datetime_utc: Some(*utc),
                    datetime_local: local,
                    timezone: Some(
                        TimeZoneInfo {
                            name: String::from_str("UTC"),
                            offset_seconds: 0,
                            source: String::from_str(usrc.as_str()),
                        },
                    ),
                    source_details: SourceDetails {
                        time_source: String::from_str(lsrc.as_str()).concat(" + ").concat(
                            usrc.as_str(),
                        ),
                        confidence: String::from_str("Medium"),
                    },
                },
            );
        }

        // --- Level 5: naive with an offset guessed from the file time. ---
        if let Some((_, foff, fsrc)) = &components.potential_file_dt {
            let utc = shift_to_utc(&local, *foff);
            return Some(
                TimeInfo {
                    datetime_utc: Some(utc),
                    datetime_local: local,
                    timezone: Some(
                        TimeZoneInfo {
                            name: format_offset_string(*foff),
                            offset_seconds: *foff,
                            source: String::from_str("Guessed from ").concat(fsrc.as_str()),
                        },
                    ),
                    source_details: SourceDetails {
                        time_source: String::from_str(lsrc.as_str()),
                        confidence: String::from_str("Medium"),
                    },
                },
            );
        }

        // --- Level 6: naive only. ---
        return Some(
            TimeInfo {
                datetime_utc: None,
                datetime_local: local,
                timezone: None,
                source_details: SourceDetails {
                    time_source: String::from_str(lsrc.as_str()),
                    confidence: String::from_str("Low"),
                },
            },
        );
    }

    // --- Level 7: UTC only. ---
    if let Some((utc, usrc)) = &components.potential_utc {
        return Some(
            TimeInfo {
                datetime_utc: Some(*utc),
                datetime_local: *utc,
                timezone: Some(
                    TimeZoneInfo {
                        name: String::from_str("UTC"),
                        offset_seconds: 0,
                        source: String::from_str(usrc.as_str()),
                    },
                ),
                source_details: SourceDetails {
                    time_source: String::from_str(usrc.as_str()),
                    confidence: String::from_str("High"),
                },
            },
        );
    }

    // --- Level 8: file time only. ---
    if let Some((fdt, foff, fsrc)) = &components.potential_file_dt {
        let utc = shift_to_utc(fdt, *foff);
        return Some(
            TimeInfo {
                datetime_utc: Some(utc),
                datetime_local: *fdt,
                timezone: Some(
                    TimeZoneInfo {
                        name: format_offset_string(*foff),
                        offset_seconds: *foff,
                        source: String::from_str(fsrc.as_str()),
                    },
                ),
                source_details: SourceDetails {
                    time_source: String::from_str(fsrc.as_str()),
                    confidence: String::from_str("Low"),
                },
            },
        );
    }

    None
}

/// Resolves the best-effort timestamp of a media file from its metadata
/// document, the IANA zone name derived from its GPS position (when one is
/// available), and an optional fallback zone used only when a filename
/// carries a millisecond-count timestamp.  Returns the resolved record of
/// the highest applicable cascade level, or the extraction error when no
/// level applies.
pub fn get_time_info(
    doc: &MetaValue,
    gps_zone: Option<&str>,
    fallback_timezone: Option<&str>,
) -> (r: Result<TimeInfo, TimeError>)
    ensures
        match r {
            Ok(t) => resolve_spec(
                *doc,
                opt_str_view(gps_zone),
                opt_str_view(fallback_timezone),
            ) == Some(t@),
            Err(e) => resolve_spec(*doc, opt_str_view(gps_zone), opt_str_view(fallback_timezone))
                is None && e == TimeError::Extraction,
        },
{
    let components = extract_time_components(doc, fallback_timezone);
    match apply_priority_logic(&components, gps_zone) {
        Some(t) => Ok(t),
        None => Err(TimeError::Extraction),
    }
}

} // verus!
