//! Extraction of the four time components from a metadata document.
//!
//! The scan walks fixed priority lists of field names: the best naive
//! (local) timestamp with its subsecond companion, a direct-UTC candidate
//! from satellite time fields, an explicit UTC-offset declaration, and a
//! file-system timestamp.  Every provenance label names the field(s)
//! actually consulted.

use crate::civil::CivilDateTime;
use crate::doc::{
    get_number_field, get_string_field, number_field_spec, string_field_spec, MetaValue,
};
use crate::filename::{filename_datetime_spec, opt_str_view, parse_datetime_from_filename};
use crate::parse::{
    add_subseconds_from_number, datetime_offset_spec, merge_subseconds, naive_datetime_spec,
    offset_string_spec, parse_datetime_offset, parse_datetime_utc_z, parse_naive,
    parse_offset_string, utc_z_spec,
};
use vstd::prelude::*;

verus! {

/// The intermediate components of one resolution call, each with the
/// provenance label of the field(s) it came from.
#[derive(Debug)]
pub struct ExtractedTimeComponents {
    /// The highest-priority embedded local timestamp, with subseconds
    /// merged in.
    pub best_local: Option<(CivilDateTime, String)>,
    /// A direct UTC timestamp, typically satellite-derived.
    pub potential_utc: Option<(CivilDateTime, String)>,
    /// An explicit UTC-offset declaration: seconds, display string, source
    /// field.
    pub potential_explicit_offset: Option<(i32, String, String)>,
    /// A file-system timestamp with its own offset: wall-clock fields,
    /// offset seconds, source field.
    pub potential_file_dt: Option<(CivilDateTime, i32, String)>,
}

/// Spec-level image of [`ExtractedTimeComponents`].
pub ghost struct ExtractedTimeComponentsV {
    pub best_local: Option<(CivilDateTime, Seq<char>)>,
    pub potential_utc: Option<(CivilDateTime, Seq<char>)>,
    pub potential_explicit_offset: Option<(int, Seq<char>, Seq<char>)>,
    pub potential_file_dt: Option<(CivilDateTime, int, Seq<char>)>,
}

impl View for ExtractedTimeComponents {
    type V = ExtractedTimeComponentsV;

    open spec fn view(&self) -> ExtractedTimeComponentsV {
        ExtractedTimeComponentsV {
            best_local: match self.best_local {
                Some((dt, s)) => Some((dt, s@)),
                None => None,
            },
            potential_utc: match self.potential_utc {
                Some((dt, s)) => Some((dt, s@)),
                None => None,
            },
            potential_explicit_offset: match self.potential_explicit_offset {
                Some((off, d, s)) => Some((off as int, d@, s@)),
                None => None,
            },
            potential_file_dt: match self.potential_file_dt {
                Some((dt, off, s)) => Some((dt, off as int, s@)),
                None => None,
            },
        }
    }
}

/// The naive-timestamp priority list: subsecond-bearing fields first, then
/// standard capture fields, then modification fields.
pub open spec fn naive_field_name(i: int) -> Seq<char> {
    if i == 0 {
        "SubSecDateTimeOriginal"@
    } else if i == 1 {
        "SubSecCreateDate"@
    } else if i == 2 {
        "SubSecTimeDigitized"@
    } else if i == 3 {
        "DateTimeOriginal"@
    } else if i == 4 {
        "CreateDate"@
    } else if i == 5 {
        "DateTimeDigitized"@
    } else if i == 6 {
        "SubSecModifyDate"@
    } else {
        "ModifyDate"@
    }
}

/// The numeric subsecond companion of each naive field, derived from its
/// name.
pub open spec fn subsec_num_field(i: int) -> Seq<char> {
    if i == 0 || i == 3 {
        "SubSecTimeOriginal"@
    } else if i == 1 || i == 4 {
        "SubSecTimeCreate"@
    } else if i == 2 || i == 5 {
        "SubSecTimeDigitized"@
    } else {
        "SubSecTimeModify"@
    }
}

/// A simpler alternative name for the subsecond companion, consulted when
/// the first is absent.
pub open spec fn subsec_simple_field(i: int) -> Seq<char> {
    if i == 0 || i == 3 {
        "SubSecondOriginal"@
    } else if i == 1 || i == 4 {
        "SubSecondCreateDate"@
    } else if i == 2 {
        "SubSecondTimeDigitized"@
    } else if i == 5 {
        "SubSecondDigitized"@
    } else {
        "SubSecondModifyDate"@
    }
}

/// The first entry of the naive priority list whose field parses, with its
/// value and whether the string itself carried a nonzero subsecond part.
pub open spec fn first_naive_entry(doc: MetaValue, i: int) -> Option<(int, CivilDateTime, bool)>
    decreases 8 - i,
{
    if i >= 8 || i < 0 {
        None
    } else {
        match string_field_spec(doc, "Time"@, naive_field_name(i)) {
            Some(s) => match naive_datetime_spec(s) {
                Some((dt, flag)) => Some((i, dt, flag)),
                None => first_naive_entry(doc, i + 1),
            },
            None => first_naive_entry(doc, i + 1),
        }
    }
}

/// The numeric subsecond companion of entry `i`, with the name of the
/// field that held it.
pub open spec fn companion_subsec(doc: MetaValue, i: int) -> Option<(Seq<char>, u32)> {
    match number_field_spec(doc, "Time"@, subsec_num_field(i)) {
        Some(v) => Some((subsec_num_field(i), v)),
        None => match number_field_spec(doc, "Time"@, subsec_simple_field(i)) {
            Some(v) => Some((subsec_simple_field(i), v)),
            None => None,
        },
    }
}

/// The best embedded local timestamp: the first parsing entry, with its
/// companion subseconds merged in unless the string already carried them,
/// and a label naming every field consulted.
pub open spec fn best_local_exif_spec(doc: MetaValue) -> Option<(CivilDateTime, Seq<char>)> {
    match first_naive_entry(doc, 0) {
        Some((i, dt, flag)) => if flag {
            Some((dt, naive_field_name(i) + ": Parsed SubSeconds"@))
        } else {
            match companion_subsec(doc, i) {
                Some((cname, v)) => Some(
                    (merge_subseconds(dt, v as int), naive_field_name(i) + " + "@ + cname),
                ),
                None => Some((dt, naive_field_name(i))),
            }
        },
        None => None,
    }
}

/// The best local timestamp from any source: embedded fields first, then
/// the filename as a last resort.
pub open spec fn best_local_spec(doc: MetaValue, fallback: Option<Seq<char>>) -> Option<
    (CivilDateTime, Seq<char>),
> {
    match best_local_exif_spec(doc) {
        Some(x) => Some(x),
        None => match string_field_spec(doc, "Other"@, "FileName"@) {
            Some(name) => match filename_datetime_spec(name, fallback) {
                Some(dt) => Some((dt, "FileName"@)),
                None => None,
            },
            None => None,
        },
    }
}

/// The direct-UTC candidate: a combined satellite date-time field first,
/// else separate date and time stamps combined with a UTC suffix.
pub open spec fn potential_utc_spec(doc: MetaValue) -> Option<(CivilDateTime, Seq<char>)> {
    let primary = match string_field_spec(doc, "Time"@, "GPSDateTime"@) {
        Some(s) => match utc_z_spec(s) {
            Some(dt) => Some((dt, "GPSDateTime"@)),
            None => None,
        },
        None => None,
    };
    if primary is Some {
        primary
    } else {
        match string_field_spec(doc, "Time"@, "GPSDateStamp"@) {
            Some(ds) => match string_field_spec(doc, "Time"@, "GPSTimeStamp"@) {
                Some(ts) => match utc_z_spec(ds + " "@ + ts + "Z"@) {
                    Some(dt) => Some((dt, "GPSDateStamp/GPSTimeStamp"@)),
                    None => None,
                },
                None => None,
            },
            None => None,
        }
    }
}

/// The explicit-offset priority list.
pub open spec fn offset_field_name(i: int) -> Seq<char> {
    if i == 0 {
        "OffsetTimeOriginal"@
    } else if i == 1 {
        "OffsetTimeDigitized"@
    } else {
        "OffsetTime"@
    }
}

/// The first parsing explicit-offset declaration: seconds, display string,
/// source field.
pub open spec fn potential_offset_spec(doc: MetaValue, i: int) -> Option<
    (int, Seq<char>, Seq<char>),
>
    decreases 3 - i,
{
    if i >= 3 || i < 0 {
        None
    } else {
        match string_field_spec(doc, "Time"@, offset_field_name(i)) {
            Some(s) => match offset_string_spec(s) {
                Some(off) => Some((off as int, s, offset_field_name(i))),
                None => potential_offset_spec(doc, i + 1),
            },
            None => potential_offset_spec(doc, i + 1),
        }
    }
}

/// The file-time priority list: modification first, as the most
/// trustworthy proxy for capture time.
pub open spec fn file_field_name(i: int) -> Seq<char> {
    if i == 0 {
        "FileModifyDate"@
    } else if i == 1 {
        "FileCreateDate"@
    } else {
        "FileAccessDate"@
    }
}

/// The first parsing file-system timestamp: wall-clock fields, offset,
/// source field.
pub open spec fn potential_file_dt_spec(doc: MetaValue, i: int) -> Option<
    (CivilDateTime, int, Seq<char>),
>
    decreases 3 - i,
{
    if i >= 3 || i < 0 {
        None
    } else {
        match string_field_spec(doc, "Time"@, file_field_name(i)) {
            Some(s) => match datetime_offset_spec(s) {
                Some((dt, off)) => Some((dt, off as int, file_field_name(i))),
                None => potential_file_dt_spec(doc, i + 1),
            },
            None => potential_file_dt_spec(doc, i + 1),
        }
    }
}

/// Side conditions that every extraction result satisfies: the datetime
/// values denote real dates in the four-digit-year range, and offsets are
/// smaller in magnitude than a day.  The priority logic relies on them for
/// its offset arithmetic.
pub open spec fn components_wf(c: ExtractedTimeComponentsV) -> bool {
    &&& match c.best_local {
        Some((dt, _)) => dt.wf() && 0 <= dt.year <= 9999,
        None => true,
    }
    &&& match c.potential_utc {
        Some((dt, _)) => dt.wf(),
        None => true,
    }
    &&& match c.potential_explicit_offset {
        Some((off, _, _)) => -86400 < off < 86400,
        None => true,
    }
    &&& match c.potential_file_dt {
        Some((dt, off, _)) => dt.wf() && 0 <= dt.year <= 9999 && -86400 < off < 86400,
        None => true,
    }
}

/// All four components of one extraction pass.
pub open spec fn extract_spec(doc: MetaValue, fallback: Option<Seq<char>>) -> ExtractedTimeComponentsV {
    ExtractedTimeComponentsV {
        best_local: best_local_spec(doc, fallback),
        potential_utc: potential_utc_spec(doc),
        potential_explicit_offset: potential_offset_spec(doc, 0),
        potential_file_dt: potential_file_dt_spec(doc, 0),
    }
}

fn naive_field_str(i: u8) -> (r: &'static str)
    requires
        i < 8,
    ensures
        r@ == naive_field_name(i as int),
{
    if i == 0 {
        "SubSecDateTimeOriginal"
    } else if i == 1 {
        "SubSecCreateDate"
    } else if i == 2 {
        "SubSecTimeDigitized"
    } else if i == 3 {
        "DateTimeOriginal"
    } else if i == 4 {
        "CreateDate"
    } else if i == 5 {
        "DateTimeDigitized"
    } else if i == 6 {
        "SubSecModifyDate"
    } else {
        "ModifyDate"
    }
}

fn subsec_num_field_str(i: u8) -> (r: &'static str)
    requires
        i < 8,
    ensures
        r@ == subsec_num_field(i as int),
{
    if i == 0 || i == 3 {
        "SubSecTimeOriginal"
    } else if i == 1 || i == 4 {
        "SubSecTimeCreate"
    } else if i == 2 || i == 5 {
        "SubSecTimeDigitized"
    } else {
        "SubSecTimeModify"
    }
}

fn subsec_simple_field_str(i: u8) -> (r: &'static str)
    requires
        i < 8,
    ensures
        r@ == subsec_simple_field(i as int),
{
    if i == 0 || i == 3 {
        "SubSecondOriginal"
    } else if i == 1 || i == 4 {
        "SubSecondCreateDate"
    } else if i == 2 {
        "SubSecondTimeDigitized"
    } else if i == 5 {
        "SubSecondDigitized"
    } else {
        "SubSecondModifyDate"
    }
}

#[verifier::loop_isolation(false)]
fn find_naive_entry(doc: &MetaValue) -> (r: Option<(u8, CivilDateTime, bool)>)
    ensures
        match r {
            Some((i, dt, flag)) => i < 8 && first_naive_entry(*doc, 0) == Some(
                (i as int, dt, flag),
            ) && dt.wf() && 0 <= dt.year <= 9999,
            None => first_naive_entry(*doc, 0) is None,
        },
{
    let mut i: u8 = 0;
    while i < 8
        invariant
            0 <= i <= 8,
            first_naive_entry(*doc, 0) == first_naive_entry(*doc, i as int),
        decreases 8 - i,
    {
        if let Some(s) = get_string_field(doc, "Time", naive_field_str(i)) {
            if let Some((dt, flag)) = parse_naive(s.as_str()) {
                return Some((i, dt, flag));
            }
        }
        i = i + 1;
    }
    None
}

/// Scans the document for the four time components, consulting each
/// priority list in order; the filename is the final fallback for the
/// local timestamp, read in the fallback timezone when its pattern denotes
/// a UTC instant.
pub fn extract_time_components(doc: &MetaValue, fallback_timezone: Option<&str>) -> (c:
    ExtractedTimeComponents)
    ensures
        c@ == extract_spec(*doc, opt_str_view(fallback_timezone)),
        components_wf(c@),
{
    // --- Best naive (local) time, with subsecond companion. ---
    let mut best_local: Option<(CivilDateTime, String)> = None;
    if let Some((i, dt, flag)) = find_naive_entry(doc) {
        if flag {
            let label = String::from_str(naive_field_str(i)).concat(": Parsed SubSeconds");
            best_local = Some((dt, label));
        } else {
            let mut companion: Option<(&'static str, u32)> = None;
            if let Some(v) = get_number_field(doc, "Time", subsec_num_field_str(i)) {
                companion = Some((subsec_num_field_str(i), v));
            } else if let Some(v) = get_number_field(doc, "Time", subsec_simple_field_str(i)) {
                companion = Some((subsec_simple_field_str(i), v));
            }
            match companion {
                Some((cname, v)) => {
                    let merged = add_subseconds_from_number(dt, v);
                    let label = String::from_str(naive_field_str(i)).concat(" + ").concat(cname);
                    best_local = Some((merged, label));
                },
                None => {
                    best_local = Some((dt, String::from_str(naive_field_str(i))));
                },
            }
        }
    } else {
        if let Some(name) = get_string_field(doc, "Other", "FileName") {
            if let Some(dt) = parse_datetime_from_filename(name.as_str(), fallback_timezone) {
                best_local = Some((dt, String::from_str("FileName")));
            }
        }
    }

    // --- Direct UTC candidate. ---
    let mut potential_utc: Option<(CivilDateTime, String)> = None;
    if let Some(s) = get_string_field(doc, "Time", "GPSDateTime") {
        if let Some(dt) = parse_datetime_utc_z(s.as_str()) {
            potential_utc = Some((dt, String::from_str("GPSDateTime")));
        }
    }
    if potential_utc.is_none() {
        if let Some(ds) = get_string_field(doc, "Time", "GPSDateStamp") {
            if let Some(ts) = get_string_field(doc, "Time", "GPSTimeStamp") {
                let combined = String::from_str(ds.as_str()).concat(" ").concat(ts.as_str()).concat(
                    "Z",
                );
                if let Some(dt) = parse_datetime_utc_z(combined.as_str()) {
                    potential_utc = Some((dt, String::from_str("GPSDateStamp/GPSTimeStamp")));
                }
            }
        }
    }

    // --- Explicit offset declaration. ---
    let mut potential_explicit_offset: Option<(i32, String, String)> = None;
    if let Some(s) = get_string_field(doc, "Time", "OffsetTimeOriginal") {
        if let Some((off, disp)) = parse_offset_string(s.as_str()) {
            potential_explicit_offset = Some((off, disp, String::from_str("OffsetTimeOriginal")));
        }
    }
    if potential_explicit_offset.is_none() {
        if let Some(s) = get_string_field(doc, "Time", "OffsetTimeDigitized") {
            if let Some((off, disp)) = parse_offset_string(s.as_str()) {
                potential_explicit_offset = Some(
                    (off, disp, String::from_str("OffsetTimeDigitized")),
                );
            }
        }
    }
    if potential_explicit_offset.is_none() {
        if let Some(s) = get_string_field(doc, "Time", "OffsetTime") {
            if let Some((off, disp)) = parse_offset_string(s.as_str()) {
                potential_explicit_offset = Some((off, disp, String::from_str("OffsetTime")));
            }
        }
    }
    proof {
        reveal_with_fuel(potential_offset_spec, 4);
        assert(match potential_explicit_offset {
            Some((off, d, s)) => potential_offset_spec(*doc, 0) == Some(
                (off as int, d@, s@),
            ),
            None => potential_offset_spec(*doc, 0) is None,
        });
    }

    // --- File-system timestamp. ---
    let mut potential_file_dt: Option<(CivilDateTime, i32, String)> = None;
    if let Some(s) = get_string_field(doc, "Time", "FileModifyDate") {
        if let Some((dt, off)) = parse_datetime_offset(s.as_str()) {
            potential_file_dt = Some((dt, off, String::from_str("FileModifyDate")));
        }
    }
    if potential_file_dt.is_none() {
        if let Some(s) = get_string_field(doc, "Time", "FileCreateDate") {
            if let Some((dt, off)) = parse_datetime_offset(s.as_str()) {
                potential_file_dt = Some((dt, off, String::from_str("FileCreateDate")));
            }
        }
    }
    if potential_file_dt.is_none() {
        if let Some(s) = get_string_field(doc, "Time", "FileAccessDate") {
            if let Some((dt, off)) = parse_datetime_offset(s.as_str()) {
                potential_file_dt = Some((dt, off, String::from_str("FileAccessDate")));
            }
        }
    }
    proof {
        reveal_with_fuel(potential_file_dt_spec, 4);
        assert(match potential_file_dt {
            Some((dt, off, s)) => potential_file_dt_spec(*doc, 0) == Some((dt, off as int, s@)),
            None => potential_file_dt_spec(*doc, 0) is None,
        });
    }

    ExtractedTimeComponents {
        best_local,
        potential_utc,
        potential_explicit_offset,
        potential_file_dt,
    }
}

} // verus!
