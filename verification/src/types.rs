//! The resolver's result types and its single error.

use crate::civil::CivilDateTime;
use vstd::prelude::*;

verus! {

/// How the local-to-UTC relationship of a resolved timestamp was
/// established.
#[derive(Debug, Clone, PartialEq)]
pub struct TimeZoneInfo {
    /// An IANA zone name (`Europe/Amsterdam`), a fixed-offset rendering
    /// (`+02:00`), or `UTC`.
    pub name: String,
    /// The offset from UTC in seconds that applied to the local reading.
    pub offset_seconds: i32,
    /// Which metadata field or mechanism produced the timezone context.
    pub source: String,
}

/// Spec-level image of a [`TimeZoneInfo`].
pub ghost struct TimeZoneInfoV {
    pub name: Seq<char>,
    pub offset_seconds: int,
    pub source: Seq<char>,
}

impl View for TimeZoneInfo {
    type V = TimeZoneInfoV;

    open spec fn view(&self) -> TimeZoneInfoV {
        TimeZoneInfoV {
            name: self.name@,
            offset_seconds: self.offset_seconds as int,
            source: self.source@,
        }
    }
}

/// Provenance and reliability of a resolved timestamp.
#[derive(Debug, Clone, PartialEq)]
pub struct SourceDetails {
    /// The metadata field(s) that produced the local reading.
    pub time_source: String,
    /// `High`, `Medium` or `Low`.
    pub confidence: String,
}

/// Spec-level image of a [`SourceDetails`].
pub ghost struct SourceDetailsV {
    pub time_source: Seq<char>,
    pub confidence: Seq<char>,
}

impl View for SourceDetails {
    type V = SourceDetailsV;

    open spec fn view(&self) -> SourceDetailsV {
        SourceDetailsV { time_source: self.time_source@, confidence: self.confidence@ }
    }
}

/// The resolved time record: the single output of a resolution call.
#[derive(Debug, Clone, PartialEq)]
pub struct TimeInfo {
    /// The absolute UTC instant, when an internally consistent offset or a
    /// direct UTC source could be established.
    pub datetime_utc: Option<CivilDateTime>,
    /// The best available wall-clock reading.
    pub datetime_local: CivilDateTime,
    /// The timezone context of `datetime_local`, if determined.
    pub timezone: Option<TimeZoneInfo>,
    /// Where the reading came from and how much to trust it.
    pub source_details: SourceDetails,
}

/// Spec-level image of a [`TimeInfo`].
pub ghost struct TimeInfoV {
    pub datetime_utc: Option<CivilDateTime>,
    pub datetime_local: CivilDateTime,
    pub timezone: Option<TimeZoneInfoV>,
    pub source_details: SourceDetailsV,
}

impl View for TimeInfo {
    type V = TimeInfoV;

    open spec fn view(&self) -> TimeInfoV {
        TimeInfoV {
            datetime_utc: self.datetime_utc,
            datetime_local: self.datetime_local,
            timezone: match self.timezone {
                Some(tz) => Some(tz@),
                None => None,
            },
            source_details: self.source_details@,
        }
    }
}

/// Failure of time resolution: no cascade level was applicable, so no
/// usable time metadata exists anywhere in the document.
#[derive(Debug, Clone, PartialEq, Eq, Structural)]
pub enum TimeError {
    Extraction,
}

impl TimeError {
    /// A human-readable description of the error.
    pub fn message(&self) -> (r: String)
        ensures
            r@ == "Could not extract any usable time metadata from the file"@,
    {
        String::from_str("Could not extract any usable time metadata from the file")
    }
}

} // verus!
