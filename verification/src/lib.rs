//! Best-effort timestamp resolution for media-file metadata.
//!
//! The library reconciles up to seven conflicting time sources found in a
//! grouped metadata document (embedded capture times, satellite-derived UTC
//! times, explicit UTC-offset tags, file-system times and filename patterns)
//! into a single timestamp record with a timezone context and a confidence
//! grade.  Resolution is a pure function of the document, the IANA zone name
//! derived from the GPS position (when one is available) and an optional
//! fallback zone; its full behaviour is captured by spec functions against
//! which every step is verified.

pub mod civil;
pub mod doc;
pub mod extract;
pub mod filename;
pub mod laws;
pub mod parse;
pub mod resolve;
pub mod types;
pub mod zone;

pub use civil::CivilDateTime;
pub use doc::{get_number_field, get_string_field, DirectionRef, MetaValue, MetadataError};
pub use extract::{extract_time_components, ExtractedTimeComponents};
pub use filename::parse_datetime_from_filename;
pub use parse::{
    add_subseconds_from_number, parse_datetime_offset, parse_datetime_utc_z, parse_naive,
    parse_offset_string,
};
pub use resolve::get_time_info;
pub use types::{SourceDetails, TimeError, TimeInfo, TimeZoneInfo};
