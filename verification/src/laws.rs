//! Library-wide laws of the resolution engine, stated and proved against
//! the spec functions that the executable code is verified to implement.

use crate::civil::CivilDateTime;
use crate::doc::MetaValue;
use crate::extract::{best_local_exif_spec, first_naive_entry, naive_field_name,
    ExtractedTimeComponentsV};
use crate::resolve::{cascade_spec, confirmed_utc_result, resolve_spec, zone_offset_of,
    zoned_result};
use vstd::prelude::*;

verus! {

/// Determinism: resolution is a mathematical function of the document, the
/// GPS-derived zone and the fallback zone, so identical inputs always
/// yield an identical result.  The executable resolver is verified to
/// return exactly `resolve_spec` of its inputs.
pub proof fn lemma_resolution_deterministic(
    doc1: MetaValue,
    doc2: MetaValue,
    gz: Option<Seq<char>>,
    fz: Option<Seq<char>>,
)
    requires
        doc1 == doc2,
    ensures
        resolve_spec(doc1, gz, fz) == resolve_spec(doc2, gz, fz),
{
}

/// Priority ordering: when the confirmed-UTC level applies, the cascade
/// returns its result — high confidence, the local source as provenance —
/// and the lower-priority components (the explicit offset and the file
/// time) have no influence on the outcome.
pub proof fn lemma_priority_ordering(c: ExtractedTimeComponentsV, gz: Option<Seq<char>>)
    requires
        confirmed_utc_result(c, gz) is Some,
    ensures
        cascade_spec(c, gz) == confirmed_utc_result(c, gz),
        match cascade_spec(c, gz) {
            Some(t) => t.source_details.confidence == "High"@,
            None => false,
        },
        cascade_spec(c, gz) == cascade_spec(
            ExtractedTimeComponentsV { potential_explicit_offset: None, potential_file_dt: None, ..c },
            gz,
        ),
{
}

/// Tolerance boundary: with a local reading, a direct-UTC reading and a
/// resolvable GPS zone, a difference of exactly ten seconds between the
/// zone-interpreted local instant and the direct-UTC instant is still
/// confirmed, while eleven seconds is not and the cascade falls through to
/// the zoned level.
pub proof fn lemma_tolerance_boundary(
    c: ExtractedTimeComponentsV,
    zone: Seq<char>,
    local: CivilDateTime,
    lsrc: Seq<char>,
    utc: CivilDateTime,
    usrc: Seq<char>,
    off: i32,
)
    requires
        c.best_local == Some((local, lsrc)),
        c.potential_utc == Some((utc, usrc)),
        zone_offset_of(zone, local) == Some(off),
    ensures
        ({
            let d = (local.total_nanos() - off * 1_000_000_000) - utc.total_nanos();
            &&& (d == 10 * 1_000_000_000 || d == -10 * 1_000_000_000) ==> cascade_spec(
                c,
                Some(zone),
            ) == confirmed_utc_result(c, Some(zone)) && confirmed_utc_result(c, Some(zone)) is Some
            &&& (d == 11 * 1_000_000_000 || d == -11 * 1_000_000_000) ==> cascade_spec(
                c,
                Some(zone),
            ) == zoned_result(local, lsrc, Some(zone))
        }),
{
}

/// The error contract: resolution fails exactly when no cascade level is
/// applicable, which happens exactly when extraction produced neither a
/// local reading, nor a direct-UTC reading, nor a file-system timestamp.
pub proof fn lemma_error_iff_no_usable_components(
    c: ExtractedTimeComponentsV,
    gz: Option<Seq<char>>,
)
    ensures
        cascade_spec(c, gz) is None <==> (c.best_local is None && c.potential_utc is None
            && c.potential_file_dt is None),
{
}

/// Subsecond idempotence: when the matched field's string itself carried a
/// nonzero fractional second, no companion subsecond field is merged — the
/// parsed value stands unchanged, whatever numeric subsecond fields the
/// document also holds.
pub proof fn lemma_subsecond_idempotent(doc: MetaValue, i: int, dt: CivilDateTime)
    requires
        first_naive_entry(doc, 0) matches Some((j, v, flag)) && j == i && v == dt && flag,
    ensures
        best_local_exif_spec(doc) == Some((dt, naive_field_name(i) + ": Parsed SubSeconds"@)),
{
}

} // verus!
