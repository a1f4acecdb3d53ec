//! The grouped metadata document and safe field accessors.
//!
//! A media file's metadata arrives as a tree of named groups whose leaves are
//! strings or numbers.  Nothing may be assumed about which groups or fields
//! exist: every lookup is optional, and a field of an unexpected type reads
//! as absent.

use vstd::prelude::*;

verus! {

/// A dynamically-typed metadata value: a leaf string or integer, a list, a
/// group of named values, or nothing.
///
/// A group is an ordered list of `(name, value)` pairs; a lookup takes the
/// first pair with the requested name.  Leaves that the time logic never
/// reads (floating-point numbers, booleans) are represented as `Null`.
#[derive(Debug)]
pub enum MetaValue {
    Null,
    Str(String),
    Num(u64),
    List(Vec<MetaValue>),
    Group(Vec<(String, MetaValue)>),
}

/// The first value in `entries` stored under `name`.
pub open spec fn lookup_entry(entries: Seq<(String, MetaValue)>, name: Seq<char>) -> Option<
    MetaValue,
>
    decreases entries.len(),
{
    if entries.len() == 0 {
        None
    } else if entries[0].0@ == name {
        Some(entries[0].1)
    } else {
        lookup_entry(entries.skip(1), name)
    }
}

/// The member of `doc` named `name`, when `doc` is a group that has one.
pub open spec fn get_spec(doc: MetaValue, name: Seq<char>) -> Option<MetaValue> {
    match doc {
        MetaValue::Group(entries) => lookup_entry(entries@, name),
        _ => None,
    }
}

/// The string stored at `(group, field)`, if that path exists and holds a
/// string.
pub open spec fn string_field_spec(doc: MetaValue, group: Seq<char>, field: Seq<char>) -> Option<
    Seq<char>,
> {
    match get_spec(doc, group) {
        Some(g) => match get_spec(g, field) {
            Some(MetaValue::Str(s)) => Some(s@),
            _ => None,
        },
        None => None,
    }
}

/// The number stored at `(group, field)`, if that path exists and holds an
/// integer that fits in 32 bits.
pub open spec fn number_field_spec(doc: MetaValue, group: Seq<char>, field: Seq<char>) -> Option<
    u32,
> {
    match get_spec(doc, group) {
        Some(g) => match get_spec(g, field) {
            Some(MetaValue::Num(n)) => if n <= u32::MAX {
                Some(n as u32)
            } else {
                None
            },
            _ => None,
        },
        None => None,
    }
}

/// Character-for-character equality of two string slices.
pub fn str_eq(a: &str, b: &str) -> (r: bool)
    ensures
        r == (a@ == b@),
{
    let an = a.unicode_len();
    let bn = b.unicode_len();
    if an != bn {
        return false;
    }
    let mut i: usize = 0;
    while i < an
        invariant
            0 <= i <= an,
            an == a@.len() == b@.len(),
            forall|j: int| 0 <= j < i ==> a@[j] == b@[j],
        decreases an - i,
    {
        if a.get_char(i) != b.get_char(i) {
            return false;
        }
        i = i + 1;
    }
    proof {
        assert(a@ =~= b@);
    }
    true
}

impl MetaValue {
    /// The member named `name`, when this value is a group that has one.
    #[verifier::loop_isolation(false)]
    pub fn get<'a>(&'a self, name: &str) -> (r: Option<&'a MetaValue>)
        ensures
            match r {
                Some(v) => get_spec(*self, name@) == Some(*v),
                None => get_spec(*self, name@) is None,
            },
    {
        match self {
            MetaValue::Group(entries) => {
                let n = entries.len();
                let mut i: usize = 0;
                proof {
                    assert(entries@.skip(0) =~= entries@);
                    assert(get_spec(*self, name@) == lookup_entry(entries@, name@));
                }
                while i < n
                    invariant
                        0 <= i <= n == entries@.len(),
                        lookup_entry(entries@, name@) == lookup_entry(entries@.skip(i as int), name@),
                    decreases n - i,
                {
                    proof {
                        assert(entries@.skip(i as int)[0] == entries@[i as int]);
                        assert(entries@.skip(i as int).skip(1) =~= entries@.skip(i as int + 1));
                    }
                    let entry = &entries[i];
                    if str_eq(entry.0.as_str(), name) {
                        proof {
                            assert(entries@.skip(i as int).len() > 0);
                            assert(lookup_entry(entries@.skip(i as int), name@) == Some(
                                entries@[i as int].1,
                            ));
                        }
                        return Some(&entry.1);
                    }
                    i = i + 1;
                }
                proof {
                    assert(entries@.skip(n as int) =~= Seq::<(String, MetaValue)>::empty());
                }
                None
            },
            _ => None,
        }
    }
}

/// Safely reads a string field from a grouped metadata document.
pub fn get_string_field<'a>(doc: &'a MetaValue, group: &str, field: &str) -> (r: Option<&'a String>)
    ensures
        match r {
            Some(s) => string_field_spec(*doc, group@, field@) == Some(s@),
            None => string_field_spec(*doc, group@, field@) is None,
        },
{
    match doc.get(group) {
        Some(g) => match g.get(field) {
            Some(MetaValue::Str(s)) => Some(s),
            _ => None,
        },
        None => None,
    }
}

/// Safely reads an integer field (as `u32`) from a grouped metadata
/// document.
pub fn get_number_field(doc: &MetaValue, group: &str, field: &str) -> (r: Option<u32>)
    ensures
        r == number_field_spec(*doc, group@, field@),
{
    match doc.get(group) {
        Some(g) => match g.get(field) {
            Some(MetaValue::Num(n)) => {
                let n = *n;
                if n <= u32::MAX as u64 {
                    Some(n as u32)
                } else {
                    None
                }
            },
            _ => None,
        },
        None => None,
    }
}

/// Reference direction of a recorded GPS image heading.
#[derive(Debug, Clone, PartialEq, Eq, Structural)]
pub enum DirectionRef {
    TrueNorth,
    MagneticNorth,
}

/// Failure of a metadata read that the caller declared required.
#[derive(Debug, Clone)]
pub enum MetadataError {
    MissingRequiredField(String),
}

impl MetadataError {
    /// A human-readable description of the error.
    pub fn message(&self) -> (r: String)
        ensures
            match *self {
                MetadataError::MissingRequiredField(f) => r@ == "Missing required metadata field: "@
                    + f@,
            },
    {
        match self {
            MetadataError::MissingRequiredField(f) => String::from_str(
                "Missing required metadata field: ",
            ).concat(f.as_str()),
        }
    }
}

} // verus!
