//! The capture date of an image: the embedded `DateTimeOriginal` text,
//! parsed from its `YYYY:MM:DD HH:MM:SS` convention into a [`Timestamp`].
//!
//! Reading the embedded metadata out of the raw file bytes is delegated to
//! the `exif` crate behind a trusted wrapper; the parse of the resulting
//! text is verified here. Any failure — no field, unreadable container,
//! malformed text, impossible date — yields "no capture date".

use vstd::prelude::*;
use crate::timestamp::Timestamp;

verus! {

/// A decimal digit character.
pub open spec fn spec_is_digit(c: char) -> bool {
    48 <= c as u32 <= 57
}

/// The numeric value of a decimal digit character.
pub open spec fn spec_digit(c: char) -> int {
    c as u32 - 48
}

/// The shape `YYYY:MM:DD HH:MM:SS`: 19 characters, colon and space
/// separators at fixed positions, digits everywhere else.
pub open spec fn exif_dt_well_formed(s: Seq<char>) -> bool {
    &&& s.len() == 19
    &&& s[4] == ':'
    &&& s[7] == ':'
    &&& s[10] == ' '
    &&& s[13] == ':'
    &&& s[16] == ':'
    &&& forall|i: int|
        0 <= i < 19 && i != 4 && i != 7 && i != 10 && i != 13 && i != 16 ==> spec_is_digit(
            #[trigger] s[i],
        )
}

/// The two-digit number starting at position `i`.
pub open spec fn spec_two_digits(s: Seq<char>, i: int) -> int {
    spec_digit(s[i]) * 10 + spec_digit(s[i + 1])
}

/// The four-digit number starting at position 0.
pub open spec fn spec_four_digits(s: Seq<char>) -> int {
    spec_digit(s[0]) * 1000 + spec_digit(s[1]) * 100 + spec_digit(s[2]) * 10 + spec_digit(s[3])
}

/// The timestamp spelled by a well-formed `YYYY:MM:DD HH:MM:SS` text.
pub open spec fn spec_timestamp_of(s: Seq<char>) -> Timestamp {
    Timestamp {
        year: spec_four_digits(s) as u16,
        month: spec_two_digits(s, 5) as u8,
        day: spec_two_digits(s, 8) as u8,
        hour: spec_two_digits(s, 11) as u8,
        minute: spec_two_digits(s, 14) as u8,
        second: spec_two_digits(s, 17) as u8,
    }
}

/// The parse of an embedded datetime text: the spelled timestamp when the
/// text is well formed and names a real calendar date and time of day,
/// nothing otherwise.
pub open spec fn spec_parse_exif_datetime(s: Seq<char>) -> Option<Timestamp> {
    if exif_dt_well_formed(s) && spec_timestamp_of(s).valid() {
        Some(spec_timestamp_of(s))
    } else {
        None
    }
}

/// Reads one digit character as a number.
fn digit_of(c: char) -> (r: Option<u8>)
    ensures
        r is Some <==> spec_is_digit(c),
        r is Some ==> r == Some(spec_digit(c) as u8),
{
    let u = c as u32;
    if 48 <= u && u <= 57 {
        Some((u - 48) as u8)
    } else {
        None
    }
}

/// Reads the two-digit number at position `i`.
fn two_digits_at(s: &str, i: usize) -> (r: Option<u8>)
    requires
        s@.len() == 19,
        i + 2 <= 19,
    ensures
        r is Some <==> (spec_is_digit(s@[i as int]) && spec_is_digit(s@[i + 1])),
        r is Some ==> r == Some(spec_two_digits(s@, i as int) as u8),
{
    let hi = digit_of(s.get_char(i));
    let lo = digit_of(s.get_char(i + 1));
    match (hi, lo) {
        (Some(h), Some(l)) => Some(h * 10 + l),
        _ => None,
    }
}

/// Parses an embedded `DateTimeOriginal`-style text. Exactly the texts of
/// the shape `YYYY:MM:DD HH:MM:SS` that name a real calendar date and time
/// of day parse; everything else is `None`.
pub fn parse_exif_datetime(s: &str) -> (r: Option<Timestamp>)
    ensures
        r == spec_parse_exif_datetime(s@),
{
    if s.unicode_len() != 19 {
        return None;
    }
    if s.get_char(4) != ':' || s.get_char(7) != ':' || s.get_char(10) != ' ' || s.get_char(13)
        != ':' || s.get_char(16) != ':' {
        return None;
    }
    let y_hi = two_digits_at(s, 0);
    let y_lo = two_digits_at(s, 2);
    let mo = two_digits_at(s, 5);
    let d = two_digits_at(s, 8);
    let h = two_digits_at(s, 11);
    let mi = two_digits_at(s, 14);
    let se = two_digits_at(s, 17);
    match (y_hi, y_lo, mo, d, h, mi, se) {
        (Some(yh), Some(yl), Some(mo), Some(d), Some(h), Some(mi), Some(se)) => {
            let t = Timestamp {
                year: (yh as u16) * 100 + (yl as u16),
                month: mo,
                day: d,
                hour: h,
                minute: mi,
                second: se,
            };
            assert(exif_dt_well_formed(s@));
            assert(t == spec_timestamp_of(s@));
            if t.is_valid() {
                Some(t)
            } else {
                None
            }
        },
        _ => {
            assert(!exif_dt_well_formed(s@));
            None
        },
    }
}

/// What the `exif` crate finds as the raw `DateTimeOriginal` text of a byte
/// buffer: a function of the bytes alone.
pub uninterp spec fn exif_capture_text(bytes: Seq<u8>) -> Option<Seq<char>>;

/// Relies on `exif::Reader::read_from_container` and the raw ASCII value of
/// the `DateTimeOriginal` field in the primary image: what it yields is
/// determined by the bytes alone.
#[verifier::external_body]
fn read_capture_text(bytes: &[u8]) -> (r: Option<String>)
    ensures
        (match (r, exif_capture_text(bytes@)) {
            (Some(s), Some(t)) => s@ == t,
            (None, None) => true,
            _ => false,
        }),
{
    let mut cur = std::io::Cursor::new(bytes);
    let parsed = exif::Reader::new().read_from_container(&mut cur).ok()?;
    let field = parsed.get_field(exif::Tag::DateTimeOriginal, exif::In::PRIMARY)?;
    match &field.value {
        exif::Value::Ascii(v) => v.first().map(|b| String::from_utf8_lossy(b).into_owned()),
        _ => None,
    }
}

/// The capture date embedded in an image file's bytes: the parse of the
/// file's `DateTimeOriginal` text, `None` when there is no such text or it
/// does not parse.
pub fn capture_date_from_bytes(bytes: &[u8]) -> (r: Option<Timestamp>)
    ensures
        r == (match exif_capture_text(bytes@) {
            Some(s) => spec_parse_exif_datetime(s),
            None => None,
        }),
{
    match read_capture_text(bytes) {
        Some(s) => parse_exif_datetime(s.as_str()),
        None => None,
    }
}

} // verus!
