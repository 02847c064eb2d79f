//! EXIF and DNG metadata access through kamadak-exif.
//!
//! kamadak-exif parses the container; this module reads single fields from
//! the parsed result. A field's value is handed over as an [`ExifValue`],
//! and the readers that turn it into plain integers are verified against
//! exact contracts.
use vstd::prelude::*;

use exif::{Context, In, Tag, Value};
use self::ExifValue::{Byte, Long, Other, Rational, SRational, Short, Undefined};

verus! {

/// Parsed EXIF attributes of a file.
#[verifier::external_type_specification]
#[verifier::external_body]
pub struct ExExif(exif::Exif);

/// How a tag number is interpreted (which IFD family it belongs to).
#[derive(Clone, Copy, Debug, PartialEq, Eq, Structural)]
pub enum ExifContext {
    /// TIFF attributes (0th/1st IFD).
    Tiff,
    /// Exif attributes (Exif IFD).
    Exif,
    /// GPS attributes (GPS IFD).
    Gps,
    /// Interoperability attributes.
    Interop,
}

/// An EXIF tag: context and number.
#[derive(Clone, Copy, Debug, PartialEq, Eq, Structural)]
pub struct ExifTag {
    pub context: ExifContext,
    pub number: u16,
}

/// The value of an EXIF field, for the value types this crate reads.
#[derive(Clone, Debug)]
pub enum ExifValue {
    /// BYTE values.
    Byte(Vec<u8>),
    /// SHORT values.
    Short(Vec<u16>),
    /// LONG values.
    Long(Vec<u32>),
    /// RATIONAL values as `(numerator, denominator)`.
    Rational(Vec<(u32, u32)>),
    /// SRATIONAL values as `(numerator, denominator)`.
    SRational(Vec<(i32, i32)>),
    /// UNDEFINED bytes.
    Undefined(Vec<u8>),
    /// Any other value type.
    Other,
}

/// The primary-image fields that kamadak-exif parses from a file's bytes,
/// if it parses them at all.
pub uninterp spec fn exif_fields_of(data: Seq<u8>) -> Option<Map<ExifTag, ExifValue>>;

/// The display text of the primary-image fields that kamadak-exif parses
/// from a file's bytes, if it parses them at all.
pub uninterp spec fn exif_display_of(data: Seq<u8>) -> Option<Map<ExifTag, Seq<char>>>;

/// Parse the EXIF attributes in a file (via `exif::Reader::read_from_container`
/// on an in-memory cursor).
///
/// Claims what kamadak-exif's source shows: parsing an in-memory cursor
/// depends on the bytes alone, so whether it succeeds, and the fields and
/// display texts of what it parses, are functions of `data`.
#[verifier::external_body]
pub(crate) fn exif_read(data: &[u8]) -> (r: Option<exif::Exif>)
    ensures
        r is Some <==> exif_fields_of(data@) is Some,
        r is Some <==> exif_display_of(data@) is Some,
        r matches Some(a) ==> exif_fields_of(data@) == Some(exif_primary_fields(a)),
        r matches Some(a) ==> exif_display_of(data@) == Some(exif_primary_display(a)),
{
    exif::Reader::new().read_from_container(&mut std::io::Cursor::new(data)).ok()
}

/// The primary-image fields of parsed attributes: each tag present in the
/// primary image's IFDs, with its value as an [`ExifValue`].
pub uninterp spec fn exif_primary_fields(attrs: exif::Exif) -> Map<ExifTag, ExifValue>;

/// The display text of each primary-image field of parsed attributes.
pub uninterp spec fn exif_primary_display(attrs: exif::Exif) -> Map<ExifTag, Seq<char>>;

/// The entry of `m` under `tag`, if present.
pub open spec fn lookup<V>(m: Map<ExifTag, V>, tag: ExifTag) -> Option<V> {
    if m.dom().contains(tag) {
        Some(m[tag])
    } else {
        None
    }
}

/// The primary-image field with `tag`, if present.
pub open spec fn field_of(attrs: exif::Exif, tag: ExifTag) -> Option<ExifValue> {
    lookup(exif_primary_fields(attrs), tag)
}

/// The display text of the primary-image field with `tag`, if present.
pub open spec fn display_of(attrs: exif::Exif, tag: ExifTag) -> Option<Seq<char>> {
    lookup(exif_primary_display(attrs), tag)
}

/// The primary-image field with `tag` (via `exif::Exif::get_field`), its
/// value converted to an [`ExifValue`].
///
/// Claims what kamadak-exif's source shows: `get_field` looks the tag up in
/// the parsed attributes, so the result is the field stored under `tag`,
/// the same for the same attributes and tag.
#[verifier::external_body]
pub(crate) fn exif_field(attrs: &exif::Exif, tag: ExifTag) -> (r: Option<ExifValue>)
    ensures
        r == (if exif_primary_fields(*attrs).dom().contains(tag) {
            Some(exif_primary_fields(*attrs)[tag])
        } else {
            None
        }),
{
    let contexts = [Context::Tiff, Context::Exif, Context::Gps, Context::Interop];
    Some(match &attrs.get_field(Tag(contexts[tag.context as usize], tag.number), In::PRIMARY)?.value {
        Value::Byte(v) => Byte(v.clone()),
        Value::Short(v) => Short(v.clone()),
        Value::Long(v) => Long(v.clone()),
        Value::Rational(v) => Rational(v.iter().map(|r| (r.num, r.denom)).collect()),
        Value::SRational(v) => SRational(v.iter().map(|r| (r.num, r.denom)).collect()),
        Value::Undefined(v, _) => Undefined(v.clone()),
        _ => Other,
    })
}

/// The primary-image field with `tag` formatted for display (via
/// `exif::Field::display_value`).
///
/// Claims what kamadak-exif's source shows: the same lookup as
/// [`exif_field`] (present exactly for the same tags), and the text of the
/// field found, the same for the same attributes and tag. What the text
/// looks like is not stated.
#[verifier::external_body]
pub(crate) fn exif_field_display(attrs: &exif::Exif, tag: ExifTag) -> (r: Option<String>)
    ensures
        r is Some <==> exif_primary_fields(*attrs).dom().contains(tag),
        match r {
            Some(s) => exif_primary_display(*attrs).dom().contains(tag) && s@ == exif_primary_display(
                *attrs,
            )[tag],
            None => !exif_primary_display(*attrs).dom().contains(tag),
        },
{
    let contexts = [Context::Tiff, Context::Exif, Context::Gps, Context::Interop];
    let f = attrs.get_field(Tag(contexts[tag.context as usize], tag.number), In::PRIMARY)?;
    Some(f.display_value().to_string())
}

// ── Reading values ───────────────────────────────────────────────────

/// A LONG or SHORT field's first value.
pub open spec fn spec_value_u32(v: ExifValue) -> Option<u32> {
    match v {
        ExifValue::Long(x) => if x@.len() > 0 {
            Some(x@[0])
        } else {
            None
        },
        ExifValue::Short(x) => if x@.len() > 0 {
            Some(x@[0] as u32)
        } else {
            None
        },
        _ => None,
    }
}

/// A SHORT or LONG field's first value (a LONG truncated to 16 bits).
pub open spec fn spec_value_u16(v: ExifValue) -> Option<u16> {
    match v {
        ExifValue::Short(x) => if x@.len() > 0 {
            Some(x@[0])
        } else {
            None
        },
        ExifValue::Long(x) => if x@.len() > 0 {
            Some(x@[0] as u16)
        } else {
            None
        },
        _ => None,
    }
}

/// A RATIONAL field's first value.
pub open spec fn spec_value_rational(v: ExifValue) -> Option<(u32, u32)> {
    match v {
        ExifValue::Rational(x) => if x@.len() > 0 {
            Some(x@[0])
        } else {
            None
        },
        _ => None,
    }
}

/// The first four bytes of a BYTE field with at least four values.
pub open spec fn spec_value_dng_version(v: ExifValue) -> Option<[u8; 4]> {
    match v {
        ExifValue::Byte(x) => if x@.len() >= 4 {
            Some([x@[0], x@[1], x@[2], x@[3]])
        } else {
            None
        },
        _ => None,
    }
}

/// A LONG or SHORT field's first value.
pub fn value_u32(v: &ExifValue) -> (r: Option<u32>)
    ensures
        r == spec_value_u32(*v),
{
    match v {
        ExifValue::Long(x) => if x.len() > 0 {
            Some(x[0])
        } else {
            None
        },
        ExifValue::Short(x) => if x.len() > 0 {
            Some(x[0] as u32)
        } else {
            None
        },
        _ => None,
    }
}

/// A SHORT or LONG field's first value (a LONG truncated to 16 bits).
pub fn value_u16(v: &ExifValue) -> (r: Option<u16>)
    ensures
        r == spec_value_u16(*v),
{
    match v {
        ExifValue::Short(x) => if x.len() > 0 {
            Some(x[0])
        } else {
            None
        },
        ExifValue::Long(x) => if x.len() > 0 {
            Some(x[0] as u16)
        } else {
            None
        },
        _ => None,
    }
}

/// A RATIONAL field's first value as `(numerator, denominator)`.
pub fn value_rational(v: &ExifValue) -> (r: Option<(u32, u32)>)
    ensures
        r == spec_value_rational(*v),
{
    match v {
        ExifValue::Rational(x) => if x.len() > 0 {
            Some(x[0])
        } else {
            None
        },
        _ => None,
    }
}

/// The DNGVersion bytes of a BYTE field with at least four values.
pub fn value_dng_version(v: &ExifValue) -> (r: Option<[u8; 4]>)
    ensures
        r == spec_value_dng_version(*v),
{
    match v {
        ExifValue::Byte(x) => if x.len() >= 4 {
            Some([x[0], x[1], x[2], x[3]])
        } else {
            None
        },
        _ => None,
    }
}

/// `s` without its leading and trailing `"` characters.
pub open spec fn trim_quotes(s: Seq<char>) -> Seq<char>
    decreases s.len(),
{
    if s.len() > 0 && s[0] == '"' {
        trim_quotes(s.drop_first())
    } else if s.len() > 0 && s.last() == '"' {
        trim_quotes(s.drop_last())
    } else {
        s
    }
}

/// Remove leading and trailing `"` characters (via `str::trim_matches`).
///
/// Claims what the std documentation states: all prefixes and suffixes
/// matching the pattern are repeatedly removed.
#[verifier::external_body]
fn str_trim_quotes(s: &str) -> (r: &str)
    ensures
        r@ == trim_quotes(s@),
{
    s.trim_matches('"')
}

// ── Field readers ────────────────────────────────────────────────────

/// The display text of a field, without surrounding quotes.
pub open spec fn spec_field_text(attrs: exif::Exif, tag: ExifTag) -> Option<Seq<char>> {
    text_in(exif_primary_display(attrs), tag)
}

/// The display text under `tag` in `display`, without surrounding quotes.
pub open spec fn text_in(display: Map<ExifTag, Seq<char>>, tag: ExifTag) -> Option<Seq<char>> {
    match lookup(display, tag) {
        Some(t) => Some(trim_quotes(t)),
        None => None,
    }
}

/// A field's value as read by `f`, when the field is present.
pub open spec fn read_field<T>(attrs: exif::Exif, tag: ExifTag, f: spec_fn(ExifValue) -> Option<T>) -> Option<T> {
    read_in(exif_primary_fields(attrs), tag, f)
}

/// The value under `tag` in `fields` as read by `f`, when present.
pub open spec fn read_in<T>(fields: Map<ExifTag, ExifValue>, tag: ExifTag, f: spec_fn(ExifValue) -> Option<T>) -> Option<T> {
    match lookup(fields, tag) {
        Some(v) => f(v),
        None => None,
    }
}

/// The field's display text without surrounding quotes.
pub fn get_string(attrs: &exif::Exif, tag: ExifTag) -> (r: Option<String>)
    ensures
        crate::text::opt_text(r) == spec_field_text(*attrs, tag),
{
    let text = exif_field_display(attrs, tag)?;
    let t = str_trim_quotes(text.as_str());
    proof {
        lemma_trim_quotes_idempotent(text@);
    }
    Some(String::from_str(t))
}

proof fn lemma_trim_quotes_idempotent(s: Seq<char>)
    ensures
        trim_quotes(trim_quotes(s)) == trim_quotes(s),
    decreases s.len(),
{
    if s.len() > 0 && s[0] == '"' {
        lemma_trim_quotes_idempotent(s.drop_first());
    } else if s.len() > 0 && s.last() == '"' {
        lemma_trim_quotes_idempotent(s.drop_last());
    }
}

/// The first value of a LONG or SHORT field.
pub fn get_u32(attrs: &exif::Exif, tag: ExifTag) -> (r: Option<u32>)
    ensures
        r == read_field(*attrs, tag, |v: ExifValue| spec_value_u32(v)),
{
    let v = exif_field(attrs, tag)?;
    value_u32(&v)
}

/// The first value of a SHORT or LONG field.
pub fn get_u16(attrs: &exif::Exif, tag: ExifTag) -> (r: Option<u16>)
    ensures
        r == read_field(*attrs, tag, |v: ExifValue| spec_value_u16(v)),
{
    let v = exif_field(attrs, tag)?;
    value_u16(&v)
}

/// The first value of a RATIONAL field.
pub fn get_rational(attrs: &exif::Exif, tag: ExifTag) -> (r: Option<(u32, u32)>)
    ensures
        r == read_field(*attrs, tag, |v: ExifValue| spec_value_rational(v)),
{
    let v = exif_field(attrs, tag)?;
    value_rational(&v)
}

/// The DNGVersion tag (0xC612).
pub open spec fn dng_version_spec_tag() -> ExifTag {
    ExifTag { context: ExifContext::Tiff, number: 0xC612 }
}

/// The DNGVersion tag (0xC612).
pub fn dng_version_tag() -> (r: ExifTag)
    ensures
        r == (ExifTag { context: ExifContext::Tiff, number: 0xC612 }),
{
    ExifTag { context: ExifContext::Tiff, number: 0xC612 }
}

/// The DNGVersion field's four bytes.
pub fn get_dng_version(attrs: &exif::Exif) -> (r: Option<[u8; 4]>)
    ensures
        r == read_field(*attrs, dng_version_spec_tag(), |v: ExifValue| spec_value_dng_version(v)),
{
    let v = exif_field(attrs, dng_version_tag())?;
    value_dng_version(&v)
}

// ── Multi-valued fields ──────────────────────────────────────────────

/// A RATIONAL field's values, when there are any.
pub open spec fn spec_value_rationals(v: ExifValue) -> Option<Seq<(u32, u32)>> {
    match v {
        ExifValue::Rational(x) => if x@.len() > 0 {
            Some(x@)
        } else {
            None
        },
        _ => None,
    }
}

/// An SRATIONAL field's values, when there are any.
pub open spec fn spec_value_srationals(v: ExifValue) -> Option<Seq<(i32, i32)>> {
    match v {
        ExifValue::SRational(x) => if x@.len() > 0 {
            Some(x@)
        } else {
            None
        },
        _ => None,
    }
}

/// The first two values of a RATIONAL field with at least two.
pub open spec fn spec_value_rational_pair(v: ExifValue) -> Option<((u32, u32), (u32, u32))> {
    match v {
        ExifValue::Rational(x) => if x@.len() >= 2 {
            Some((x@[0], x@[1]))
        } else {
            None
        },
        _ => None,
    }
}

/// A RATIONAL field's values, when there are any.
pub fn value_rationals(v: &ExifValue) -> (r: Option<Vec<(u32, u32)>>)
    ensures
        match r {
            Some(x) => spec_value_rationals(*v) == Some(x@),
            None => spec_value_rationals(*v) is None,
        },
{
    match v {
        ExifValue::Rational(x) => if x.len() > 0 {
            Some(vstd::slice::slice_to_vec(x.as_slice()))
        } else {
            None
        },
        _ => None,
    }
}

/// An SRATIONAL field's values, when there are any.
pub fn value_srationals(v: &ExifValue) -> (r: Option<Vec<(i32, i32)>>)
    ensures
        match r {
            Some(x) => spec_value_srationals(*v) == Some(x@),
            None => spec_value_srationals(*v) is None,
        },
{
    match v {
        ExifValue::SRational(x) => if x.len() > 0 {
            Some(vstd::slice::slice_to_vec(x.as_slice()))
        } else {
            None
        },
        _ => None,
    }
}

/// The first SRATIONAL value of a field.
pub open spec fn spec_first_srational(v: ExifValue) -> Option<(i32, i32)> {
    match spec_value_srationals(v) {
        Some(x) => Some(x[0]),
        None => None,
    }
}

/// The first SRATIONAL value of a field.
pub fn value_first_srational(v: &ExifValue) -> (r: Option<(i32, i32)>)
    ensures
        r == spec_first_srational(*v),
{
    match v {
        ExifValue::SRational(x) => if x.len() > 0 {
            Some(x[0])
        } else {
            None
        },
        _ => None,
    }
}

/// The first two values of a RATIONAL field with at least two.
pub fn value_rational_pair(v: &ExifValue) -> (r: Option<((u32, u32), (u32, u32))>)
    ensures
        r == spec_value_rational_pair(*v),
{
    match v {
        ExifValue::Rational(x) => if x.len() >= 2 {
            Some((x[0], x[1]))
        } else {
            None
        },
        _ => None,
    }
}

/// A GPS coordinate as stored: degrees, minutes and seconds as RATIONAL
/// `(numerator, denominator)` pairs, and whether its reference is south or
/// west (a negative coordinate).
#[derive(Clone, Copy, Debug)]
pub struct GpsCoord {
    pub degrees: (u32, u32),
    pub minutes: (u32, u32),
    pub seconds: (u32, u32),
    pub negative: bool,
}

/// The coordinate in a RATIONAL field of at least three values, negative
/// when the reference text names south or west.
pub open spec fn spec_gps_coord(v: ExifValue, reference: Option<Seq<char>>) -> Option<GpsCoord> {
    match v {
        ExifValue::Rational(x) => if x@.len() >= 3 {
            Some(
                GpsCoord {
                    degrees: x@[0],
                    minutes: x@[1],
                    seconds: x@[2],
                    negative: reference matches Some(s) && (s.contains('S') || s.contains('W')),
                },
            )
        } else {
            None
        },
        _ => None,
    }
}

/// The coordinate of a GPS field and its reference field's display text.
pub fn gps_coord(v: &ExifValue, reference: Option<String>) -> (r: Option<GpsCoord>)
    ensures
        r == spec_gps_coord(*v, crate::text::opt_text(reference)),
{
    match v {
        ExifValue::Rational(x) => if x.len() >= 3 {
            let negative = match &reference {
                Some(s) => crate::xmp::contains_char(s.as_str(), 'S') || crate::xmp::contains_char(
                    s.as_str(),
                    'W',
                ),
                None => false,
            };
            Some(GpsCoord { degrees: x[0], minutes: x[1], seconds: x[2], negative })
        } else {
            None
        },
        _ => None,
    }
}

/// The values of a RATIONAL field, when there are any.
pub fn get_rational_vec(attrs: &exif::Exif, tag: ExifTag) -> (r: Option<Vec<(u32, u32)>>)
    ensures
        match r {
            Some(v) => read_field(*attrs, tag, |x: ExifValue| spec_value_rationals(x)) == Some(v@),
            None => read_field(*attrs, tag, |x: ExifValue| spec_value_rationals(x)) is None,
        },
{
    let v = exif_field(attrs, tag)?;
    value_rationals(&v)
}

/// The values of an SRATIONAL field, when there are any.
pub fn get_srational_vec(attrs: &exif::Exif, tag: ExifTag) -> (r: Option<Vec<(i32, i32)>>)
    ensures
        match r {
            Some(v) => read_field(*attrs, tag, |x: ExifValue| spec_value_srationals(x)) == Some(v@),
            None => read_field(*attrs, tag, |x: ExifValue| spec_value_srationals(x)) is None,
        },
{
    let v = exif_field(attrs, tag)?;
    value_srationals(&v)
}

/// The first value of an SRATIONAL field.
pub fn get_srational(attrs: &exif::Exif, tag: ExifTag) -> (r: Option<(i32, i32)>)
    ensures
        r == read_field(*attrs, tag, |v: ExifValue| spec_first_srational(v)),
{
    let v = exif_field(attrs, tag)?;
    value_first_srational(&v)
}

/// The first two values of a RATIONAL field (an x, y chromaticity).
pub fn get_rational_xy(attrs: &exif::Exif, tag: ExifTag) -> (r: Option<((u32, u32), (u32, u32))>)
    ensures
        r == read_field(*attrs, tag, |v: ExifValue| spec_value_rational_pair(v)),
{
    let v = exif_field(attrs, tag)?;
    value_rational_pair(&v)
}

/// The GPS coordinate of the field `coord_tag`, with the display text of the
/// field `ref_tag` as its reference.
pub open spec fn spec_field_gps(attrs: exif::Exif, coord_tag: ExifTag, ref_tag: ExifTag) -> Option<GpsCoord> {
    gps_in(exif_primary_fields(attrs), exif_primary_display(attrs), coord_tag, ref_tag)
}

/// The GPS coordinate under `coord_tag` in `fields`, with the text under
/// `ref_tag` in `display` as its reference.
pub open spec fn gps_in(
    fields: Map<ExifTag, ExifValue>,
    display: Map<ExifTag, Seq<char>>,
    coord_tag: ExifTag,
    ref_tag: ExifTag,
) -> Option<GpsCoord> {
    match lookup(fields, coord_tag) {
        Some(v) => spec_gps_coord(v, lookup(display, ref_tag)),
        None => None,
    }
}

/// The GPS coordinate in `coord_tag`, negated by a south/west `ref_tag`.
pub fn get_gps_coord(attrs: &exif::Exif, coord_tag: ExifTag, ref_tag: ExifTag) -> (r: Option<GpsCoord>)
    ensures
        r == spec_field_gps(*attrs, coord_tag, ref_tag),
{
    let v = exif_field(attrs, coord_tag)?;
    gps_coord(&v, exif_field_display(attrs, ref_tag))
}

// ── Metadata ─────────────────────────────────────────────────────────

/// EXIF metadata extracted from a RAW/DNG file, with each number kept as
/// stored: RATIONAL and SRATIONAL values as `(numerator, denominator)`.
#[derive(Clone, Debug)]
pub struct ExifMetadataWords {
    // ── Camera info ──
    pub make: Option<String>,
    pub model: Option<String>,
    pub software: Option<String>,
    pub date_time: Option<String>,
    // ── Exposure ──
    pub exposure_time: Option<(u32, u32)>,
    pub f_number: Option<(u32, u32)>,
    pub iso: Option<u32>,
    pub focal_length: Option<(u32, u32)>,
    pub lens_model: Option<String>,
    // ── Image ──
    pub width: Option<u32>,
    pub height: Option<u32>,
    pub orientation: Option<u16>,
    pub bits_per_sample: Option<u16>,
    // ── GPS ──
    pub gps_latitude: Option<GpsCoord>,
    pub gps_longitude: Option<GpsCoord>,
    pub gps_altitude: Option<(u32, u32)>,
    // ── DNG-specific ──
    pub dng_version: Option<[u8; 4]>,
    pub unique_camera_model: Option<String>,
    pub color_matrix_1: Option<Vec<(i32, i32)>>,
    pub color_matrix_2: Option<Vec<(i32, i32)>>,
    pub forward_matrix_1: Option<Vec<(i32, i32)>>,
    pub forward_matrix_2: Option<Vec<(i32, i32)>>,
    pub as_shot_neutral: Option<Vec<(u32, u32)>>,
    pub as_shot_white_xy: Option<((u32, u32), (u32, u32))>,
    pub baseline_exposure: Option<(i32, i32)>,
    pub calibration_illuminant_1: Option<u16>,
    pub calibration_illuminant_2: Option<u16>,
}

fn tiff_tag(number: u16) -> (r: ExifTag)
    ensures
        r == (ExifTag { context: ExifContext::Tiff, number }),
{
    ExifTag { context: ExifContext::Tiff, number }
}

fn exif_tag(number: u16) -> (r: ExifTag)
    ensures
        r == (ExifTag { context: ExifContext::Exif, number }),
{
    ExifTag { context: ExifContext::Exif, number }
}

fn gps_tag(number: u16) -> (r: ExifTag)
    ensures
        r == (ExifTag { context: ExifContext::Gps, number }),
{
    ExifTag { context: ExifContext::Gps, number }
}

/// `first`, or else `second`.
fn first_some(first: Option<u32>, second: Option<u32>) -> (r: Option<u32>)
    ensures
        r == (if first is Some {
            first
        } else {
            second
        }),
{
    match first {
        Some(v) => Some(v),
        None => second,
    }
}

/// A TIFF (IFD0) tag.
pub open spec fn t_tag(number: u16) -> ExifTag {
    ExifTag { context: ExifContext::Tiff, number }
}

/// An Exif IFD tag.
pub open spec fn e_tag(number: u16) -> ExifTag {
    ExifTag { context: ExifContext::Exif, number }
}

/// A GPS IFD tag.
pub open spec fn g_tag(number: u16) -> ExifTag {
    ExifTag { context: ExifContext::Gps, number }
}

/// An optional sequence's contents.
pub open spec fn opt_vec<T>(o: Option<Vec<T>>) -> Option<Seq<T>> {
    match o {
        Some(v) => Some(v@),
        None => None,
    }
}

impl ExifMetadataWords {
    /// Every field holds what its tag gives in the primary-image `fields`
    /// and their `display` texts: text without surrounding quotes, the first
    /// value of single values, all values of matrices and vectors, width and
    /// height falling back to the Exif pixel dimensions.
    pub open spec fn read_from(self, fields: Map<ExifTag, ExifValue>, display: Map<ExifTag, Seq<char>>) -> bool {
        let u32_of = |v: ExifValue| spec_value_u32(v);
        let u16_of = |v: ExifValue| spec_value_u16(v);
        let rat_of = |v: ExifValue| spec_value_rational(v);
        let srats_of = |v: ExifValue| spec_value_srationals(v);
        &&& crate::text::opt_text(self.make) == text_in(display, t_tag(0x010F))
        &&& crate::text::opt_text(self.model) == text_in(display, t_tag(0x0110))
        &&& crate::text::opt_text(self.software) == text_in(display, t_tag(0x0131))
        &&& crate::text::opt_text(self.date_time) == text_in(display, t_tag(0x0132))
        &&& self.exposure_time == read_in(fields, e_tag(0x829A), rat_of)
        &&& self.f_number == read_in(fields, e_tag(0x829D), rat_of)
        &&& self.iso == read_in(fields, e_tag(0x8827), u32_of)
        &&& self.focal_length == read_in(fields, e_tag(0x920A), rat_of)
        &&& crate::text::opt_text(self.lens_model) == text_in(display, e_tag(0xA434))
        &&& self.width == crate::xmp::or_else(read_in(fields, t_tag(0x0100), u32_of), read_in(fields, e_tag(0xA002), u32_of))
        &&& self.height == crate::xmp::or_else(read_in(fields, t_tag(0x0101), u32_of), read_in(fields, e_tag(0xA003), u32_of))
        &&& self.orientation == read_in(fields, t_tag(0x0112), u16_of)
        &&& self.bits_per_sample == read_in(fields, t_tag(0x0102), u16_of)
        &&& self.gps_latitude == gps_in(fields, display, g_tag(0x0002), g_tag(0x0001))
        &&& self.gps_longitude == gps_in(fields, display, g_tag(0x0004), g_tag(0x0003))
        &&& self.gps_altitude == read_in(fields, g_tag(0x0006), rat_of)
        &&& self.dng_version == read_in(fields, t_tag(0xC612), |v: ExifValue| spec_value_dng_version(v))
        &&& crate::text::opt_text(self.unique_camera_model) == text_in(display, t_tag(0xC614))
        &&& opt_vec(self.color_matrix_1) == read_in(fields, t_tag(0xC621), srats_of)
        &&& opt_vec(self.color_matrix_2) == read_in(fields, t_tag(0xC622), srats_of)
        &&& opt_vec(self.forward_matrix_1) == read_in(fields, t_tag(0xC714), srats_of)
        &&& opt_vec(self.forward_matrix_2) == read_in(fields, t_tag(0xC715), srats_of)
        &&& opt_vec(self.as_shot_neutral) == read_in(fields, t_tag(0xC628), |v: ExifValue| spec_value_rationals(v))
        &&& self.as_shot_white_xy == read_in(fields, t_tag(0xC629), |v: ExifValue| spec_value_rational_pair(v))
        &&& self.baseline_exposure == read_in(fields, t_tag(0xC62A), |v: ExifValue| spec_first_srational(v))
        &&& self.calibration_illuminant_1 == read_in(fields, t_tag(0xC65A), u16_of)
        &&& self.calibration_illuminant_2 == read_in(fields, t_tag(0xC65B), u16_of)
    }
}

/// Extract EXIF and DNG metadata from file bytes.
///
/// Works with TIFF-based RAW formats (DNG, CR2, NEF, ARW, PEF, ORF, etc.).
/// Returns `None` exactly when kamadak-exif parses no attributes from the
/// bytes; otherwise every field is read from the primary image's fields.
pub fn read_metadata_words(data: &[u8]) -> (r: Option<ExifMetadataWords>)
    ensures
        r is Some <==> exif_fields_of(data@) is Some,
        r matches Some(m) ==> m.read_from(exif_fields_of(data@)->0, exif_display_of(data@)->0),
{
    let attrs = exif_read(data)?;
    let m = ExifMetadataWords {
        // Camera info
        make: get_string(&attrs, tiff_tag(0x010F)),
        model: get_string(&attrs, tiff_tag(0x0110)),
        software: get_string(&attrs, tiff_tag(0x0131)),
        date_time: get_string(&attrs, tiff_tag(0x0132)),
        // Exposure
        exposure_time: get_rational(&attrs, exif_tag(0x829A)),
        f_number: get_rational(&attrs, exif_tag(0x829D)),
        iso: get_u32(&attrs, exif_tag(0x8827)),
        focal_length: get_rational(&attrs, exif_tag(0x920A)),
        lens_model: get_string(&attrs, exif_tag(0xA434)),
        // Image dimensions
        width: first_some(get_u32(&attrs, tiff_tag(0x0100)), get_u32(&attrs, exif_tag(0xA002))),
        height: first_some(get_u32(&attrs, tiff_tag(0x0101)), get_u32(&attrs, exif_tag(0xA003))),
        orientation: get_u16(&attrs, tiff_tag(0x0112)),
        bits_per_sample: get_u16(&attrs, tiff_tag(0x0102)),
        // GPS
        gps_latitude: get_gps_coord(&attrs, gps_tag(0x0002), gps_tag(0x0001)),
        gps_longitude: get_gps_coord(&attrs, gps_tag(0x0004), gps_tag(0x0003)),
        gps_altitude: get_rational(&attrs, gps_tag(0x0006)),
        // DNG
        dng_version: get_dng_version(&attrs),
        unique_camera_model: get_string(&attrs, tiff_tag(0xC614)),
        color_matrix_1: get_srational_vec(&attrs, tiff_tag(0xC621)),
        color_matrix_2: get_srational_vec(&attrs, tiff_tag(0xC622)),
        forward_matrix_1: get_srational_vec(&attrs, tiff_tag(0xC714)),
        forward_matrix_2: get_srational_vec(&attrs, tiff_tag(0xC715)),
        as_shot_neutral: get_rational_vec(&attrs, tiff_tag(0xC628)),
        as_shot_white_xy: get_rational_xy(&attrs, tiff_tag(0xC629)),
        baseline_exposure: get_srational(&attrs, tiff_tag(0xC62A)),
        calibration_illuminant_1: get_u16(&attrs, tiff_tag(0xC65A)),
        calibration_illuminant_2: get_u16(&attrs, tiff_tag(0xC65B)),
    };
    assert(m.read_from(exif_primary_fields(attrs), exif_primary_display(attrs)));
    Some(m)
}

/// The RATIONAL values of a field; none for other types.
pub open spec fn rational_values(v: ExifValue) -> Seq<(u32, u32)> {
    match v {
        ExifValue::Rational(x) => x@,
        _ => Seq::empty(),
    }
}

/// A GPS reference text that names south or west.
pub open spec fn names_south_or_west(s: Seq<char>) -> bool {
    s.contains('S') || s.contains('W')
}

/// Each GPS coordinate is read from its own field and signed by its own
/// reference: the latitude is the first three RATIONALs of GPSLatitude (GPS
/// tag 2) and is negative exactly when the GPSLatitudeRef text (GPS tag 1)
/// names south or west; the longitude is the first three RATIONALs of
/// GPSLongitude (GPS tag 4) and is negative exactly when the GPSLongitudeRef
/// text (GPS tag 3) does, whatever the latitude reference says.
pub proof fn law_gps_coordinates_follow_their_own_fields(
    m: ExifMetadataWords,
    fields: Map<ExifTag, ExifValue>,
    display: Map<ExifTag, Seq<char>>,
)
    requires
        m.read_from(fields, display),
    ensures
        ({
            let lat = ExifTag { context: ExifContext::Gps, number: 2 };
            let lat_ref = ExifTag { context: ExifContext::Gps, number: 1 };
            &&& m.gps_latitude is Some <==> (fields.dom().contains(lat) && rational_values(fields[lat]).len() >= 3)
            &&& m.gps_latitude matches Some(c) ==> (c.degrees == rational_values(fields[lat])[0] && c.minutes == rational_values(fields[lat])[1] && c.seconds == rational_values(fields[lat])[2])
            &&& m.gps_latitude matches Some(c) ==> (c.negative <==> (display.dom().contains(lat_ref) && names_south_or_west(display[lat_ref])))
        }),
        ({
            let lon = ExifTag { context: ExifContext::Gps, number: 4 };
            let lon_ref = ExifTag { context: ExifContext::Gps, number: 3 };
            &&& m.gps_longitude is Some <==> (fields.dom().contains(lon) && rational_values(fields[lon]).len() >= 3)
            &&& m.gps_longitude matches Some(c) ==> (c.degrees == rational_values(fields[lon])[0] && c.minutes == rational_values(fields[lon])[1] && c.seconds == rational_values(fields[lon])[2])
            &&& m.gps_longitude matches Some(c) ==> (c.negative <==> (display.dom().contains(lon_ref) && names_south_or_west(display[lon_ref])))
        }),
{
}

/// Each metadata field is read from the tag of its own name (TIFF tags
/// 0x010F Make, 0x0110 Model, 0x0131 Software, 0x0132 DateTime, 0x0100
/// ImageWidth, 0x0101 ImageLength, 0x0112 Orientation, 0x0102 BitsPerSample,
/// the DNG tags 0xC614 UniqueCameraModel, 0xC621/0xC622 ColorMatrix1/2,
/// 0xC714/0xC715 ForwardMatrix1/2, 0xC65A/0xC65B CalibrationIlluminant1/2;
/// Exif tags 0x829A ExposureTime, 0x829D FNumber, 0x8827 ISO, 0x920A
/// FocalLength, 0xA434 LensModel; GPS tag 6 GPSAltitude); width and height
/// come from ImageWidth and ImageLength whenever those give a value.
pub proof fn law_metadata_fields_read_their_own_tags(
    m: ExifMetadataWords,
    fields: Map<ExifTag, ExifValue>,
    display: Map<ExifTag, Seq<char>>,
)
    requires
        m.read_from(fields, display),
    ensures
        crate::text::opt_text(m.make) == text_in(display, ExifTag { context: ExifContext::Tiff, number: 0x010F }),
        crate::text::opt_text(m.model) == text_in(display, ExifTag { context: ExifContext::Tiff, number: 0x0110 }),
        crate::text::opt_text(m.software) == text_in(display, ExifTag { context: ExifContext::Tiff, number: 0x0131 }),
        crate::text::opt_text(m.date_time) == text_in(display, ExifTag { context: ExifContext::Tiff, number: 0x0132 }),
        m.exposure_time == read_in(fields, ExifTag { context: ExifContext::Exif, number: 0x829A }, |v: ExifValue| spec_value_rational(v)),
        m.f_number == read_in(fields, ExifTag { context: ExifContext::Exif, number: 0x829D }, |v: ExifValue| spec_value_rational(v)),
        m.iso == read_in(fields, ExifTag { context: ExifContext::Exif, number: 0x8827 }, |v: ExifValue| spec_value_u32(v)),
        m.focal_length == read_in(fields, ExifTag { context: ExifContext::Exif, number: 0x920A }, |v: ExifValue| spec_value_rational(v)),
        crate::text::opt_text(m.lens_model) == text_in(display, ExifTag { context: ExifContext::Exif, number: 0xA434 }),
        read_in(fields, ExifTag { context: ExifContext::Tiff, number: 0x0100 }, |v: ExifValue| spec_value_u32(v)) is Some ==> m.width == read_in(fields, ExifTag { context: ExifContext::Tiff, number: 0x0100 }, |v: ExifValue| spec_value_u32(v)),
        read_in(fields, ExifTag { context: ExifContext::Tiff, number: 0x0101 }, |v: ExifValue| spec_value_u32(v)) is Some ==> m.height == read_in(fields, ExifTag { context: ExifContext::Tiff, number: 0x0101 }, |v: ExifValue| spec_value_u32(v)),
        m.orientation == read_in(fields, ExifTag { context: ExifContext::Tiff, number: 0x0112 }, |v: ExifValue| spec_value_u16(v)),
        m.bits_per_sample == read_in(fields, ExifTag { context: ExifContext::Tiff, number: 0x0102 }, |v: ExifValue| spec_value_u16(v)),
        m.gps_altitude == read_in(fields, ExifTag { context: ExifContext::Gps, number: 0x0006 }, |v: ExifValue| spec_value_rational(v)),
        crate::text::opt_text(m.unique_camera_model) == text_in(display, ExifTag { context: ExifContext::Tiff, number: 0xC614 }),
        opt_vec(m.color_matrix_1) == read_in(fields, ExifTag { context: ExifContext::Tiff, number: 0xC621 }, |v: ExifValue| spec_value_srationals(v)),
        opt_vec(m.color_matrix_2) == read_in(fields, ExifTag { context: ExifContext::Tiff, number: 0xC622 }, |v: ExifValue| spec_value_srationals(v)),
        opt_vec(m.forward_matrix_1) == read_in(fields, ExifTag { context: ExifContext::Tiff, number: 0xC714 }, |v: ExifValue| spec_value_srationals(v)),
        opt_vec(m.forward_matrix_2) == read_in(fields, ExifTag { context: ExifContext::Tiff, number: 0xC715 }, |v: ExifValue| spec_value_srationals(v)),
        m.calibration_illuminant_1 == read_in(fields, ExifTag { context: ExifContext::Tiff, number: 0xC65A }, |v: ExifValue| spec_value_u16(v)),
        m.calibration_illuminant_2 == read_in(fields, ExifTag { context: ExifContext::Tiff, number: 0xC65B }, |v: ExifValue| spec_value_u16(v)),
{
}

} // verus!
