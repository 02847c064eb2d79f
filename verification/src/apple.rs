//! Apple-specific metadata extraction for APPLEDNG and AMPF files.
//!
//! Parses the Apple MakerNote, the MPF (Multi-Picture Format) index that
//! locates the HDR gain map, JPEG frame dimensions, and the semantic
//! segmentation mattes stored in APPLEDNG SubIFDs. Values that Apple stores
//! as rationals are kept as their raw numerator/denominator pairs.
use vstd::prelude::*;

use crate::bytes::{be16, matches_at};
use crate::text::{trim_end_nul, utf8_lossy};
use crate::exif::{ExifContext, ExifTag, ExifValue};
use crate::tiff_ifd::{
    find_in_entries, find_in_ifds, read_entry_bytes, spec_entry_bytes, find_tag, ifd_views, read16, read32, read_ascii_value, read_long_values,
    read_u16_value, read_u32_value, spec_ascii_value, read_rational_words, read_float_words,
    read_double_words, spec_rational_words, spec_float_words, spec_double_words, spec_long_values, spec_parse, spec_u16_value,
    spec_u32_value, tags, ByteOrder, Ifd, IfdEntry, IfdView, TiffStructure,
};
use vstd::utf8::{decode_utf8, encode_utf8};
use crate::text::opt_text;
use crate::xmp::tail;

pub mod makernote_tags;
pub mod metadata;

verus! {

// ── Apple MakerNote ──────────────────────────────────────────────────

/// A single raw MakerNote tag value.
#[derive(Clone, Debug)]
pub struct MakerNoteTag {
    pub tag: u16,
    pub dtype: u16,
    pub count: u32,
    /// Raw bytes of the value data.
    pub data: Vec<u8>,
}

/// Tag id, type, count and value bytes of a MakerNote tag.
pub type MakerNoteTagView = (u16, u16, u32, Seq<u8>);

/// Views of a sequence of tags.
pub open spec fn tag_views(s: Seq<MakerNoteTag>) -> Seq<MakerNoteTagView> {
    s.map_values(|t: MakerNoteTag| (t.tag, t.dtype, t.count, t.data@))
}

/// Parsed Apple MakerNote.
#[derive(Clone, Debug)]
#[non_exhaustive]
pub struct AppleMakerNote {
    /// MakerNote header version (e.g., 14 for iPhone 16 Pro).
    pub version: u16,
    /// Byte order of the MakerNote IFD.
    pub byte_order: ByteOrder,
    /// All raw tags from the MakerNote (including unknown ones).
    pub tags: Vec<MakerNoteTag>,
    // ── Parsed known fields ──
    pub image_capture_type: Option<i32>,
    pub hdr_image_type: Option<i32>,
    /// Signal-to-noise ratio as the stored RATIONAL `(numerator, denominator)`.
    pub signal_to_noise_ratio: Option<(u32, u32)>,
    pub af_stable: Option<bool>,
    pub ae_stable: Option<bool>,
    /// Acceleration vector as stored rationals `(numerator, denominator)`.
    pub acceleration_vector: Option<Vec<(i32, i32)>>,
    pub burst_uuid: Option<String>,
    pub image_unique_id: Option<String>,
    pub live_photo_id: Option<String>,
}

/// `Apple iOS\0`
pub open spec fn apple_ios_sig() -> Seq<u8> {
    seq![0x41u8, 0x70, 0x70, 0x6C, 0x65, 0x20, 0x69, 0x4F, 0x53, 0x00]
}

/// Bytes per element of a MakerNote value type; unknown types count as 1.
pub open spec fn mn_type_size(dtype: u16) -> nat {
    if dtype == 1 || dtype == 2 || dtype == 6 || dtype == 7 {
        1
    } else if dtype == 3 || dtype == 8 {
        2
    } else if dtype == 4 || dtype == 9 || dtype == 11 {
        4
    } else if dtype == 5 || dtype == 10 || dtype == 12 {
        8
    } else {
        1
    }
}

/// The value bytes of the 12-byte entry at `e`: inline when they fit in
/// four bytes, else at the stored offset when that range lies within `t`,
/// else empty.
pub open spec fn mn_value(t: Seq<u8>, e: int, bo: ByteOrder) -> Seq<u8> {
    let total = mn_type_size(read16(t, e + 2, bo)) * read32(t, e + 4, bo);
    if total <= 4 {
        t.subrange(e + 8, e + 8 + total)
    } else {
        let off = read32(t, e + 8, bo) as int;
        if off + total <= t.len() {
            t.subrange(off, off + total)
        } else {
            Seq::empty()
        }
    }
}

/// The tag whose entry starts at `e`.
pub open spec fn mn_tag(t: Seq<u8>, e: int, bo: ByteOrder) -> MakerNoteTagView {
    (read16(t, e, bo), read16(t, e + 2, bo), read32(t, e + 4, bo), mn_value(t, e, bo))
}

/// Where the MakerNote IFD starts within the data after the byte-order
/// mark: at the offset a standard TIFF header (magic 42) gives, else right
/// after the mark.
pub open spec fn mn_ifd_offset(t: Seq<u8>, bo: ByteOrder) -> int {
    if read16(t, 2, bo) == 42 {
        read32(t, 4, bo) as int
    } else {
        2
    }
}

/// Number of entries read from the IFD at `ifd`: the stored count, cut at
/// the first entry that does not fit.
pub open spec fn mn_entry_count(t: Seq<u8>, bo: ByteOrder, ifd: int) -> int {
    let n = read16(t, ifd, bo) as int;
    let fit = (t.len() - (ifd + 2)) / 12;
    if n < fit {
        n
    } else {
        fit
    }
}

/// The tags of the IFD at `ifd`, in file order.
pub open spec fn mn_tags(t: Seq<u8>, bo: ByteOrder, ifd: int) -> Seq<MakerNoteTagView> {
    Seq::new(mn_entry_count(t, bo, ifd) as nat, |i: int| mn_tag(t, ifd + 2 + 12 * i, bo))
}

/// Byte order mark at offset 12 of a MakerNote.
pub open spec fn mn_byte_order(m: Seq<u8>) -> Option<ByteOrder> {
    if m[12] == 0x4D && m[13] == 0x4D {
        Some(ByteOrder::BigEndian)
    } else if m[12] == 0x49 && m[13] == 0x49 {
        Some(ByteOrder::LittleEndian)
    } else {
        None
    }
}

/// Version, byte order and tags of a MakerNote: `Apple iOS\0`, a big-endian
/// version, a byte-order mark, and an IFD whose offsets count from the mark.
pub open spec fn spec_makernote(m: Seq<u8>) -> Option<(u16, ByteOrder, Seq<MakerNoteTagView>)> {
    if m.len() < 20 || !matches_at(m, 0, apple_ios_sig()) {
        None
    } else {
        match mn_byte_order(m) {
            None => None,
            Some(bo) => {
                let t = tail(m, 12);
                let ifd = mn_ifd_offset(t, bo);
                if ifd + 2 > t.len() {
                    None
                } else {
                    Some((be16(m, 10), bo, mn_tags(t, bo, ifd)))
                }
            },
        }
    }
}

/// Which tags a known field is read from.
pub enum TagSel {
    /// Any tag with this id.
    Id(u16),
    /// A signal-to-noise ratio the parser can read.
    Snr,
    /// An acceleration vector the parser can read.
    Accel,
    /// An ASCII tag with this id.
    Text(u16),
}

/// Tag `x` is one that `sel` picks.
pub open spec fn selects(sel: TagSel, x: MakerNoteTagView) -> bool {
    match sel {
        TagSel::Id(id) => x.0 == id,
        TagSel::Snr => is_snr_tag(x),
        TagSel::Accel => is_accel_tag(x),
        TagSel::Text(id) => x.0 == id && x.1 == 2,
    }
}

/// The last tag that `sel` picks.
pub open spec fn last_where(ts: Seq<MakerNoteTagView>, sel: TagSel) -> Option<MakerNoteTagView>
    decreases ts.len(),
{
    if ts.len() == 0 {
        None
    } else if selects(sel, ts.last()) {
        Some(ts.last())
    } else {
        last_where(ts.drop_last(), sel)
    }
}

proof fn lemma_last_where_push(ts: Seq<MakerNoteTagView>, x: MakerNoteTagView, sel: TagSel)
    ensures
        last_where(ts.push(x), sel) == if selects(sel, x) {
            Some(x)
        } else {
            last_where(ts, sel)
        },
{
    assert(ts.push(x).drop_last() =~= ts);
}

/// A SHORT, LONG or SLONG value as `i32` (LONG wraps).
pub open spec fn spec_makernote_i32(data: Seq<u8>, dtype: u16, bo: ByteOrder) -> Option<i32> {
    if dtype == 3 && data.len() >= 2 {
        Some(read16(data, 0, bo) as i32)
    } else if (dtype == 4 || dtype == 9) && data.len() >= 4 {
        Some(read32(data, 0, bo) as i32)
    } else {
        None
    }
}

/// The last tag with id `tag`, read as `i32`.
pub open spec fn i32_field(ts: Seq<MakerNoteTagView>, tag: u16, bo: ByteOrder) -> Option<i32> {
    match last_where(ts, TagSel::Id(tag)) {
        Some(x) => spec_makernote_i32(x.3, x.1, bo),
        None => None,
    }
}

/// AF stability: the last AF_STABLE tag's integer, non-zero meaning stable.
pub open spec fn af_stable_field(ts: Seq<MakerNoteTagView>, bo: ByteOrder) -> Option<bool> {
    match i32_field(ts, makernote_tags::AF_STABLE, bo) {
        Some(v) => Some(v != 0),
        None => None,
    }
}

/// AE stability: whether the last AE_STABLE tag has value bytes.
pub open spec fn ae_stable_field(ts: Seq<MakerNoteTagView>) -> Option<bool> {
    match last_where(ts, TagSel::Id(makernote_tags::AE_STABLE)) {
        Some(x) => Some(x.3.len() > 0),
        None => None,
    }
}

/// The signal-to-noise RATIONAL tag that the parser reads.
pub open spec fn is_snr_tag(x: MakerNoteTagView) -> bool {
    x.0 == makernote_tags::SIGNAL_TO_NOISE_RATIO && x.1 == 5 && x.3.len() >= 8
}

/// The last readable signal-to-noise ratio as `(numerator, denominator)`.
pub open spec fn snr_field(ts: Seq<MakerNoteTagView>, bo: ByteOrder) -> Option<(u32, u32)> {
    match last_where(ts, TagSel::Snr) {
        Some(x) => Some((read32(x.3, 0, bo), read32(x.3, 4, bo))),
        None => None,
    }
}

/// The acceleration-vector tag that the parser reads: (S)RATIONAL with at
/// least three values.
pub open spec fn is_accel_tag(x: MakerNoteTagView) -> bool {
    x.0 == makernote_tags::ACCELERATION_VECTOR && (x.1 == 10 || x.1 == 5) && x.2 >= 3
}

/// The rationals of a value: one per complete 8 bytes, at most `count`.
pub open spec fn rational_pairs(data: Seq<u8>, count: u32, bo: ByteOrder) -> Seq<(i32, i32)> {
    let n = if (count as int) < data.len() / 8 {
        count as int
    } else {
        data.len() as int / 8
    };
    Seq::new(n as nat, |j: int| (read32(data, 8 * j, bo) as i32, read32(data, 8 * j + 4, bo) as i32))
}

/// The last acceleration vector as rationals.
pub open spec fn accel_field(ts: Seq<MakerNoteTagView>, bo: ByteOrder) -> Option<Seq<(i32, i32)>> {
    match last_where(ts, TagSel::Accel) {
        Some(x) => Some(rational_pairs(x.3, x.2, bo)),
        None => None,
    }
}

/// The last ASCII tag with id `tag`, decoded lossily, trailing NULs removed.
pub open spec fn text_field(ts: Seq<MakerNoteTagView>, tag: u16) -> Option<Seq<char>> {
    match last_where(ts, TagSel::Text(tag)) {
        Some(x) => Some(trim_end_nul(utf8_lossy(x.3))),
        None => None,
    }
}

/// The contents of an optional vector.
pub open spec fn opt_seq<T>(o: Option<Vec<T>>) -> Option<Seq<T>> {
    match o {
        Some(v) => Some(v@),
        None => None,
    }
}

impl AppleMakerNote {
    /// The known fields hold what the tags `ts` say, each taken from the
    /// last tag that carries it.
    pub open spec fn known_fields_from(self, ts: Seq<MakerNoteTagView>, bo: ByteOrder) -> bool {
        &&& self.image_capture_type == i32_field(ts, makernote_tags::IMAGE_CAPTURE_TYPE, bo)
        &&& self.hdr_image_type == i32_field(ts, makernote_tags::HDR_IMAGE_TYPE, bo)
        &&& self.af_stable == af_stable_field(ts, bo)
        &&& self.ae_stable == ae_stable_field(ts)
        &&& self.signal_to_noise_ratio == snr_field(ts, bo)
        &&& opt_seq(self.acceleration_vector) == accel_field(ts, bo)
        &&& opt_text(self.burst_uuid) == text_field(ts, makernote_tags::BURST_UUID)
        &&& opt_text(self.image_unique_id) == text_field(ts, makernote_tags::IMAGE_UNIQUE_ID)
        &&& opt_text(self.live_photo_id) == text_field(ts, makernote_tags::LIVE_PHOTO_ID)
    }
}

// ── Local TIFF read helpers ──────────────────────────────────────────

fn tiff_ifd_read_u16(data: &[u8], offset: usize, byte_order: ByteOrder) -> (r: u16)
    requires
        offset + 2 <= data@.len(),
    ensures
        r == read16(data@, offset as int, byte_order),
{
    let b0 = data[offset] as u16;
    let b1 = data[offset + 1] as u16;
    match byte_order {
        ByteOrder::BigEndian => b0 * 256 + b1,
        ByteOrder::LittleEndian => b1 * 256 + b0,
    }
}

fn tiff_ifd_read_u32(data: &[u8], offset: usize, byte_order: ByteOrder) -> (r: u32)
    requires
        offset + 4 <= data@.len(),
    ensures
        r == read32(data@, offset as int, byte_order),
{
    let b0 = data[offset] as u32;
    let b1 = data[offset + 1] as u32;
    let b2 = data[offset + 2] as u32;
    let b3 = data[offset + 3] as u32;
    match byte_order {
        ByteOrder::BigEndian => b0 * 16777216 + b1 * 65536 + b2 * 256 + b3,
        ByteOrder::LittleEndian => b3 * 16777216 + b2 * 65536 + b1 * 256 + b0,
    }
}

fn read_makernote_i32(data: &[u8], dtype: u16, byte_order: ByteOrder) -> (r: Option<i32>)
    ensures
        r == spec_makernote_i32(data@, dtype, byte_order),
{
    match dtype {
        3 => {
            // SHORT
            if data.len() >= 2 {
                Some(tiff_ifd_read_u16(data, 0, byte_order) as i32)
            } else {
                None
            }
        },
        4 => {
            // LONG
            if data.len() >= 4 {
                Some(tiff_ifd_read_u32(data, 0, byte_order) as i32)
            } else {
                None
            }
        },
        9 => {
            // SLONG
            if data.len() >= 4 {
                Some(tiff_ifd_read_u32(data, 0, byte_order) as i32)
            } else {
                None
            }
        },
        _ => None,
    }
}

proof fn lemma_entry_fit(len: int, es: int, i: int)
    requires
        0 <= es <= len,
        0 <= i,
    ensures
        i * 12 + 12 <= len - es <==> i < (len - es) / 12,
        i * 12 <= len - es ==> i <= (len - es) / 12,
{
    assert(i * 12 + 12 <= len - es <==> i < (len - es) / 12) by (nonlinear_arith)
        requires
            0 <= es <= len,
            0 <= i,
    ;
    assert(i * 12 <= len - es ==> i <= (len - es) / 12) by (nonlinear_arith)
        requires
            0 <= es <= len,
            0 <= i,
    ;
}

/// Parse Apple MakerNote from raw MakerNote bytes.
///
/// Apple MakerNote format:
/// - `Apple iOS\0` (10 bytes)
/// - Version: u16 (big-endian)
/// - Byte order: `MM` or `II` (2 bytes)
/// - TIFF magic: 42 (u16)
/// - IFD offset from start of byte-order marker (u32)
/// - IFD entries follow standard TIFF IFD format
///
/// All offsets within the MakerNote are relative to the byte-order marker
/// (offset 12 from the start of the MakerNote blob).
#[verifier::rlimit(40)]
pub fn parse_apple_makernote(makernote_bytes: &[u8]) -> (r: Option<AppleMakerNote>)
    ensures
        match r {
            None => spec_makernote(makernote_bytes@) is None,
            Some(mn) => spec_makernote(makernote_bytes@) == Some(
                (mn.version, mn.byte_order, tag_views(mn.tags@)),
            ) && mn.known_fields_from(tag_views(mn.tags@), mn.byte_order),
        },
{
    // Check "Apple iOS\0" prefix
    let sig: [u8; 10] = [0x41, 0x70, 0x70, 0x6C, 0x65, 0x20, 0x69, 0x4F, 0x53, 0x00];
    assert(sig@ =~= apple_ios_sig());
    if makernote_bytes.len() < 20 || !crate::bytes::bytes_match_at(makernote_bytes, 0, sig.as_slice()) {
        return None;
    }
    // Version (big-endian u16 at offset 10)
    let version = (makernote_bytes[10] as u16) * 256 + makernote_bytes[11] as u16;
    // Byte order at offset 12
    let bo_offset: usize = 12;
    let byte_order = if makernote_bytes[bo_offset] == 0x4D && makernote_bytes[bo_offset + 1] == 0x4D {
        ByteOrder::BigEndian
    } else if makernote_bytes[bo_offset] == 0x49 && makernote_bytes[bo_offset + 1] == 0x49 {
        ByteOrder::LittleEndian
    } else {
        return None;
    };
    // The IFD data starts at the byte-order marker (offset 12); all
    // offsets in the IFD are relative to this point.
    let tiff_data = vstd::slice::slice_subrange(makernote_bytes, bo_offset, makernote_bytes.len());
    let len = tiff_data.len();
    if len < 8 {
        return None;
    }
    // Apple MakerNote doesn't always use standard TIFF magic (42): the u16
    // at offset 2 is then the entry count, and the IFD starts at offset 2.
    let maybe_magic = tiff_ifd_read_u16(tiff_data, 2, byte_order);
    let ifd_offset = if maybe_magic == 42 {
        tiff_ifd_read_u32(tiff_data, 4, byte_order) as usize
    } else {
        2
    };
    if ifd_offset > len - 2 {
        return None;
    }
    let entry_count = tiff_ifd_read_u16(tiff_data, ifd_offset, byte_order) as usize;
    let entries_start = ifd_offset + 2;
    let ghost t = tiff_data@;
    let ghost bo = byte_order;
    let mut result = AppleMakerNote {
        version,
        byte_order,
        tags: Vec::new(),
        image_capture_type: None,
        hdr_image_type: None,
        signal_to_noise_ratio: None,
        af_stable: None,
        ae_stable: None,
        acceleration_vector: None,
        burst_uuid: None,
        image_unique_id: None,
        live_photo_id: None,
    };
    assert(tag_views(result.tags@) =~= Seq::<MakerNoteTagView>::empty());
    let mut i: usize = 0;
    while i < entry_count
        invariant
            t == tiff_data@,
            len == t.len(),
            bo == byte_order,
            result.byte_order == byte_order,
            result.version == version,
            ifd_offset == mn_ifd_offset(t, bo),
            entry_count == read16(t, ifd_offset as int, bo),
            entries_start == ifd_offset + 2,
            entries_start <= len,
            i <= entry_count,
            i * 12 <= len - entries_start,
            tag_views(result.tags@) =~= Seq::new(
                i as nat,
                |k: int| mn_tag(t, entries_start + 12 * k, bo),
            ),
            result.known_fields_from(tag_views(result.tags@), bo),
        ensures
            i == mn_entry_count(t, bo, ifd_offset as int),
            tag_views(result.tags@) =~= Seq::new(
                i as nat,
                |k: int| mn_tag(t, entries_start + 12 * k, bo),
            ),
            result.known_fields_from(tag_views(result.tags@), bo),
            result.byte_order == byte_order,
            result.version == version,
        decreases entry_count - i,
    {
        proof {
            lemma_entry_fit(len as int, entries_start as int, i as int);
        }
        if 12 > len - entries_start - i * 12 {
            break;
        }
        let e = entries_start + i * 12;
        let tag = tiff_ifd_read_u16(tiff_data, e, byte_order);
        let dtype = tiff_ifd_read_u16(tiff_data, e + 2, byte_order);
        let count = tiff_ifd_read_u32(tiff_data, e + 4, byte_order);
        let value_data = read_mn_value(tiff_data, e, byte_order);
        let ghost x: MakerNoteTagView = (tag, dtype, count, value_data@);
        assert(x == mn_tag(t, e as int, bo));
        let ghost before = tag_views(result.tags@);
        apply_known_tag(&mut result, tag, dtype, count, value_data.as_slice(), Ghost(before));
        result.tags.push(MakerNoteTag { tag, dtype, count, data: value_data });
        assert(tag_views(result.tags@) =~= before.push(x));
        i = i + 1;
    }
    proof {
        assert(mn_tags(t, bo, ifd_offset as int) =~= tag_views(result.tags@));
    }
    Some(result)
}

/// Bytes per element of a MakerNote value type.
fn makernote_type_size(dtype: u16) -> (r: usize)
    ensures
        r == mn_type_size(dtype),
{
    match dtype {
        1 | 2 | 6 | 7 => 1,
        3 | 8 => 2,
        4 | 9 | 11 => 4,
        5 | 10 | 12 => 8,
        _ => 1,
    }
}

/// Raw value bytes of the entry at `e`.
fn read_mn_value(t: &[u8], e: usize, byte_order: ByteOrder) -> (r: Vec<u8>)
    requires
        e + 12 <= t@.len(),
    ensures
        r@ == mn_value(t@, e as int, byte_order),
{
    let len = t.len();
    let dtype = tiff_ifd_read_u16(t, e + 2, byte_order);
    let count = tiff_ifd_read_u32(t, e + 4, byte_order);
    let type_size = makernote_type_size(dtype);
    let total_size: usize = match type_size.checked_mul(count as usize) {
        Some(p) => p,
        None => return Vec::new(),
    };
    assert(total_size == mn_type_size(dtype) * count);
    if total_size <= 4 {
        vstd::slice::slice_to_vec(vstd::slice::slice_subrange(t, e + 8, e + 8 + total_size))
    } else {
        let offset = tiff_ifd_read_u32(t, e + 8, byte_order) as usize;
        if total_size <= len && offset <= len - total_size {
            vstd::slice::slice_to_vec(vstd::slice::slice_subrange(t, offset, offset + total_size))
        } else {
            Vec::new()
        }
    }
}

/// Record tag `(tag, dtype, count, data)` in the known field it carries.
fn apply_known_tag(
    result: &mut AppleMakerNote,
    tag: u16,
    dtype: u16,
    count: u32,
    data: &[u8],
    Ghost(before): Ghost<Seq<MakerNoteTagView>>,
)
    requires
        old(result).known_fields_from(before, old(result).byte_order),
    ensures
        final(result).known_fields_from(before.push((tag, dtype, count, data@)), old(result).byte_order),
        final(result).byte_order == old(result).byte_order,
        final(result).version == old(result).version,
        final(result).tags == old(result).tags,
{
    let byte_order = result.byte_order;
    let ghost x: MakerNoteTagView = (tag, dtype, count, data@);
    proof {
        lemma_last_where_push(before, x, TagSel::Id(makernote_tags::IMAGE_CAPTURE_TYPE));
        lemma_last_where_push(before, x, TagSel::Id(makernote_tags::HDR_IMAGE_TYPE));
        lemma_last_where_push(before, x, TagSel::Id(makernote_tags::AF_STABLE));
        lemma_last_where_push(before, x, TagSel::Id(makernote_tags::AE_STABLE));
        lemma_last_where_push(before, x, TagSel::Snr);
        lemma_last_where_push(before, x, TagSel::Accel);
        lemma_last_where_push(before, x, TagSel::Text(makernote_tags::BURST_UUID));
        lemma_last_where_push(before, x, TagSel::Text(makernote_tags::IMAGE_UNIQUE_ID));
        lemma_last_where_push(before, x, TagSel::Text(makernote_tags::LIVE_PHOTO_ID));
    }
    if tag == makernote_tags::IMAGE_CAPTURE_TYPE {
        result.image_capture_type = read_makernote_i32(data, dtype, byte_order);
    } else if tag == makernote_tags::HDR_IMAGE_TYPE {
        result.hdr_image_type = read_makernote_i32(data, dtype, byte_order);
    } else if tag == makernote_tags::AF_STABLE {
        result.af_stable = match read_makernote_i32(data, dtype, byte_order) {
            Some(v) => Some(v != 0),
            None => None,
        };
    } else if tag == makernote_tags::AE_STABLE {
        // AE_STABLE is often UNDEFINED (bplist), just check if present
        result.ae_stable = Some(data.len() != 0);
    } else if tag == makernote_tags::SIGNAL_TO_NOISE_RATIO && dtype == 5 && data.len() >= 8 {
        let num = tiff_ifd_read_u32(data, 0, byte_order);
        let den = tiff_ifd_read_u32(data, 4, byte_order);
        result.signal_to_noise_ratio = Some((num, den));
    } else if tag == makernote_tags::ACCELERATION_VECTOR && (dtype == 10 || dtype == 5) && count >= 3 {
        result.acceleration_vector = Some(read_rational_pairs(data, count, byte_order));
    } else if (tag == makernote_tags::BURST_UUID || tag == makernote_tags::IMAGE_UNIQUE_ID || tag
        == makernote_tags::LIVE_PHOTO_ID) && dtype == 2 {
        let lossy = crate::text::utf8_to_string_lossy(data);
        let s = String::from_str(crate::text::str_trim_end_nul(lossy.as_str()));
        if tag == makernote_tags::BURST_UUID {
            result.burst_uuid = Some(s);
        } else if tag == makernote_tags::IMAGE_UNIQUE_ID {
            result.image_unique_id = Some(s);
        } else {
            result.live_photo_id = Some(s);
        }
    }
}

/// Read the rationals of an (S)RATIONAL value: one per complete 8 bytes, at
/// most `count`.
fn read_rational_pairs(data: &[u8], count: u32, byte_order: ByteOrder) -> (r: Vec<(i32, i32)>)
    ensures
        r@ == rational_pairs(data@, count, byte_order),
{
    let mut accel: Vec<(i32, i32)> = Vec::new();
    let n: usize = if (count as usize) < data.len() / 8 {
        count as usize
    } else {
        data.len() / 8
    };
    let mut j: usize = 0;
    while j < n
        invariant
            n <= data@.len() / 8,
            data@.len() == data.len(),
            j <= n,
            n == (if (count as int) < data@.len() / 8 { count as int } else { data@.len() as int / 8 }),
            accel@ =~= Seq::new(
                j as nat,
                |k: int| (read32(data@, 8 * k, byte_order) as i32, read32(data@, 8 * k + 4, byte_order) as i32),
            ),
        decreases n - j,
    {
        let off = j * 8;
        let num = tiff_ifd_read_u32(data, off, byte_order) as i32;
        let den = tiff_ifd_read_u32(data, off + 4, byte_order) as i32;
        accel.push((num, den));
        j = j + 1;
    }
    accel
}

// ── JPEG segment scanning ────────────────────────────────────────────

/// `MPF\0`
pub open spec fn mpf_sig() -> Seq<u8> {
    seq![0x4Du8, 0x50, 0x46, 0x00]
}

/// Markers that stand alone, without a length field.
pub open spec fn is_standalone_marker(m: u8) -> bool {
    m == 0x00 || m == 0x01 || (0xD0 <= m && m <= 0xD7)
}

/// Start-of-frame markers (SOF0-3, SOF5-7, SOF9-11, SOF13-15).
pub open spec fn is_sof_marker(m: u8) -> bool {
    (0xC0 <= m && m <= 0xC3) || (0xC5 <= m && m <= 0xC7) || (0xC9 <= m && m <= 0xCB) || (0xCD
        <= m && m <= 0xCF)
}

/// A JPEG starting with the SOI marker, at least 4 bytes long.
pub open spec fn is_jpeg_start(d: Seq<u8>) -> bool {
    d.len() >= 4 && d[0] == 0xFF && d[1] == 0xD8
}

/// Segment walk from `pos` looking for the APP2 `MPF\0` segment: bytes
/// other than 0xFF are skipped one at a time, stand-alone markers take two
/// bytes, other segments their stored length plus two; the walk stops at
/// start-of-scan or when fewer than five bytes remain.
pub open spec fn mpf_scan(d: Seq<u8>, pos: int) -> Option<int>
    decreases d.len() - pos,
{
    if pos < 0 || pos + 4 >= d.len() {
        None
    } else if d[pos] != 0xFF {
        mpf_scan(d, pos + 1)
    } else {
        let marker = d[pos + 1];
        if marker == 0xDA {
            None
        } else if is_standalone_marker(marker) {
            mpf_scan(d, pos + 2)
        } else {
            let seg_len = be16(d, pos + 2) as int;
            if marker == 0xE2 && seg_len >= 6 && pos + 8 <= d.len() && matches_at(
                d,
                pos + 4,
                mpf_sig(),
            ) {
                Some(pos + 8)
            } else if pos + 2 + seg_len >= d.len() {
                None
            } else {
                mpf_scan(d, pos + 2 + seg_len)
            }
        }
    }
}

/// Offset just past the `MPF\0` signature of a JPEG's MPF segment.
pub open spec fn spec_find_mpf_segment(d: Seq<u8>) -> Option<int> {
    if !is_jpeg_start(d) {
        None
    } else {
        mpf_scan(d, 2)
    }
}

/// Find the MPF APP2 segment in a JPEG. Returns offset of the MPF data
/// (after "MPF\0").
fn find_mpf_segment(data: &[u8]) -> (r: Option<usize>)
    ensures
        match r {
            Some(p) => spec_find_mpf_segment(data@) == Some(p as int) && p <= data@.len(),
            None => spec_find_mpf_segment(data@) is None,
        },
{
    if data.len() < 4 || data[0] != 0xFF || data[1] != 0xD8 {
        return None;
    }
    let sig: [u8; 4] = [0x4D, 0x50, 0x46, 0x00];
    assert(sig@ =~= mpf_sig());
    let len = data.len();
    let mut pos: usize = 2;
    while len - pos > 4
        invariant
            len == data@.len(),
            pos <= len,
            sig@ == mpf_sig(),
            spec_find_mpf_segment(data@) == mpf_scan(data@, pos as int),
        decreases len - pos,
    {
        if data[pos] != 0xFF {
            pos = pos + 1;
            continue;
        }
        let marker = data[pos + 1];
        // SOS (Start of Scan) — stop searching
        if marker == 0xDA {
            return None;
        }
        // Skip markers without length
        if marker == 0x00 || marker == 0x01 || (0xD0 <= marker && marker <= 0xD7) {
            pos = pos + 2;
            continue;
        }
        let seg_len = ((data[pos + 2] as u16) * 256 + data[pos + 3] as u16) as usize;
        // APP2 with "MPF\0" signature
        if marker == 0xE2 && seg_len >= 6 && len - pos >= 8 && crate::bytes::bytes_match_at(
            data,
            pos + 4,
            sig.as_slice(),
        ) {
            return Some(pos + 8);
        }
        if seg_len + 2 >= len - pos {
            return None;
        }
        pos = pos + 2 + seg_len;
    }
    None
}

/// Segment walk from `pos` for the first start-of-frame marker with its
/// dimension bytes in range; gives `(width, height)`.
pub open spec fn sof_scan(d: Seq<u8>, pos: int) -> Option<(u32, u32)>
    decreases d.len() - pos,
{
    if pos < 0 || pos + 4 >= d.len() {
        None
    } else if d[pos] != 0xFF {
        sof_scan(d, pos + 1)
    } else {
        let marker = d[pos + 1];
        if is_sof_marker(marker) && pos + 9 <= d.len() {
            Some((be16(d, pos + 7) as u32, be16(d, pos + 5) as u32))
        } else if marker == 0xDA {
            None
        } else if is_standalone_marker(marker) {
            sof_scan(d, pos + 2)
        } else if pos + 2 + be16(d, pos + 2) as int >= d.len() {
            None
        } else {
            sof_scan(d, pos + 2 + be16(d, pos + 2) as int)
        }
    }
}

/// Width and height from a JPEG's first start-of-frame segment.
pub open spec fn spec_jpeg_sof_dimensions(d: Seq<u8>) -> Option<(u32, u32)> {
    if !is_jpeg_start(d) {
        None
    } else {
        sof_scan(d, 2)
    }
}

/// Extract width and height from a JPEG SOF marker.
fn jpeg_sof_dimensions(data: &[u8]) -> (r: Option<(u32, u32)>)
    ensures
        r == spec_jpeg_sof_dimensions(data@),
{
    if data.len() < 4 || data[0] != 0xFF || data[1] != 0xD8 {
        return None;
    }
    let len = data.len();
    let mut pos: usize = 2;
    while len - pos > 4
        invariant
            len == data@.len(),
            pos <= len,
            spec_jpeg_sof_dimensions(data@) == sof_scan(data@, pos as int),
        decreases len - pos,
    {
        if data[pos] != 0xFF {
            pos = pos + 1;
            continue;
        }
        let marker = data[pos + 1];
        // SOF markers (SOF0-SOF3, SOF5-SOF7, SOF9-SOF11, SOF13-SOF15)
        if ((0xC0 <= marker && marker <= 0xC3) || (0xC5 <= marker && marker <= 0xC7) || (0xC9
            <= marker && marker <= 0xCB) || (0xCD <= marker && marker <= 0xCF)) && len - pos >= 9 {
            let height = ((data[pos + 5] as u16) * 256 + data[pos + 6] as u16) as u32;
            let width = ((data[pos + 7] as u16) * 256 + data[pos + 8] as u16) as u32;
            return Some((width, height));
        }
        // SOS — stop searching
        if marker == 0xDA {
            return None;
        }
        // Skip markers without length
        if marker == 0x00 || marker == 0x01 || (0xD0 <= marker && marker <= 0xD7) {
            pos = pos + 2;
            continue;
        }
        let seg_len = ((data[pos + 2] as u16) * 256 + data[pos + 3] as u16) as usize;
        if seg_len + 2 >= len - pos {
            return None;
        }
        pos = pos + 2 + seg_len;
    }
    None
}

// ── MPF (Multi-Picture Format) parsing ───────────────────────────────

/// Byte order mark at the start of the MPF TIFF structure.
pub open spec fn mpf_byte_order(m: Seq<u8>) -> Option<ByteOrder> {
    if m[0] == 0x4D && m[1] == 0x4D {
        Some(ByteOrder::BigEndian)
    } else if m[0] == 0x49 && m[1] == 0x49 {
        Some(ByteOrder::LittleEndian)
    } else {
        None
    }
}

/// The first of the IFD's entries `i..n` (those that fit) holding the MP
/// Entry tag 0xB002; gives the entry's offset.
pub open spec fn find_mp_entry_tag(m: Seq<u8>, bo: ByteOrder, es: int, i: int, n: int) -> Option<int>
    decreases n - i,
{
    if i >= n || es + 12 * i + 12 > m.len() {
        None
    } else if read16(m, es + 12 * i, bo) == 0xB002 {
        Some(es + 12 * i)
    } else {
        find_mp_entry_tag(m, bo, es, i + 1, n)
    }
}

/// Byte order, MP Entry table offset and MP Entry byte count of the MPF
/// structure `m`; `None` when any part is missing or the count is zero.
pub open spec fn mp_index(m: Seq<u8>) -> Option<(ByteOrder, int, u32)> {
    if m.len() < 8 {
        None
    } else {
        match mpf_byte_order(m) {
            None => None,
            Some(bo) => if read16(m, 2, bo) != 42 {
                None
            } else {
                let ifd = read32(m, 4, bo) as int;
                if ifd + 2 > m.len() {
                    None
                } else {
                    match find_mp_entry_tag(m, bo, ifd + 2, 0, read16(m, ifd, bo) as int) {
                        None => None,
                        Some(e) => {
                            let cnt = read32(m, e + 4, bo);
                            if cnt == 0 {
                                None
                            } else if cnt <= 4 {
                                Some((bo, e + 8, cnt))
                            } else {
                                Some((bo, read32(m, e + 8, bo) as int, cnt))
                            }
                        },
                    }
                }
            },
        }
    }
}

/// `a + b`, saturated at `usize::MAX`.
pub open spec fn sat_add(a: int, b: int) -> usize {
    if a + b > usize::MAX {
        usize::MAX
    } else {
        (a + b) as usize
    }
}

/// Number of 16-byte MP entries read from offset `off`: `cnt / 16`, cut at
/// the first that does not fit.
pub open spec fn mp_image_count(m: Seq<u8>, off: int, cnt: u32) -> int {
    let fit = if off <= m.len() {
        (m.len() - off) / 16
    } else {
        0
    };
    if (cnt / 16) as int <= fit {
        (cnt / 16) as int
    } else {
        fit
    }
}

/// The image `(absolute offset, size)` pairs of the MP Entry table. Offsets
/// count from the MPF structure at `base` in the JPEG; the first image, and
/// any with offset 0, start at the beginning of the file.
pub open spec fn spec_parse_mpf_entries(jpeg: Seq<u8>, base: int) -> Option<Seq<(usize, usize)>> {
    let m = tail(jpeg, base);
    match mp_index(m) {
        None => None,
        Some((bo, off, cnt)) => Some(
            Seq::new(
                mp_image_count(m, off, cnt) as nat,
                |i: int|
                    {
                        let o = read32(m, off + 16 * i + 8, bo);
                        (
                            if i == 0 || o == 0 {
                                0usize
                            } else {
                                sat_add(base, o as int)
                            },
                            read32(m, off + 16 * i + 4, bo) as usize,
                        )
                    },
            ),
        ),
    }
}

proof fn lemma_fit16(len: int, off: int, i: int)
    requires
        0 <= off <= len,
        0 <= i,
    ensures
        off + 16 * i + 16 <= len <==> i < (len - off) / 16,
        16 * i <= len - off ==> i <= (len - off) / 16,
{
    assert(off + 16 * i + 16 <= len <==> i < (len - off) / 16) by (nonlinear_arith)
        requires
            0 <= off <= len,
            0 <= i,
    ;
    assert(16 * i <= len - off ==> i <= (len - off) / 16) by (nonlinear_arith)
        requires
            0 <= off <= len,
            0 <= i,
    ;
}

/// Parse MPF entry table. Returns Vec of (absolute_offset, size) for each image.
fn parse_mpf_entries(jpeg_data: &[u8], mpf_data_offset: usize) -> (r: Option<Vec<(usize, usize)>>)
    requires
        mpf_data_offset <= jpeg_data@.len(),
    ensures
        match r {
            Some(v) => spec_parse_mpf_entries(jpeg_data@, mpf_data_offset as int) == Some(v@),
            None => spec_parse_mpf_entries(jpeg_data@, mpf_data_offset as int) is None,
        },
{
    let mpf_data = vstd::slice::slice_subrange(jpeg_data, mpf_data_offset, jpeg_data.len());
    let len = mpf_data.len();
    let ghost m = mpf_data@;
    if len < 8 {
        return None;
    }
    // MPF uses its own TIFF-like structure
    let byte_order = if mpf_data[0] == 0x4D && mpf_data[1] == 0x4D {
        ByteOrder::BigEndian
    } else if mpf_data[0] == 0x49 && mpf_data[1] == 0x49 {
        ByteOrder::LittleEndian
    } else {
        return None;
    };
    // Verify "42" magic at offset 2
    let magic = tiff_ifd_read_u16(mpf_data, 2, byte_order);
    if magic != 42 {
        return None;
    }
    // IFD offset (relative to start of MPF TIFF structure)
    let ifd_offset = tiff_ifd_read_u32(mpf_data, 4, byte_order) as usize;
    if ifd_offset > len - 2 {
        return None;
    }
    let entry_count = tiff_ifd_read_u16(mpf_data, ifd_offset, byte_order) as usize;
    let entries_start = ifd_offset + 2;
    // Find MP Entry tag (0xB002) — contains image offsets and sizes
    let mut mp_entry_offset: usize = 0;
    let mut mp_entry_count: u32 = 0;
    let mut i: usize = 0;
    while i < entry_count
        invariant_except_break
            find_mp_entry_tag(m, byte_order, entries_start as int, 0, entry_count as int)
                == find_mp_entry_tag(m, byte_order, entries_start as int, i as int, entry_count as int),
            mp_entry_count == 0,
        invariant
            m == mpf_data@,
            len == m.len(),
            entries_start <= len,
            i <= entry_count,
            i * 12 <= len - entries_start,
        ensures
            match find_mp_entry_tag(m, byte_order, entries_start as int, 0, entry_count as int) {
                None => mp_entry_count == 0,
                Some(e) => mp_entry_count == read32(m, e + 4, byte_order) && (if mp_entry_count <= 4 {
                    mp_entry_offset == e + 8
                } else {
                    mp_entry_offset == read32(m, e + 8, byte_order)
                }),
            },
        decreases entry_count - i,
    {
        if 12 > len - entries_start - i * 12 {
            break;
        }
        let e = entries_start + i * 12;
        let tag = tiff_ifd_read_u16(mpf_data, e, byte_order);
        if tag == 0xB002 {
            // MP Entry — type 7 (UNDEFINED), each entry is 16 bytes
            mp_entry_count = tiff_ifd_read_u32(mpf_data, e + 4, byte_order);
            let total_size = mp_entry_count as usize;
            if total_size <= 4 {
                mp_entry_offset = e + 8;
            } else {
                mp_entry_offset = tiff_ifd_read_u32(mpf_data, e + 8, byte_order) as usize;
            }
            break;
        }
        i = i + 1;
    }
    if mp_entry_count == 0 {
        return None;
    }
    // Each MP Entry is 16 bytes: attributes(4) + size(4) + offset(4) +
    // dep_img1(2) + dep_img2(2)
    let num_images = mp_entry_count / 16;
    let mut entries: Vec<(usize, usize)> = Vec::new();
    let ghost off = mp_entry_offset as int;
    let mut i: usize = 0;
    while i < num_images as usize
        invariant
            m == mpf_data@,
            len == m.len(),
            off == mp_entry_offset,
            num_images == mp_entry_count / 16,
            i <= num_images,
            mp_entry_offset <= len ==> i * 16 <= len - mp_entry_offset,
            mp_entry_offset <= len ==> i <= (len - mp_entry_offset) / 16,
            mp_entry_offset > len ==> i == 0,
            entries@ =~= Seq::new(
                i as nat,
                |k: int|
                    {
                        let o = read32(m, off + 16 * k + 8, byte_order);
                        (
                            if k == 0 || o == 0 {
                                0usize
                            } else {
                                sat_add(mpf_data_offset as int, o as int)
                            },
                            read32(m, off + 16 * k + 4, byte_order) as usize,
                        )
                    },
            ),
        ensures
            i == mp_image_count(m, off, mp_entry_count),
            entries@ =~= Seq::new(
                i as nat,
                |k: int|
                    {
                        let o = read32(m, off + 16 * k + 8, byte_order);
                        (
                            if k == 0 || o == 0 {
                                0usize
                            } else {
                                sat_add(mpf_data_offset as int, o as int)
                            },
                            read32(m, off + 16 * k + 4, byte_order) as usize,
                        )
                    },
            ),
        decreases num_images - i,
    {
        proof {
            if mp_entry_offset <= len {
                lemma_fit16(len as int, mp_entry_offset as int, i as int);
            }
        }
        if mp_entry_offset > len || 16 > len - mp_entry_offset - i * 16 {
            break;
        }
        let e = mp_entry_offset + i * 16;
        let size = tiff_ifd_read_u32(mpf_data, e + 4, byte_order) as usize;
        let offset = tiff_ifd_read_u32(mpf_data, e + 8, byte_order) as usize;
        // First image offset is 0 = start of the JPEG file; subsequent
        // offsets are relative to the start of the MPF TIFF header.
        let abs_offset = if i == 0 || offset == 0 {
            0
        } else {
            match mpf_data_offset.checked_add(offset) {
                Some(a) => a,
                None => usize::MAX,
            }
        };
        // A first image of size 0 means the entire first JPEG, whose
        // exact size is not recorded.
        let actual_size = if i == 0 && size == 0 {
            0
        } else {
            size
        };
        entries.push((abs_offset, actual_size));
        i = i + 1;
        proof {
            lemma_fit16(len as int, mp_entry_offset as int, i as int);
        }
    }
    Some(entries)
}

/// The HDR gain map image that an MPF index locates in a JPEG.
#[derive(Clone, Debug)]
pub struct GainMapImage {
    /// Raw JPEG bytes of the gain map image.
    pub jpeg_data: Vec<u8>,
    /// Gain map width in pixels (0 when no frame header was found).
    pub width: u32,
    /// Gain map height in pixels (0 when no frame header was found).
    pub height: u32,
}

/// The gain map of a JPEG: the second image of its MPF index, when that
/// range lies in the file and starts with a JPEG SOI marker; with the
/// dimensions of its first frame, or `(0, 0)`.
pub open spec fn spec_gain_map_jpeg(d: Seq<u8>) -> Option<(Seq<u8>, u32, u32)> {
    match spec_find_mpf_segment(d) {
        None => None,
        Some(mo) => match spec_parse_mpf_entries(d, mo) {
            None => None,
            Some(es) => if es.len() < 2 {
                None
            } else {
                let o = es[1].0 as int;
                let sz = es[1].1 as int;
                if o + sz > d.len() {
                    None
                } else {
                    let g = d.subrange(o, o + sz);
                    if g.len() < 2 || g[0] != 0xFF || g[1] != 0xD8 {
                        None
                    } else {
                        match spec_jpeg_sof_dimensions(g) {
                            Some((w, h)) => Some((g, w, h)),
                            None => Some((g, 0, 0)),
                        }
                    }
                }
            },
        },
    }
}

/// Extract the gain map image from a JPEG that contains MPF
/// (Multi-Picture Format) data.
pub fn extract_gain_map_jpeg(jpeg_data: &[u8]) -> (r: Option<GainMapImage>)
    ensures
        match r {
            Some(g) => spec_gain_map_jpeg(jpeg_data@) == Some((g.jpeg_data@, g.width, g.height)),
            None => spec_gain_map_jpeg(jpeg_data@) is None,
        },
{
    // Find MPF APP2 marker: FF E2 <len> "MPF\0"
    let mpf_offset = find_mpf_segment(jpeg_data)?;
    let mpf_entries = parse_mpf_entries(jpeg_data, mpf_offset)?;
    // The gain map is typically the second image
    if mpf_entries.len() < 2 {
        return None;
    }
    let (gm_offset, gm_size) = mpf_entries[1];
    if gm_size > jpeg_data.len() || gm_offset > jpeg_data.len() - gm_size {
        return None;
    }
    let gm_jpeg = vstd::slice::slice_subrange(jpeg_data, gm_offset, gm_offset + gm_size);
    // Verify it's a valid JPEG
    if gm_jpeg.len() < 2 || gm_jpeg[0] != 0xFF || gm_jpeg[1] != 0xD8 {
        return None;
    }
    // Get dimensions from SOF
    let (width, height) = match jpeg_sof_dimensions(gm_jpeg) {
        Some(d) => d,
        None => (0, 0),
    };
    Some(GainMapImage { jpeg_data: vstd::slice::slice_to_vec(gm_jpeg), width, height })
}

// ── Semantic Segmentation Mattes ─────────────────────────────────────

/// The bytes of `d` at `off .. off + cnt`, when that range lies in `d`.
pub open spec fn strip_piece(d: Seq<u8>, off: u32, cnt: u32) -> Seq<u8> {
    if off as int + cnt as int <= d.len() {
        d.subrange(off as int, off as int + cnt as int)
    } else {
        Seq::empty()
    }
}

/// The first `k` strips (or tiles) named by paired offsets and byte counts,
/// concatenated; strips that do not lie in `d` contribute nothing.
pub open spec fn gather_strips(d: Seq<u8>, offs: Seq<u32>, cnts: Seq<u32>, k: int) -> Seq<u8>
    decreases k,
{
    if k <= 0 {
        Seq::empty()
    } else {
        gather_strips(d, offs, cnts, k - 1) + strip_piece(d, offs[k - 1], cnts[k - 1])
    }
}

/// The data of the strips (or tiles) that two entries describe.
pub open spec fn entries_data(d: Seq<u8>, off_e: IfdEntry, cnt_e: IfdEntry, bo: ByteOrder) -> Seq<u8> {
    let offs = spec_long_values(d, off_e, bo);
    let cnts = spec_long_values(d, cnt_e, bo);
    let n = if offs.len() < cnts.len() {
        offs.len()
    } else {
        cnts.len()
    };
    gather_strips(d, offs, cnts, n as int)
}

/// The image data of an IFD: its strips when it has both strip tags, else
/// its tiles when it has both tile tags, else nothing.
pub open spec fn spec_ifd_image_data(d: Seq<u8>, es: Seq<IfdEntry>, bo: ByteOrder) -> Seq<u8> {
    match (find_tag(es, tags::STRIP_OFFSETS), find_tag(es, tags::STRIP_BYTE_COUNTS)) {
        (Some(o), Some(c)) => entries_data(d, o, c, bo),
        _ => match (find_tag(es, tags::TILE_OFFSETS), find_tag(es, tags::TILE_BYTE_COUNTS)) {
            (Some(o), Some(c)) => entries_data(d, o, c, bo),
            _ => Seq::empty(),
        },
    }
}

fn gather(file_data: &[u8], off_entry: &IfdEntry, cnt_entry: &IfdEntry, byte_order: ByteOrder) -> (r: Vec<u8>)
    ensures
        r@ == entries_data(file_data@, *off_entry, *cnt_entry, byte_order),
{
    let offsets = read_long_values(file_data, off_entry, byte_order);
    let counts = read_long_values(file_data, cnt_entry, byte_order);
    let n = if offsets.len() < counts.len() {
        offsets.len()
    } else {
        counts.len()
    };
    let mut data: Vec<u8> = Vec::new();
    let mut k: usize = 0;
    while k < n
        invariant
            n <= offsets@.len(),
            n <= counts@.len(),
            k <= n,
            data@ == gather_strips(file_data@, offsets@, counts@, k as int),
        decreases n - k,
    {
        let start = offsets[k] as usize;
        let cnt = counts[k] as usize;
        if cnt <= file_data.len() && start <= file_data.len() - cnt {
            crate::bytes::append_bytes(&mut data, vstd::slice::slice_subrange(file_data, start, start + cnt));
        }
        k = k + 1;
    }
    data
}

fn extract_ifd_image_data(file_data: &[u8], ifd: &Ifd, byte_order: ByteOrder) -> (r: Vec<u8>)
    ensures
        r@ == spec_ifd_image_data(file_data@, ifd.entries@, byte_order),
{
    // Try strip-based first
    let strip_offsets = find_in_entries(&ifd.entries, tags::STRIP_OFFSETS);
    let strip_counts = find_in_entries(&ifd.entries, tags::STRIP_BYTE_COUNTS);
    if let (Some(off_entry), Some(cnt_entry)) = (strip_offsets, strip_counts) {
        return gather(file_data, off_entry, cnt_entry, byte_order);
    }
    // Try tile-based
    let tile_offsets = find_in_entries(&ifd.entries, tags::TILE_OFFSETS);
    let tile_counts = find_in_entries(&ifd.entries, tags::TILE_BYTE_COUNTS);
    if let (Some(off_entry), Some(cnt_entry)) = (tile_offsets, tile_counts) {
        return gather(file_data, off_entry, cnt_entry, byte_order);
    }
    Vec::new()
}

// ── Embedded preview ─────────────────────────────────────────────────

/// An IFD holds a preview JPEG: it is marked as a reduced-resolution image
/// (NewSubfileType 1) and its image data starts with a JPEG SOI marker.
pub open spec fn is_preview_jpeg(d: Seq<u8>, es: Seq<IfdEntry>, bo: ByteOrder) -> bool {
    let img = spec_ifd_image_data(d, es, bo);
    &&& u32_or_zero(d, es, tags::NEW_SUBFILE_TYPE, bo) == 1
    &&& img.len() >= 2
    &&& img[0] == 0xFF
    &&& img[1] == 0xD8
}

/// The image data of the first IFD among `ifds` that holds a preview JPEG.
pub open spec fn preview_in(d: Seq<u8>, bo: ByteOrder, ifds: Seq<IfdView>) -> Option<Seq<u8>>
    decreases ifds.len(),
{
    if ifds.len() == 0 {
        None
    } else if is_preview_jpeg(d, ifds[0].1, bo) {
        Some(spec_ifd_image_data(d, ifds[0].1, bo))
    } else {
        preview_in(d, bo, ifds.drop_first())
    }
}

/// The embedded preview JPEG of a DNG file: the first one along the IFD
/// chain, then among the SubIFDs.
pub open spec fn spec_dng_preview(d: Seq<u8>) -> Option<Seq<u8>> {
    match spec_parse(d) {
        None => None,
        Some((bo, chain, subs)) => preview_in(d, bo, chain + subs),
    }
}

/// The preview JPEG of one IFD, if it holds one.
fn preview_of(file_data: &[u8], ifd: &Ifd, byte_order: ByteOrder) -> (r: Option<Vec<u8>>)
    ensures
        match r {
            Some(v) => is_preview_jpeg(file_data@, ifd.entries@, byte_order) && v@
                == spec_ifd_image_data(file_data@, ifd.entries@, byte_order),
            None => !is_preview_jpeg(file_data@, ifd.entries@, byte_order),
        },
{
    let kind = match find_in_entries(&ifd.entries, tags::NEW_SUBFILE_TYPE) {
        Some(e) => match read_u32_value(file_data, e, byte_order) {
            Some(v) => v,
            None => 0,
        },
        None => 0,
    };
    if kind != 1 {
        return None;
    }
    let img = extract_ifd_image_data(file_data, ifd, byte_order);
    if img.len() >= 2 && img[0] == 0xFF && img[1] == 0xD8 {
        Some(img)
    } else {
        None
    }
}

/// Extract the embedded preview JPEG of a DNG file: the image data of the
/// first IFD, along the chain and then among the SubIFDs, that is marked as
/// a reduced-resolution image and holds a JPEG.
pub fn extract_dng_preview(data: &[u8]) -> (r: Option<Vec<u8>>)
    ensures
        opt_seq(r) == spec_dng_preview(data@),
{
    let tiff = TiffStructure::parse(data)?;
    let ghost bo = tiff.byte_order;
    let ghost chain = ifd_views(tiff.ifds@);
    let ghost subs = ifd_views(tiff.sub_ifds@);
    let ghost all = chain + subs;
    let n1 = tiff.ifds.len();
    let mut i: usize = 0;
    assert(all.skip(0) =~= all);
    assert(spec_dng_preview(data@) == preview_in(data@, bo, all));
    while i < n1
        invariant
            n1 == tiff.ifds@.len(),
            i <= n1,
            chain == ifd_views(tiff.ifds@),
            subs == ifd_views(tiff.sub_ifds@),
            all == chain + subs,
            bo == tiff.byte_order,
            preview_in(data@, bo, all) == preview_in(data@, bo, all.skip(i as int)),
            spec_dng_preview(data@) == preview_in(data@, bo, all),
        decreases n1 - i,
    {
        assert(all.skip(i as int)[0] == tiff.ifds@[i as int]@);
        assert(all.skip(i as int).drop_first() =~= all.skip(i + 1));
        if let Some(p) = preview_of(data, &tiff.ifds[i], tiff.byte_order) {
            assert(all.skip(i as int).len() > 0);
            assert(preview_in(data@, bo, all.skip(i as int)) == Some(p@));
            return Some(p);
        }
        i = i + 1;
    }
    let n2 = tiff.sub_ifds.len();
    let mut j: usize = 0;
    while j < n2
        invariant
            n1 == tiff.ifds@.len(),
            n2 == tiff.sub_ifds@.len(),
            j <= n2,
            chain == ifd_views(tiff.ifds@),
            subs == ifd_views(tiff.sub_ifds@),
            all == chain + subs,
            bo == tiff.byte_order,
            preview_in(data@, bo, all) == preview_in(data@, bo, all.skip(n1 + j)),
            spec_dng_preview(data@) == preview_in(data@, bo, all),
        decreases n2 - j,
    {
        assert(all.skip(n1 + j)[0] == tiff.sub_ifds@[j as int]@);
        assert(all.skip(n1 + j).drop_first() =~= all.skip(n1 + j + 1));
        if let Some(p) = preview_of(data, &tiff.sub_ifds[j], tiff.byte_order) {
            assert(all.skip(n1 + j).len() > 0);
            assert(preview_in(data@, bo, all.skip(n1 + j)) == Some(p@));
            return Some(p);
        }
        j = j + 1;
    }
    assert(all.skip(n1 + n2) =~= Seq::<IfdView>::empty());
    None
}

/// Apple semantic segmentation matte (e.g., sky, skin, hair, teeth).
#[derive(Clone, Debug)]
#[non_exhaustive]
pub struct SemanticMatte {
    /// URN type, e.g. `urn:com:apple:photo:2020:aux:semanticskymatte`.
    pub matte_type: String,
    /// Short type name extracted from URN (e.g., "semanticskymatte").
    pub short_type: String,
    /// Image width.
    pub width: u32,
    /// Image height.
    pub height: u32,
    /// Compression type.
    pub compression: u16,
    /// PhotometricInterpretation.
    pub photometric: u16,
    /// Raw compressed image data.
    pub data: Vec<u8>,
}

/// Type, short type, width, height, compression, photometric and data of a
/// matte.
pub type MatteView = (Seq<char>, Seq<char>, u32, u32, u16, u16, Seq<u8>);

/// The view of a matte.
pub open spec fn matte_view(m: SemanticMatte) -> MatteView {
    (m.matte_type@, m.short_type@, m.width, m.height, m.compression, m.photometric, m.data@)
}

/// `aux:semantic`
pub open spec fn aux_semantic() -> Seq<u8> {
    seq![0x61u8, 0x75, 0x78, 0x3A, 0x73, 0x65, 0x6D, 0x61, 0x6E, 0x74, 0x69, 0x63]
}

/// Index of the last `:` byte.
pub open spec fn last_colon(b: Seq<u8>) -> Option<int>
    decreases b.len(),
{
    if b.len() == 0 {
        None
    } else if b.last() == 0x3A {
        Some(b.len() - 1)
    } else {
        last_colon(b.drop_last())
    }
}

/// The bytes after the last `:`, or all of them when there is none.
pub open spec fn after_last_colon(b: Seq<u8>) -> Seq<u8> {
    match last_colon(b) {
        Some(p) => b.subrange(p + 1, b.len() as int),
        None => b,
    }
}

/// The value of an IFD's entry `tag` read as SHORT or LONG, or 0.
pub open spec fn u32_or_zero(d: Seq<u8>, es: Seq<IfdEntry>, tag: u16, bo: ByteOrder) -> u32 {
    match find_tag(es, tag) {
        Some(e) => match spec_u32_value(d, e, bo) {
            Some(v) => v,
            None => 0,
        },
        None => 0,
    }
}

/// The value of an IFD's entry `tag` read as SHORT, or 0.
pub open spec fn u16_or_zero(d: Seq<u8>, es: Seq<IfdEntry>, tag: u16, bo: ByteOrder) -> u16 {
    match find_tag(es, tag) {
        Some(e) => match spec_u16_value(d, e, bo) {
            Some(v) => v,
            None => 0,
        },
        None => 0,
    }
}

/// The semantic matte an IFD holds: one whose AppleAuxType URN contains
/// `aux:semantic`.
pub open spec fn spec_matte_of(d: Seq<u8>, bo: ByteOrder, es: Seq<IfdEntry>) -> Option<MatteView> {
    match find_tag(es, tags::APPLE_AUX_TYPE) {
        None => None,
        Some(e) => match spec_ascii_value(d, e, bo) {
            None => None,
            Some(s) => if !crate::bytes::occurs_before(
                encode_utf8(s),
                aux_semantic(),
                encode_utf8(s).len() as int + 1,
            ) {
                None
            } else {
                Some(
                    (
                        s,
                        decode_utf8(after_last_colon(encode_utf8(s))),
                        u32_or_zero(d, es, tags::IMAGE_WIDTH, bo),
                        u32_or_zero(d, es, tags::IMAGE_LENGTH, bo),
                        u16_or_zero(d, es, tags::COMPRESSION, bo),
                        u16_or_zero(d, es, tags::PHOTOMETRIC, bo),
                        spec_ifd_image_data(d, es, bo),
                    ),
                )
            },
        },
    }
}

/// The mattes of the IFDs, in order.
pub open spec fn mattes_in(d: Seq<u8>, bo: ByteOrder, ifds: Seq<IfdView>) -> Seq<MatteView>
    decreases ifds.len(),
{
    if ifds.len() == 0 {
        Seq::empty()
    } else {
        let rest = mattes_in(d, bo, ifds.drop_last());
        match spec_matte_of(d, bo, ifds.last().1) {
            Some(m) => rest.push(m),
            None => rest,
        }
    }
}

/// The semantic mattes of a TIFF file's SubIFDs.
pub open spec fn spec_semantic_mattes(d: Seq<u8>) -> Seq<MatteView> {
    match spec_parse(d) {
        None => Seq::empty(),
        Some((bo, chain, subs)) => mattes_in(d, bo, subs),
    }
}

fn short_type_of(aux_type: &String) -> (r: String)
    ensures
        r@ == decode_utf8(after_last_colon(encode_utf8(aux_type@))),
{
    let a = aux_type.as_str();
    let b = a.as_bytes();
    let ghost bs = b@;
    proof {
        assert(a@ == aux_type@);
        assert(bs == encode_utf8(aux_type@));
        vstd::utf8::encode_utf8_valid_utf8(aux_type@);
        vstd::utf8::encode_utf8_decode_utf8(aux_type@);
        assert(bs.take(bs.len() as int) =~= bs);
    }
    let mut j: usize = b.len();
    while j > 0
        invariant
            bs == b@,
            bs == encode_utf8(aux_type@),
            vstd::utf8::valid_utf8(bs),
            j <= bs.len(),
            last_colon(bs) == last_colon(bs.take(j as int)),
        decreases j,
    {
        assert(bs.take(j as int).drop_last() =~= bs.take(j - 1));
        if b[j - 1] == 0x3A {
            proof {
                crate::text::lemma_valid_after_ascii(bs, j - 1);
                assert(last_colon(bs.take(j as int)) == Some(j - 1));
            }
            let suffix = vstd::slice::slice_subrange(b, j, b.len());
            return match crate::text::utf8_to_string(suffix) {
                Some(s) => s,
                None => String::new(),
            };
        }
        j = j - 1;
    }
    assert(bs.take(0) =~= Seq::<u8>::empty());
    aux_type.clone()
}

fn contains_aux_semantic(aux_type: &String) -> (r: bool)
    ensures
        r == crate::bytes::occurs_before(
            encode_utf8(aux_type@),
            aux_semantic(),
            encode_utf8(aux_type@).len() as int + 1,
        ),
{
    let pat: [u8; 12] = [0x61, 0x75, 0x78, 0x3A, 0x73, 0x65, 0x6D, 0x61, 0x6E, 0x74, 0x69, 0x63];
    assert(pat@ =~= aux_semantic());
    let b = aux_type.as_str().as_bytes();
    let found = crate::xmp::find_bytes(b, pat.as_slice());
    proof {
        crate::bytes::lemma_first_match(b@, pat@);
        if found is Some {
            let p = found.unwrap() as int;
            assert(matches_at(b@, p, pat@));
        }
    }
    found.is_some()
}

fn matte_of(file_data: &[u8], ifd: &Ifd, byte_order: ByteOrder) -> (r: Option<SemanticMatte>)
    ensures
        match r {
            Some(m) => spec_matte_of(file_data@, byte_order, ifd.entries@) == Some(matte_view(m)),
            None => spec_matte_of(file_data@, byte_order, ifd.entries@) is None,
        },
{
    // Look for AppleAuxType tag
    let aux_entry = find_in_entries(&ifd.entries, tags::APPLE_AUX_TYPE)?;
    let aux_type = read_ascii_value(file_data, aux_entry, byte_order)?;
    // Only process semantic matte entries
    if !contains_aux_semantic(&aux_type) {
        return None;
    }
    // Extract short type name from URN
    let short_type = short_type_of(&aux_type);
    // Get image dimensions
    let width = match find_in_entries(&ifd.entries, tags::IMAGE_WIDTH) {
        Some(e) => match read_u32_value(file_data, e, byte_order) {
            Some(v) => v,
            None => 0,
        },
        None => 0,
    };
    let height = match find_in_entries(&ifd.entries, tags::IMAGE_LENGTH) {
        Some(e) => match read_u32_value(file_data, e, byte_order) {
            Some(v) => v,
            None => 0,
        },
        None => 0,
    };
    let compression = match find_in_entries(&ifd.entries, tags::COMPRESSION) {
        Some(e) => match read_u16_value(file_data, e, byte_order) {
            Some(v) => v,
            None => 0,
        },
        None => 0,
    };
    let photometric = match find_in_entries(&ifd.entries, tags::PHOTOMETRIC) {
        Some(e) => match read_u16_value(file_data, e, byte_order) {
            Some(v) => v,
            None => 0,
        },
        None => 0,
    };
    // Get image data (from StripOffsets/StripByteCounts or TileOffsets/TileByteCounts)
    let data = extract_ifd_image_data(file_data, ifd, byte_order);
    Some(SemanticMatte { matte_type: aux_type, short_type, width, height, compression, photometric, data })
}

/// Extract semantic segmentation mattes from an APPLEDNG file.
///
/// APPLEDNG SubIFDs may contain semantic data with tag 0xCD2E (AppleAuxType)
/// containing a URN like `urn:com:apple:photo:2020:aux:semanticskymatte`.
pub fn extract_semantic_mattes(file_data: &[u8]) -> (r: Vec<SemanticMatte>)
    ensures
        r@.map_values(|m: SemanticMatte| matte_view(m)) == spec_semantic_mattes(file_data@),
{
    let tiff = match TiffStructure::parse(file_data) {
        Some(t) => t,
        None => {
            assert(Seq::<SemanticMatte>::empty().map_values(|m: SemanticMatte| matte_view(m)) =~= Seq::<MatteView>::empty());
            return Vec::new();
        },
    };
    let ghost subs = ifd_views(tiff.sub_ifds@);
    let mut mattes: Vec<SemanticMatte> = Vec::new();
    let mut i: usize = 0;
    assert(subs.take(0) =~= Seq::<IfdView>::empty());
    while i < tiff.sub_ifds.len()
        invariant
            subs == ifd_views(tiff.sub_ifds@),
            i <= tiff.sub_ifds@.len(),
            mattes@.map_values(|m: SemanticMatte| matte_view(m)) =~= mattes_in(
                file_data@,
                tiff.byte_order,
                subs.take(i as int),
            ),
        decreases tiff.sub_ifds@.len() - i,
    {
        let ghost prev = mattes@;
        assert(subs.take(i + 1).drop_last() =~= subs.take(i as int));
        assert(subs.take(i + 1).last() == tiff.sub_ifds@[i as int]@);
        if let Some(m) = matte_of(file_data, &tiff.sub_ifds[i], tiff.byte_order) {
            mattes.push(m);
            assert(mattes@.map_values(|m: SemanticMatte| matte_view(m)) =~= prev.map_values(
                |m: SemanticMatte| matte_view(m),
            ).push(matte_view(m)));
        }
        i = i + 1;
    }
    assert(subs.take(subs.len() as int) =~= subs);
    mattes
}

// ── Tagged blobs in TIFF files ───────────────────────────────────────

/// The value bytes of the first entry with `tag` across a TIFF file's IFD
/// chain and SubIFDs.
pub open spec fn spec_tagged_bytes(d: Seq<u8>, tag: u16) -> Option<Seq<u8>> {
    match spec_parse(d) {
        None => None,
        Some((bo, chain, subs)) => match find_in_ifds(chain + subs, tag) {
            None => None,
            Some((_, e)) => spec_entry_bytes(d, e, bo),
        },
    }
}

/// The value bytes of the first entry with `tag` in a TIFF file.
fn tagged_bytes(data: &[u8], tag: u16) -> (r: Option<Vec<u8>>)
    ensures
        opt_seq(r) == spec_tagged_bytes(data@, tag),
{
    let tiff = TiffStructure::parse(data)?;
    let (_, entry) = tiff.find_entry(tag)?;
    let bytes = read_entry_bytes(data, entry, tiff.byte_order)?;
    Some(vstd::slice::slice_to_vec(bytes))
}

/// The MakerNote's bytes: for a TIFF file, the value of tag 0x927C (in the
/// EXIF IFD, which the TIFF parser reads as a SubIFD).
pub open spec fn spec_tiff_makernote_bytes(d: Seq<u8>) -> Option<Seq<u8>> {
    spec_tagged_bytes(d, tags::MAKER_NOTE)
}

/// The MakerNote tag in the Exif IFD.
pub open spec fn maker_note_tag() -> ExifTag {
    ExifTag { context: ExifContext::Exif, number: 0x927C }
}

/// The MakerNote's bytes for a JPEG file: the UNDEFINED value stored at tag
/// 0x927C of the EXIF attributes that kamadak-exif parses from it.
pub open spec fn spec_jpeg_makernote_bytes(d: Seq<u8>) -> Option<Seq<u8>> {
    match crate::exif::exif_fields_of(d) {
        None => None,
        Some(fields) => match crate::exif::lookup(fields, maker_note_tag()) {
            Some(ExifValue::Undefined(b)) => Some(b@),
            _ => None,
        },
    }
}

/// Extract raw MakerNote bytes from a TIFF or JPEG file.
///
/// For TIFF: uses the TIFF IFD parser to walk into the EXIF IFD and find
/// tag 0x927C. For JPEG: reads the EXIF attributes with kamadak-exif and
/// takes the MakerNote's UNDEFINED bytes.
pub fn extract_makernote_bytes(data: &[u8]) -> (r: Option<Vec<u8>>)
    ensures
        data@.len() < 4 ==> r is None,
        data@.len() >= 4 && (data@[0] == 0x4D && data@[1] == 0x4D || data@[0] == 0x49 && data@[1]
            == 0x49) ==> opt_seq(r) == spec_tiff_makernote_bytes(data@),
        data@.len() >= 4 && !(data@[0] == 0x4D && data@[1] == 0x4D || data@[0] == 0x49 && data@[1]
            == 0x49) && !(data@[0] == 0xFF && data@[1] == 0xD8) ==> r is None,
        data@.len() >= 4 && data@[0] == 0xFF && data@[1] == 0xD8 ==> opt_seq(r)
            == spec_jpeg_makernote_bytes(data@),
{
    if data.len() < 4 {
        return None;
    }
    // TIFF-based (APPLEDNG, standard DNG)
    if (data[0] == 0x4D && data[1] == 0x4D) || (data[0] == 0x49 && data[1] == 0x49) {
        // MakerNote is tag 0x927C in the EXIF IFD (which we parse as a SubIFD)
        return tagged_bytes(data, tags::MAKER_NOTE);
    }
    // JPEG-based (AMPF)
    if data[0] == 0xFF && data[1] == 0xD8 {
        let attrs = crate::exif::exif_read(data)?;
        let tag = ExifTag { context: ExifContext::Exif, number: 0x927C };
        if let Some(ExifValue::Undefined(bytes)) = crate::exif::exif_field(&attrs, tag) {
            return Some(bytes);
        }
        return None;
    }
    None
}

// ── DNG Profile ──────────────────────────────────────────────────────

/// A RATIONAL value as stored: numerator, denominator, and whether both are
/// signed (SRATIONAL).
pub type StoredRational = (u32, u32, bool);

/// DNG embedded color profile metadata, with each number kept as stored:
/// FLOAT and DOUBLE values as IEEE 754 bit patterns, RATIONAL values as
/// their numerator/denominator words.
#[derive(Clone, Debug)]
pub struct DngProfileWords {
    /// Profile name (tag 0xC6F8).
    pub name: Option<String>,
    /// Profile tone curve (tag 0xC6FC): 257 (x, y) control points as f32 bits.
    pub tone_curve_bits: Option<Vec<u32>>,
    /// Noise profile coefficients (tag 0xC761) stored as DOUBLE (f64 bits).
    pub noise_profile_bits: Option<Vec<u64>>,
    /// Noise profile coefficients stored as RATIONAL, read only when the tag
    /// holds no DOUBLE values.
    pub noise_profile_rationals: Option<Vec<StoredRational>>,
    /// Profile HueSatMap encoding (tag 0xC6F7).
    pub hue_sat_map_encoding: Option<StoredRational>,
    /// Default user crop [top, left, bottom, right] as fractions (tag 0xC7B5).
    pub default_user_crop: Option<[StoredRational; 4]>,
    /// Baseline noise (tag 0xC62B).
    pub baseline_noise: Option<StoredRational>,
    /// Baseline sharpness (tag 0xC62C).
    pub baseline_sharpness: Option<StoredRational>,
    /// Linear response limit (tag 0xC62E).
    pub linear_response_limit: Option<StoredRational>,
}

/// The byte order and the first IFD0 entry with `tag` of a TIFF file.
pub open spec fn ifd0_tag(d: Seq<u8>, tag: u16) -> Option<(ByteOrder, IfdEntry)> {
    match spec_parse(d) {
        None => None,
        Some((bo, chain, _)) => if chain.len() == 0 {
            None
        } else {
            match find_tag(chain[0].1, tag) {
                None => None,
                Some(e) => Some((bo, e)),
            }
        },
    }
}

/// `s`, unless it is empty.
pub open spec fn non_empty<T>(s: Seq<T>) -> Option<Seq<T>> {
    if s.len() == 0 {
        None
    } else {
        Some(s)
    }
}

/// The rational words of an entry, each marked with the entry's signedness.
pub open spec fn stored_rationals(d: Seq<u8>, e: IfdEntry, bo: ByteOrder) -> Seq<StoredRational> {
    spec_rational_words(d, e, bo).map_values(|w: (u32, u32)| (w.0, w.1, e.dtype == 10))
}

/// The rationals of IFD0's `tag`, if it is present.
pub open spec fn tag_rationals(d: Seq<u8>, tag: u16) -> Seq<StoredRational> {
    match ifd0_tag(d, tag) {
        None => Seq::empty(),
        Some((bo, e)) => stored_rationals(d, e, bo),
    }
}

/// The first rational of IFD0's `tag`.
pub open spec fn first_rational(d: Seq<u8>, tag: u16) -> Option<StoredRational> {
    let v = tag_rationals(d, tag);
    if v.len() == 0 {
        None
    } else {
        Some(v[0])
    }
}

/// The profile name: IFD0's ProfileName as ASCII text.
pub open spec fn spec_profile_name(d: Seq<u8>) -> Option<Seq<char>> {
    match ifd0_tag(d, tags::PROFILE_NAME) {
        None => None,
        Some((bo, e)) => spec_ascii_value(d, e, bo),
    }
}

/// The tone curve: IFD0's ProfileToneCurve FLOAT words, when there are any.
pub open spec fn spec_tone_curve(d: Seq<u8>) -> Option<Seq<u32>> {
    match ifd0_tag(d, tags::PROFILE_TONE_CURVE) {
        None => None,
        Some((bo, e)) => non_empty(spec_float_words(d, e, bo)),
    }
}

/// The noise profile's DOUBLE words, when there are any.
pub open spec fn spec_noise_doubles(d: Seq<u8>) -> Option<Seq<u64>> {
    match ifd0_tag(d, tags::NOISE_PROFILE) {
        None => None,
        Some((bo, e)) => non_empty(spec_double_words(d, e, bo)),
    }
}

/// The noise profile's rationals, when it has no DOUBLE words but has
/// rationals.
pub open spec fn spec_noise_rationals(d: Seq<u8>) -> Option<Seq<StoredRational>> {
    if spec_noise_doubles(d) is Some {
        None
    } else {
        non_empty(tag_rationals(d, tags::NOISE_PROFILE))
    }
}

/// The default user crop: the first four rationals of DefaultUserCrop.
pub open spec fn spec_user_crop(d: Seq<u8>) -> Option<Seq<StoredRational>> {
    let v = tag_rationals(d, tags::DEFAULT_USER_CROP);
    if v.len() >= 4 {
        Some(v.take(4))
    } else {
        None
    }
}

impl DngProfileWords {
    /// Every field holds what IFD0 of `d` stores under its tag.
    pub open spec fn describes(self, d: Seq<u8>) -> bool {
        &&& opt_text(self.name) == spec_profile_name(d)
        &&& opt_seq(self.tone_curve_bits) == spec_tone_curve(d)
        &&& opt_seq(self.noise_profile_bits) == spec_noise_doubles(d)
        &&& opt_seq(self.noise_profile_rationals) == spec_noise_rationals(d)
        &&& self.hue_sat_map_encoding == first_rational(d, tags::PROFILE_HUE_SAT_MAP_ENCODING)
        &&& match self.default_user_crop {
            Some(c) => spec_user_crop(d) == Some(c@),
            None => spec_user_crop(d) is None,
        }
        &&& self.baseline_noise == first_rational(d, tags::BASELINE_NOISE)
        &&& self.baseline_sharpness == first_rational(d, tags::BASELINE_SHARPNESS)
        &&& self.linear_response_limit == first_rational(d, tags::LINEAR_RESPONSE_LIMIT)
    }
}

/// IFD0's entry with `tag`, as `ifd0_tag` states it.
fn ifd0_lookup<'a>(tiff: &'a TiffStructure, tag: u16, data: &[u8]) -> (r: Option<&'a IfdEntry>)
    requires
        spec_parse(data@) == Some(tiff.spec_view()),
    ensures
        match r {
            Some(e) => ifd0_tag(data@, tag) == Some((tiff.byte_order, *e)),
            None => ifd0_tag(data@, tag) is None,
        },
{
    let r = tiff.ifd0_entry(tag);
    proof {
        if tiff.ifds@.len() > 0 {
            assert(ifd_views(tiff.ifds@)[0] == tiff.ifds@[0]@);
        }
    }
    r
}

/// The rationals of IFD0's `tag`, each with the entry's signedness.
fn rationals_of(data: &[u8], tiff: &TiffStructure, tag: u16) -> (r: Vec<StoredRational>)
    requires
        spec_parse(data@) == Some(tiff.spec_view()),
    ensures
        r@ == tag_rationals(data@, tag),
{
    let entry = match ifd0_lookup(tiff, tag, data) {
        Some(e) => e,
        None => return Vec::new(),
    };
    let words = read_rational_words(data, entry, tiff.byte_order);
    let signed = entry.dtype == 10;
    let mut out: Vec<StoredRational> = Vec::new();
    let mut i: usize = 0;
    while i < words.len()
        invariant
            i <= words@.len(),
            signed == (entry.dtype == 10),
            out@ =~= words@.take(i as int).map_values(|w: (u32, u32)| (w.0, w.1, entry.dtype == 10)),
        decreases words@.len() - i,
    {
        let (num, den) = words[i];
        out.push((num, den, signed));
        proof {
            assert(words@.take(i + 1) =~= words@.take(i as int).push(words@[i as int]));
        }
        i = i + 1;
    }
    assert(words@.take(words@.len() as int) =~= words@);
    out
}

/// The first rational of IFD0's `tag`.
fn first_rational_of(data: &[u8], tiff: &TiffStructure, tag: u16) -> (r: Option<StoredRational>)
    requires
        spec_parse(data@) == Some(tiff.spec_view()),
    ensures
        r == first_rational(data@, tag),
{
    let v = rationals_of(data, tiff, tag);
    if v.len() == 0 {
        None
    } else {
        Some(v[0])
    }
}

/// Extract DNG profile data from IFD0 of a TIFF/DNG file.
///
/// These tags are not always accessible through an EXIF reader (e.g.,
/// ProfileToneCurve is 514 FLOAT values). Returns `None` only when the
/// file does not parse as TIFF.
pub fn extract_dng_profile_words(data: &[u8]) -> (r: Option<DngProfileWords>)
    ensures
        r is Some <==> spec_parse(data@) is Some,
        r matches Some(p) ==> p.describes(data@),
{
    let tiff = TiffStructure::parse(data)?;
    let bo = tiff.byte_order;

    let name = match ifd0_lookup(&tiff, tags::PROFILE_NAME, data) {
        Some(entry) => read_ascii_value(data, entry, bo),
        None => None,
    };

    let tone_curve_bits = match ifd0_lookup(&tiff, tags::PROFILE_TONE_CURVE, data) {
        Some(entry) => {
            let floats = read_float_words(data, entry, bo);
            if floats.len() > 0 {
                Some(floats)
            } else {
                None
            }
        },
        None => None,
    };

    let mut noise_profile_bits: Option<Vec<u64>> = None;
    let mut noise_profile_rationals: Option<Vec<StoredRational>> = None;
    if let Some(entry) = ifd0_lookup(&tiff, tags::NOISE_PROFILE, data) {
        let vals = read_double_words(data, entry, bo);
        if vals.len() > 0 {
            noise_profile_bits = Some(vals);
        } else {
            // Some DNGs store noise profile as RATIONAL
            let rats = rationals_of(data, &tiff, tags::NOISE_PROFILE);
            if rats.len() > 0 {
                noise_profile_rationals = Some(rats);
            }
        }
    }

    let hue_sat_map_encoding = first_rational_of(data, &tiff, tags::PROFILE_HUE_SAT_MAP_ENCODING);

    let crop = rationals_of(data, &tiff, tags::DEFAULT_USER_CROP);
    let default_user_crop = if crop.len() >= 4 {
        let c: [StoredRational; 4] = [crop[0], crop[1], crop[2], crop[3]];
        assert(c@ =~= crop@.take(4));
        Some(c)
    } else {
        None
    };

    let baseline_noise = first_rational_of(data, &tiff, tags::BASELINE_NOISE);
    let baseline_sharpness = first_rational_of(data, &tiff, tags::BASELINE_SHARPNESS);
    let linear_response_limit = first_rational_of(data, &tiff, tags::LINEAR_RESPONSE_LIMIT);

    Some(DngProfileWords {
        name,
        tone_curve_bits,
        noise_profile_bits,
        noise_profile_rationals,
        hue_sat_map_encoding,
        default_user_crop,
        baseline_noise,
        baseline_sharpness,
        linear_response_limit,
    })
}

// ── ProfileGainTableMap (DNG 1.6 Smart HDR) ─────────────────────────

/// The layout of a DNG 1.6 ProfileGainTableMap, with each floating-point
/// value kept as its IEEE 754 bit pattern.
///
/// The map is a 3D lookup table with spatial (rows × cols grid) and tonal
/// (`tonal_points` weight entries) dimensions.
#[derive(Clone, Debug)]
pub struct GainTableMapLayout {
    /// Grid dimensions (rows, cols).
    pub grid_rows: u32,
    pub grid_cols: u32,
    /// Spacing between grid points in normalized image coords (f64 bits).
    pub spacing_v_bits: u64,
    pub spacing_h_bits: u64,
    /// Origin of grid in normalized image coords (f64 bits).
    pub origin_v_bits: u64,
    pub origin_h_bits: u64,
    /// Number of tonal table entries per grid point.
    pub tonal_points: u32,
    /// Input weight coefficients [R, G, B, min(RGB), max(RGB)] (f32 bits).
    pub input_weight_bits: [u32; 5],
    /// The gain table, `grid_rows × grid_cols × tonal_points` f32 bit
    /// patterns; row-major, then column, then tonal index.
    pub table_bits: Vec<u32>,
}

/// Big-endian 64-bit value at `off`.
pub open spec fn be64(d: Seq<u8>, off: int) -> u64 {
    (crate::bytes::be32(d, off) as int * 0x1_0000_0000 + crate::bytes::be32(d, off + 4) as int) as u64
}

/// Number of gain table entries.
pub open spec fn gain_table_len(raw: Seq<u8>) -> int {
    crate::bytes::be32(raw, 0) as int * crate::bytes::be32(raw, 4) as int * crate::bytes::be32(raw, 40) as int
}

/// The layout stored in a ProfileGainTableMap value (always big-endian):
/// a 64-byte header and a table that must fit in the value.
pub open spec fn spec_gain_table_layout(raw: Seq<u8>) -> Option<(u32, u32, u64, u64, u64, u64, u32, Seq<u32>, Seq<u32>)> {
    if raw.len() < 64 || 64 + gain_table_len(raw) * 4 > raw.len() {
        None
    } else {
        Some(
            (
                crate::bytes::be32(raw, 0),
                crate::bytes::be32(raw, 4),
                be64(raw, 8),
                be64(raw, 16),
                be64(raw, 24),
                be64(raw, 32),
                crate::bytes::be32(raw, 40),
                Seq::new(5, |i: int| crate::bytes::be32(raw, 44 + 4 * i)),
                Seq::new(gain_table_len(raw) as nat, |i: int| crate::bytes::be32(raw, 64 + 4 * i)),
            ),
        )
    }
}

impl GainTableMapLayout {
    /// The layout's fields, in declaration order.
    pub open spec fn spec_view(self) -> (u32, u32, u64, u64, u64, u64, u32, Seq<u32>, Seq<u32>) {
        (
            self.grid_rows,
            self.grid_cols,
            self.spacing_v_bits,
            self.spacing_h_bits,
            self.origin_v_bits,
            self.origin_h_bits,
            self.tonal_points,
            self.input_weight_bits@,
            self.table_bits@,
        )
    }
}

fn read_be32(raw: &[u8], off: usize) -> (r: u32)
    requires
        off + 4 <= raw@.len(),
    ensures
        r == crate::bytes::be32(raw@, off as int),
{
    tiff_ifd_read_u32(raw, off, ByteOrder::BigEndian)
}

fn read_be64(raw: &[u8], off: usize) -> (r: u64)
    requires
        off + 8 <= raw@.len(),
    ensures
        r == be64(raw@, off as int),
{
    let n = raw.len();
    assert(off + 8 <= n);
    let hi = read_be32(raw, off) as u64;
    let lo = read_be32(raw, off + 4) as u64;
    hi * 0x1_0000_0000 + lo
}

/// Parse a ProfileGainTableMap value: the header and the gain table.
///
/// Returns `None` when the value is shorter than its 64-byte header or than
/// the table its dimensions call for (including when that size exceeds the
/// address space).
pub fn parse_gain_table_map(raw: &[u8]) -> (r: Option<GainTableMapLayout>)
    ensures
        match r {
            Some(m) => spec_gain_table_layout(raw@) == Some(m.spec_view()),
            None => spec_gain_table_layout(raw@) is None,
        },
{
    if raw.len() < 64 {
        return None;
    }
    // Parse header (always big-endian per DNG spec)
    let grid_rows = read_be32(raw, 0);
    let grid_cols = read_be32(raw, 4);
    let spacing_v_bits = read_be64(raw, 8);
    let spacing_h_bits = read_be64(raw, 16);
    let origin_v_bits = read_be64(raw, 24);
    let origin_h_bits = read_be64(raw, 32);
    let tonal_points = read_be32(raw, 40);
    // Input weights: 5 × f32
    let input_weight_bits: [u32; 5] = [
        read_be32(raw, 44),
        read_be32(raw, 48),
        read_be32(raw, 52),
        read_be32(raw, 56),
        read_be32(raw, 60),
    ];
    assert(input_weight_bits@ =~= Seq::new(5, |i: int| crate::bytes::be32(raw@, 44 + 4 * i)));
    // Gain table: grid_rows × grid_cols × tonal_points × f32
    let table_start: usize = 64;
    let rl = raw.len();
    let avail = (raw.len() - table_start) / 4;
    proof {
        assert((grid_rows as int) * (grid_cols as int) <= 0xFFFF_FFFF * 0xFFFF_FFFF) by (nonlinear_arith)
            requires
                grid_rows <= 0xFFFF_FFFFu32,
                grid_cols <= 0xFFFF_FFFFu32,
        ;
        assert((grid_rows as int) * (grid_cols as int) * (tonal_points as int) <= 0xFFFF_FFFF
            * 0xFFFF_FFFF * 0xFFFF_FFFF) by (nonlinear_arith)
            requires
                (grid_rows as int) * (grid_cols as int) <= 0xFFFF_FFFF * 0xFFFF_FFFF,
                0 <= (grid_rows as int) * (grid_cols as int),
                tonal_points <= 0xFFFF_FFFFu32,
        ;
    }
    let wide_len: u128 = (grid_rows as u128) * (grid_cols as u128) * (tonal_points as u128);
    if wide_len > avail as u128 {
        return None;
    }
    let table_len = wide_len as usize;
    let mut table: Vec<u32> = Vec::new();
    let mut i: usize = 0;
    while i < table_len
        invariant
            table_len <= avail,
            avail == (raw@.len() - 64) / 4,
            raw@.len() >= 64,
            rl == raw@.len(),
            table_start == 64,
            i <= table_len,
            table@ =~= Seq::new(i as nat, |k: int| crate::bytes::be32(raw@, 64 + 4 * k)),
        decreases table_len - i,
    {
        proof {
            assert(64 + i * 4 + 4 <= raw@.len()) by (nonlinear_arith)
                requires
                    i < table_len,
                    table_len <= avail,
                    avail == (raw@.len() - 64) / 4,
                    raw@.len() >= 64,
            ;
        }
        table.push(read_be32(raw, table_start + i * 4));
        i = i + 1;
    }
    Some(GainTableMapLayout {
        grid_rows,
        grid_cols,
        spacing_v_bits,
        spacing_h_bits,
        origin_v_bits,
        origin_h_bits,
        tonal_points,
        input_weight_bits,
        table_bits: table,
    })
}

/// Read the ProfileGainTableMap layout from an APPLEDNG file.
///
/// The map is stored in the raw image SubIFD as tag 0xCD2D (UNDEFINED).
pub fn extract_gain_table_map_layout(data: &[u8]) -> (r: Option<GainTableMapLayout>)
    ensures
        match r {
            Some(m) => spec_tagged_bytes(data@, tags::PROFILE_GAIN_TABLE_MAP) matches Some(raw)
                && spec_gain_table_layout(raw) == Some(m.spec_view()),
            None => match spec_tagged_bytes(data@, tags::PROFILE_GAIN_TABLE_MAP) {
                None => true,
                Some(raw) => spec_gain_table_layout(raw) is None,
            },
        },
{
    let raw = tagged_bytes(data, tags::PROFILE_GAIN_TABLE_MAP)?;
    parse_gain_table_map(raw.as_slice())
}

/// A ProfileGainTableMap value is read field by field from the offsets of
/// its big-endian header: rows at 0, columns at 4, vertical then horizontal
/// spacing as eight-byte words at 8 and 16, vertical then horizontal origin
/// at 24 and 32, tonal points at 40, five input weights from 44; the table
/// of rows × columns × tonal points words follows at 64. It is read exactly
/// when the header and that table fit in the value.
pub proof fn law_gain_table_fields_sit_at_their_offsets(raw: Seq<u8>, m: GainTableMapLayout)
    requires
        spec_gain_table_layout(raw) == Some(m.spec_view()),
    ensures
        raw.len() >= 64,
        64 + 4 * (m.grid_rows as int * m.grid_cols as int * m.tonal_points as int) <= raw.len(),
        m.grid_rows == crate::bytes::be32(raw, 0),
        m.grid_cols == crate::bytes::be32(raw, 4),
        m.spacing_v_bits as int == crate::bytes::be32(raw, 8) as int * 0x1_0000_0000 + crate::bytes::be32(raw, 12) as int,
        m.spacing_h_bits as int == crate::bytes::be32(raw, 16) as int * 0x1_0000_0000 + crate::bytes::be32(raw, 20) as int,
        m.origin_v_bits as int == crate::bytes::be32(raw, 24) as int * 0x1_0000_0000 + crate::bytes::be32(raw, 28) as int,
        m.origin_h_bits as int == crate::bytes::be32(raw, 32) as int * 0x1_0000_0000 + crate::bytes::be32(raw, 36) as int,
        m.tonal_points == crate::bytes::be32(raw, 40),
        forall|i: int| 0 <= i < 5 ==> m.input_weight_bits@[i] == crate::bytes::be32(raw, 44 + 4 * i),
        m.table_bits@.len() == m.grid_rows as int * m.grid_cols as int * m.tonal_points as int,
        forall|i: int| 0 <= i < m.table_bits@.len() ==> m.table_bits@[i] == crate::bytes::be32(raw, 64 + 4 * i),
{
    assert forall|off: int| 0 <= off && off + 8 <= raw.len() implies (be64(raw, off) as int
        == crate::bytes::be32(raw, off) as int * 0x1_0000_0000 + crate::bytes::be32(raw, off + 4) as int) by {
        let hi = crate::bytes::be32(raw, off) as int;
        let lo = crate::bytes::be32(raw, off + 4) as int;
        assert(0 <= hi * 0x1_0000_0000 + lo <= u64::MAX) by (nonlinear_arith)
            requires
                0 <= hi <= u32::MAX,
                0 <= lo <= u32::MAX,
        ;
    }
    assert(m.input_weight_bits@.len() == 5);
}

/// A gain table that is read exactly when a value holds its header and its
/// table: a value of at least 64 bytes whose table fits is always read.
pub proof fn law_gain_table_read_when_it_fits(raw: Seq<u8>)
    requires
        raw.len() >= 64,
        64 + 4 * (crate::bytes::be32(raw, 0) as int * crate::bytes::be32(raw, 4) as int
            * crate::bytes::be32(raw, 40) as int) <= raw.len(),
    ensures
        spec_gain_table_layout(raw) is Some,
{
}

} // verus!
