//! TIFF IFD walking: the IFD0 chain, SubIFDs (tag 330) and the EXIF IFD.
//!
//! The parser reads only the metadata structure, never image data. Every
//! read is bounds-checked against the input, so malformed offsets make an
//! IFD or a value unavailable rather than out of range.
use vstd::prelude::*;
use vstd::utf8::{decode_utf8, valid_utf8};

use crate::bytes::{be16, be32, le16, le32};

pub mod tags;

verus! {

/// Byte order for TIFF data.
#[derive(Clone, Copy, Debug, PartialEq, Eq, Structural)]
pub enum ByteOrder {
    BigEndian,
    LittleEndian,
}

impl Default for ByteOrder {
    fn default() -> (r: Self)
        ensures
            r == ByteOrder::BigEndian,
    {
        ByteOrder::BigEndian
    }
}

/// A raw TIFF IFD entry.
#[derive(Clone, Copy, Debug)]
pub struct IfdEntry {
    /// Tag identifier.
    pub tag: u16,
    /// TIFF data type (1=BYTE, 2=ASCII, 3=SHORT, 4=LONG, 5=RATIONAL, etc.)
    pub dtype: u16,
    /// Number of values.
    pub count: u32,
    /// Raw 4-byte value/offset field.
    pub value_offset: [u8; 4],
}

/// A parsed TIFF IFD.
#[derive(Clone, Debug)]
pub struct Ifd {
    /// Offset of this IFD in the file.
    pub offset: usize,
    /// IFD entries.
    pub entries: Vec<IfdEntry>,
    /// Offset of the next IFD (0 if none).
    pub next_ifd_offset: u32,
}

/// The mathematical content of an [`Ifd`]: offset, entries, next offset.
pub type IfdView = (usize, Seq<IfdEntry>, u32);

impl View for Ifd {
    type V = IfdView;

    open spec fn view(&self) -> IfdView {
        (self.offset, self.entries@, self.next_ifd_offset)
    }
}

/// Parsed TIFF file structure with IFD chain and SubIFDs.
#[derive(Clone, Debug)]
pub struct TiffStructure {
    pub byte_order: ByteOrder,
    /// IFD0 (and any chained IFDs via next-IFD pointer).
    pub ifds: Vec<Ifd>,
    /// SubIFDs referenced by tag 330 (and the EXIF IFD) from the IFD chain.
    pub sub_ifds: Vec<Ifd>,
}

/// Views of a sequence of IFDs.
pub open spec fn ifd_views(s: Seq<Ifd>) -> Seq<IfdView> {
    s.map_values(|i: Ifd| i@)
}

// ── Integer reads ────────────────────────────────────────────────────

/// 16-bit value at `off` in the given byte order.
pub open spec fn read16(d: Seq<u8>, off: int, bo: ByteOrder) -> u16 {
    match bo {
        ByteOrder::BigEndian => be16(d, off),
        ByteOrder::LittleEndian => le16(d, off),
    }
}

/// 32-bit value at `off` in the given byte order.
pub open spec fn read32(d: Seq<u8>, off: int, bo: ByteOrder) -> u32 {
    match bo {
        ByteOrder::BigEndian => be32(d, off),
        ByteOrder::LittleEndian => le32(d, off),
    }
}

pub(crate) fn read_u16(data: &[u8], offset: usize, byte_order: ByteOrder) -> (r: u16)
    requires
        offset + 2 <= data@.len(),
    ensures
        r == read16(data@, offset as int, byte_order),
{
    let b0 = data[offset] as u16;
    let b1 = data[offset + 1] as u16;
    match byte_order {
        ByteOrder::BigEndian => b0 * 256 + b1,
        ByteOrder::LittleEndian => b1 * 256 + b0,
    }
}

pub(crate) fn read_u32(data: &[u8], offset: usize, byte_order: ByteOrder) -> (r: u32)
    requires
        offset + 4 <= data@.len(),
    ensures
        r == read32(data@, offset as int, byte_order),
{
    let b0 = data[offset] as u32;
    let b1 = data[offset + 1] as u32;
    let b2 = data[offset + 2] as u32;
    let b3 = data[offset + 3] as u32;
    match byte_order {
        ByteOrder::BigEndian => b0 * 16777216 + b1 * 65536 + b2 * 256 + b3,
        ByteOrder::LittleEndian => b3 * 16777216 + b2 * 65536 + b1 * 256 + b0,
    }
}

// ── TIFF type sizes ──────────────────────────────────────────────────

/// Size in bytes per element of each TIFF data type (0 for unknown types).
pub open spec fn type_size(dtype: u16) -> nat {
    if dtype == 1 || dtype == 6 || dtype == 7 || dtype == 2 {
        1
    } else if dtype == 3 || dtype == 8 {
        2
    } else if dtype == 4 || dtype == 9 || dtype == 11 {
        4
    } else if dtype == 5 || dtype == 10 || dtype == 12 || dtype == 16 {
        8
    } else {
        0
    }
}

/// Size in bytes per element for each TIFF data type.
fn tiff_type_size(dtype: u16) -> (r: usize)
    ensures
        r == type_size(dtype),
{
    match dtype {
        1 | 6 | 7 => 1,  // BYTE, SBYTE, UNDEFINED
        2 => 1,  // ASCII
        3 | 8 => 2,  // SHORT, SSHORT
        4 | 9 => 4,  // LONG, SLONG
        5 | 10 => 8,  // RATIONAL, SRATIONAL
        11 => 4,  // FLOAT
        12 => 8,  // DOUBLE
        16 => 8,  // LONG8 (BigTIFF)
        _ => 0,
    }
}


// ── Entry values ─────────────────────────────────────────────────────

impl IfdEntry {
    /// Byte size of the value data, saturated at `usize::MAX`.
    pub open spec fn spec_data_size(self) -> usize {
        let p = type_size(self.dtype) * (self.count as nat);
        if p > usize::MAX {
            usize::MAX
        } else {
            p as usize
        }
    }

    /// Total byte size of this entry's value data.
    ///
    /// Saturates at `usize::MAX` on overflow, which makes every later bounds
    /// check fail.
    pub fn data_size(&self) -> (r: usize)
        ensures
            r == self.spec_data_size(),
    {
        let ts = tiff_type_size(self.dtype);
        match ts.checked_mul(self.count as usize) {
            Some(p) => p,
            None => usize::MAX,
        }
    }

    /// Whether the value fits inline in the 4-byte value/offset field.
    pub fn is_inline(&self) -> (r: bool)
        ensures
            r == (self.spec_data_size() <= 4),
    {
        self.data_size() <= 4
    }
}

/// The value bytes of an entry: inline in the value field when they fit in
/// four bytes, otherwise at the offset the field holds, if that range lies
/// within the file.
pub open spec fn spec_entry_bytes(d: Seq<u8>, e: IfdEntry, bo: ByteOrder) -> Option<Seq<u8>> {
    let size = e.spec_data_size() as int;
    if size == 0 {
        None
    } else if size <= 4 {
        Some(e.value_offset@.subrange(0, size))
    } else {
        let off = read32(e.value_offset@, 0, bo) as int;
        if off + size > d.len() {
            None
        } else {
            Some(d.subrange(off, off + size))
        }
    }
}

/// Read value data bytes for an IFD entry.
pub fn read_entry_bytes<'a>(data: &'a [u8], entry: &'a IfdEntry, byte_order: ByteOrder) -> (r:
    Option<&'a [u8]>)
    ensures
        match r {
            Some(b) => spec_entry_bytes(data@, *entry, byte_order) == Some(b@),
            None => spec_entry_bytes(data@, *entry, byte_order) is None,
        },
{
    let size = entry.data_size();
    if size == 0 {
        return None;
    }
    let field: &[u8] = entry.value_offset.as_slice();
    if size <= 4 {
        Some(vstd::slice::slice_subrange(field, 0, size))
    } else {
        let offset = read_u32(field, 0, byte_order) as usize;
        if offset > data.len() || size > data.len() - offset {
            return None;
        }
        Some(vstd::slice::slice_subrange(data, offset, offset + size))
    }
}

/// A single SHORT or LONG value of an entry, widened to 32 bits.
pub open spec fn spec_u32_value(d: Seq<u8>, e: IfdEntry, bo: ByteOrder) -> Option<u32> {
    match spec_entry_bytes(d, e, bo) {
        None => None,
        Some(b) => if e.dtype == 3 {
            Some(read16(b, 0, bo) as u32)
        } else if e.dtype == 4 {
            Some(read32(b, 0, bo))
        } else {
            None
        },
    }
}

/// A single SHORT value of an entry.
pub open spec fn spec_u16_value(d: Seq<u8>, e: IfdEntry, bo: ByteOrder) -> Option<u16> {
    if e.dtype != 3 {
        None
    } else {
        match spec_entry_bytes(d, e, bo) {
            None => None,
            Some(b) => Some(read16(b, 0, bo)),
        }
    }
}

proof fn lemma_entry_bytes_len(d: Seq<u8>, e: IfdEntry, bo: ByteOrder)
    ensures
        spec_entry_bytes(d, e, bo) matches Some(b) ==> b.len() == e.spec_data_size(),
{
}

/// Read a single u32 value from an IFD entry.
pub fn read_u32_value(data: &[u8], entry: &IfdEntry, byte_order: ByteOrder) -> (r: Option<u32>)
    ensures
        r == spec_u32_value(data@, *entry, byte_order),
{
    proof {
        lemma_entry_bytes_len(data@, *entry, byte_order);
    }
    match entry.dtype {
        3 => {
            let bytes = read_entry_bytes(data, entry, byte_order)?;
            Some(read_u16(bytes, 0, byte_order) as u32)
        },
        4 => {
            let bytes = read_entry_bytes(data, entry, byte_order)?;
            Some(read_u32(bytes, 0, byte_order))
        },
        _ => None,
    }
}

/// Read a u16 value from an IFD entry.
pub fn read_u16_value(data: &[u8], entry: &IfdEntry, byte_order: ByteOrder) -> (r: Option<u16>)
    ensures
        r == spec_u16_value(data@, *entry, byte_order),
{
    proof {
        lemma_entry_bytes_len(data@, *entry, byte_order);
    }
    if entry.dtype != 3 {
        return None;
    }
    let bytes = read_entry_bytes(data, entry, byte_order)?;
    Some(read_u16(bytes, 0, byte_order))
}

/// The SHORT or LONG values of an entry, widened to 32 bits; empty for
/// other types or when the value bytes are unavailable.
pub open spec fn spec_long_values(d: Seq<u8>, e: IfdEntry, bo: ByteOrder) -> Seq<u32> {
    match spec_entry_bytes(d, e, bo) {
        None => Seq::empty(),
        Some(b) => if e.dtype == 3 {
            let n = if (e.count as int) < b.len() / 2 {
                e.count as int
            } else {
                b.len() as int / 2
            };
            Seq::new(n as nat, |i: int| read16(b, 2 * i, bo) as u32)
        } else if e.dtype == 4 {
            let n = if (e.count as int) < b.len() / 4 {
                e.count as int
            } else {
                b.len() as int / 4
            };
            Seq::new(n as nat, |i: int| read32(b, 4 * i, bo))
        } else {
            Seq::empty()
        },
    }
}

/// Read multiple LONG (u32) values from an IFD entry.
pub fn read_long_values(data: &[u8], entry: &IfdEntry, byte_order: ByteOrder) -> (r: Vec<u32>)
    ensures
        r@ == spec_long_values(data@, *entry, byte_order),
{
    let mut values: Vec<u32> = Vec::new();
    let bytes = match read_entry_bytes(data, entry, byte_order) {
        Some(b) => b,
        None => return values,
    };
    match entry.dtype {
        3 => {
            let max_count = bytes.len() / 2;
            let count = if (entry.count as usize) < max_count {
                entry.count as usize
            } else {
                max_count
            };
            let mut i: usize = 0;
            while i < count
                invariant
                    count <= bytes@.len() / 2,
                    bytes@.len() == bytes.len(),
                    i <= count,
                    values@ =~= Seq::new(i as nat, |k: int| read16(bytes@, 2 * k, byte_order) as u32),
                decreases count - i,
            {
                values.push(read_u16(bytes, i * 2, byte_order) as u32);
                i = i + 1;
            }
        },
        4 => {
            let max_count = bytes.len() / 4;
            let count = if (entry.count as usize) < max_count {
                entry.count as usize
            } else {
                max_count
            };
            let mut i: usize = 0;
            while i < count
                invariant
                    count <= bytes@.len() / 4,
                    bytes@.len() == bytes.len(),
                    i <= count,
                    values@ =~= Seq::new(i as nat, |k: int| read32(bytes@, 4 * k, byte_order)),
                decreases count - i,
            {
                values.push(read_u32(bytes, i * 4, byte_order));
                i = i + 1;
            }
        },
        _ => {},
    }
    values
}

/// How many `width`-byte values an entry of `count` values yields from
/// `len` value bytes: the declared count, capped by the bytes present.
pub open spec fn capped_count(count: u32, len: int, width: int) -> int {
    if (count as int) < len / width {
        count as int
    } else {
        len / width
    }
}

/// The numerator and denominator words of a RATIONAL or SRATIONAL entry, in
/// order; empty for other types or when the value bytes are unavailable.
pub open spec fn spec_rational_words(d: Seq<u8>, e: IfdEntry, bo: ByteOrder) -> Seq<(u32, u32)> {
    if e.dtype != 5 && e.dtype != 10 {
        Seq::empty()
    } else {
        match spec_entry_bytes(d, e, bo) {
            None => Seq::empty(),
            Some(b) => Seq::new(
                capped_count(e.count, b.len() as int, 8) as nat,
                |i: int| (read32(b, 8 * i, bo), read32(b, 8 * i + 4, bo)),
            ),
        }
    }
}

/// The raw numerator/denominator pairs of a RATIONAL (5) or SRATIONAL (10)
/// entry; the value of each is the numerator over the denominator (both
/// read as signed for SRATIONAL).
pub fn read_rational_words(data: &[u8], entry: &IfdEntry, byte_order: ByteOrder) -> (r: Vec<(u32, u32)>)
    ensures
        r@ == spec_rational_words(data@, *entry, byte_order),
{
    let mut values: Vec<(u32, u32)> = Vec::new();
    if entry.dtype != 5 && entry.dtype != 10 {
        return values;
    }
    let bytes = match read_entry_bytes(data, entry, byte_order) {
        Some(b) => b,
        None => return values,
    };
    let max_count = bytes.len() / 8;
    let count = if (entry.count as usize) < max_count {
        entry.count as usize
    } else {
        max_count
    };
    let mut i: usize = 0;
    while i < count
        invariant
            count <= bytes@.len() / 8,
            bytes@.len() == bytes.len(),
            i <= count,
            values@ =~= Seq::new(
                i as nat,
                |k: int| (read32(bytes@, 8 * k, byte_order), read32(bytes@, 8 * k + 4, byte_order)),
            ),
        decreases count - i,
    {
        let num = read_u32(bytes, i * 8, byte_order);
        let den = read_u32(bytes, i * 8 + 4, byte_order);
        values.push((num, den));
        i = i + 1;
    }
    values
}

/// The bit patterns of a FLOAT entry's values, in order; empty for other
/// types or when the value bytes are unavailable.
pub open spec fn spec_float_words(d: Seq<u8>, e: IfdEntry, bo: ByteOrder) -> Seq<u32> {
    if e.dtype != 11 {
        Seq::empty()
    } else {
        match spec_entry_bytes(d, e, bo) {
            None => Seq::empty(),
            Some(b) => Seq::new(capped_count(e.count, b.len() as int, 4) as nat, |i: int| read32(b, 4 * i, bo)),
        }
    }
}

/// The IEEE-754 single-precision bit patterns of a FLOAT (11) entry.
pub fn read_float_words(data: &[u8], entry: &IfdEntry, byte_order: ByteOrder) -> (r: Vec<u32>)
    ensures
        r@ == spec_float_words(data@, *entry, byte_order),
{
    let mut values: Vec<u32> = Vec::new();
    if entry.dtype != 11 {
        return values;
    }
    let bytes = match read_entry_bytes(data, entry, byte_order) {
        Some(b) => b,
        None => return values,
    };
    let max_count = bytes.len() / 4;
    let count = if (entry.count as usize) < max_count {
        entry.count as usize
    } else {
        max_count
    };
    let mut i: usize = 0;
    while i < count
        invariant
            count <= bytes@.len() / 4,
            bytes@.len() == bytes.len(),
            i <= count,
            values@ =~= Seq::new(i as nat, |k: int| read32(bytes@, 4 * k, byte_order)),
        decreases count - i,
    {
        values.push(read_u32(bytes, i * 4, byte_order));
        i = i + 1;
    }
    values
}

/// A 64-bit word from the two 32-bit halves of an 8-byte value: the first
/// half is the high one in big-endian files, the low one in little-endian
/// files.
pub open spec fn join_words(first: u32, second: u32, bo: ByteOrder) -> u64 {
    if bo is BigEndian {
        (first * 0x1_0000_0000 + second) as u64
    } else {
        (second * 0x1_0000_0000 + first) as u64
    }
}

/// The bit patterns of a DOUBLE entry's values, in order; empty for other
/// types or when the value bytes are unavailable.
pub open spec fn spec_double_words(d: Seq<u8>, e: IfdEntry, bo: ByteOrder) -> Seq<u64> {
    if e.dtype != 12 {
        Seq::empty()
    } else {
        match spec_entry_bytes(d, e, bo) {
            None => Seq::empty(),
            Some(b) => Seq::new(
                capped_count(e.count, b.len() as int, 8) as nat,
                |i: int| join_words(read32(b, 8 * i, bo), read32(b, 8 * i + 4, bo), bo),
            ),
        }
    }
}

/// The IEEE-754 double-precision bit patterns of a DOUBLE (12) entry.
pub fn read_double_words(data: &[u8], entry: &IfdEntry, byte_order: ByteOrder) -> (r: Vec<u64>)
    ensures
        r@ == spec_double_words(data@, *entry, byte_order),
{
    let mut values: Vec<u64> = Vec::new();
    if entry.dtype != 12 {
        return values;
    }
    let bytes = match read_entry_bytes(data, entry, byte_order) {
        Some(b) => b,
        None => return values,
    };
    let max_count = bytes.len() / 8;
    let count = if (entry.count as usize) < max_count {
        entry.count as usize
    } else {
        max_count
    };
    let mut i: usize = 0;
    while i < count
        invariant
            count <= bytes@.len() / 8,
            bytes@.len() == bytes.len(),
            i <= count,
            values@ =~= Seq::new(
                i as nat,
                |k: int|
                    join_words(read32(bytes@, 8 * k, byte_order), read32(bytes@, 8 * k + 4, byte_order), byte_order),
            ),
        decreases count - i,
    {
        let first = read_u32(bytes, i * 8, byte_order) as u64;
        let second = read_u32(bytes, i * 8 + 4, byte_order) as u64;
        let word = match byte_order {
            ByteOrder::BigEndian => first * 0x1_0000_0000 + second,
            ByteOrder::LittleEndian => second * 0x1_0000_0000 + first,
        };
        values.push(word);
        i = i + 1;
    }
    values
}

/// Length of the prefix of `b` before its first NUL byte (all of `b` when
/// there is none).
pub open spec fn nul_prefix_len(b: Seq<u8>) -> int
    decreases b.len(),
{
    if b.len() == 0 {
        0
    } else if b[0] == 0 {
        0
    } else {
        1 + nul_prefix_len(b.drop_first())
    }
}

/// The ASCII (type 2) value of an entry up to its first NUL, when that text
/// is valid UTF-8.
pub open spec fn spec_ascii_value(d: Seq<u8>, e: IfdEntry, bo: ByteOrder) -> Option<Seq<char>> {
    if e.dtype != 2 {
        None
    } else {
        match spec_entry_bytes(d, e, bo) {
            None => None,
            Some(b) => {
                let t = b.subrange(0, nul_prefix_len(b));
                if valid_utf8(t) {
                    Some(decode_utf8(t))
                } else {
                    None
                }
            },
        }
    }
}

proof fn lemma_nul_prefix(b: Seq<u8>, i: int)
    requires
        0 <= i <= b.len(),
        forall|k: int| 0 <= k < i ==> b[k] != 0,
        i == b.len() || b[i] == 0,
    ensures
        nul_prefix_len(b) == i,
    decreases b.len(),
{
    if b.len() > 0 && i > 0 {
        lemma_nul_prefix(b.drop_first(), i - 1);
    }
}

/// Read an ASCII string from an IFD entry.
pub fn read_ascii_value(data: &[u8], entry: &IfdEntry, byte_order: ByteOrder) -> (r: Option<
    String,
>)
    ensures
        match r {
            Some(s) => spec_ascii_value(data@, *entry, byte_order) == Some(s@),
            None => spec_ascii_value(data@, *entry, byte_order) is None,
        },
{
    if entry.dtype != 2 {
        return None;
    }
    let bytes = read_entry_bytes(data, entry, byte_order)?;
    // Strip trailing NUL
    let mut end: usize = 0;
    while end < bytes.len() && bytes[end] != 0
        invariant
            end <= bytes@.len(),
            forall|k: int| 0 <= k < end ==> bytes@[k] != 0,
        decreases bytes@.len() - end,
    {
        end = end + 1;
    }
    proof {
        lemma_nul_prefix(bytes@, end as int);
    }
    crate::text::utf8_to_string(vstd::slice::slice_subrange(bytes, 0, end))
}

// ── IFD parsing ──────────────────────────────────────────────────────

/// The entry whose 12 bytes start at `e`.
pub open spec fn entry_at(d: Seq<u8>, e: int, bo: ByteOrder) -> IfdEntry {
    IfdEntry {
        tag: read16(d, e, bo),
        dtype: read16(d, e + 2, bo),
        count: read32(d, e + 4, bo),
        value_offset: [d[e + 8], d[e + 9], d[e + 10], d[e + 11]],
    }
}

/// The IFD at `off`: an entry count, that many 12-byte entries, and a
/// 4-byte next-IFD offset, all within the file. Offset 0 means "no IFD".
pub open spec fn spec_parse_ifd(d: Seq<u8>, off: int, bo: ByteOrder) -> Option<IfdView> {
    if off <= 0 || off + 2 > d.len() || off > usize::MAX {
        None
    } else {
        let n = read16(d, off, bo) as int;
        let end = off + 2 + n * 12;
        if end + 4 > d.len() {
            None
        } else {
            Some(
                (
                    off as usize,
                    Seq::new(n as nat, |i: int| entry_at(d, off + 2 + i * 12, bo)),
                    read32(d, end, bo),
                ),
            )
        }
    }
}

fn parse_ifd(data: &[u8], offset: usize, byte_order: ByteOrder) -> (r: Option<Ifd>)
    ensures
        match r {
            Some(ifd) => spec_parse_ifd(data@, offset as int, byte_order) == Some(ifd@),
            None => spec_parse_ifd(data@, offset as int, byte_order) is None,
        },
{
    if offset == 0 || offset > data.len() || 2 > data.len() - offset {
        return None;
    }
    let entry_count = read_u16(data, offset, byte_order) as usize;
    let entries_start = offset + 2;
    if entry_count * 12 > data.len() - entries_start || 4 > data.len() - entries_start
        - entry_count * 12 {
        return None;
    }
    let entries_end = entries_start + entry_count * 12;
    let mut entries: Vec<IfdEntry> = Vec::with_capacity(entry_count);
    let mut i: usize = 0;
    while i < entry_count
        invariant
            entries_start == offset + 2,
            entries_end == entries_start + entry_count * 12,
            entries_end + 4 <= data@.len(),
            i <= entry_count,
            entries@ =~= Seq::new(
                i as nat,
                |k: int| entry_at(data@, entries_start + k * 12, byte_order),
            ),
        decreases entry_count - i,
    {
        let e = entries_start + i * 12;
        let tag = read_u16(data, e, byte_order);
        let dtype = read_u16(data, e + 2, byte_order);
        let count = read_u32(data, e + 4, byte_order);
        let value_offset = [data[e + 8], data[e + 9], data[e + 10], data[e + 11]];
        let entry = IfdEntry { tag, dtype, count, value_offset };
        assert(entry.value_offset@ =~= entry_at(data@, e as int, byte_order).value_offset@);
        entries.push(entry);
        i = i + 1;
    }
    let next_ifd_offset = read_u32(data, entries_end, byte_order);
    Some(Ifd { offset, entries, next_ifd_offset })
}

// ── Structure parsing ────────────────────────────────────────────────

/// Most IFDs followed along the next-IFD chain.
pub const MAX_CHAIN: usize = 20;

/// The IFD chain from `off`, at most `fuel` IFDs long. The chain ends at a
/// zero offset or at the first IFD that does not parse.
pub open spec fn spec_chain(d: Seq<u8>, bo: ByteOrder, off: int, fuel: nat) -> Seq<IfdView>
    decreases fuel,
{
    if fuel == 0 || off == 0 {
        Seq::empty()
    } else {
        match spec_parse_ifd(d, off, bo) {
            None => Seq::empty(),
            Some(v) => seq![v] + spec_chain(d, bo, v.2 as int, (fuel - 1) as nat),
        }
    }
}

/// The IFDs at the given offsets that parse, in order.
pub open spec fn parsed_ifds(d: Seq<u8>, bo: ByteOrder, offs: Seq<u32>) -> Seq<IfdView>
    decreases offs.len(),
{
    if offs.len() == 0 {
        Seq::empty()
    } else {
        let rest = parsed_ifds(d, bo, offs.drop_last());
        match spec_parse_ifd(d, offs.last() as int, bo) {
            Some(v) => rest.push(v),
            None => rest,
        }
    }
}

/// Tags whose values point at further IFDs: SubIFDs (330) and the EXIF IFD.
pub open spec fn is_sub_ifd_tag(tag: u16) -> bool {
    tag == tags::SUB_IFDS || tag == tags::EXIF_IFD
}

/// The IFDs that the entries point at through SubIFD and EXIF IFD tags.
pub open spec fn entries_sub_ifds(d: Seq<u8>, bo: ByteOrder, es: Seq<IfdEntry>) -> Seq<IfdView>
    decreases es.len(),
{
    if es.len() == 0 {
        Seq::empty()
    } else {
        let rest = entries_sub_ifds(d, bo, es.drop_last());
        if is_sub_ifd_tag(es.last().tag) {
            rest + parsed_ifds(d, bo, spec_long_values(d, es.last(), bo))
        } else {
            rest
        }
    }
}

/// The SubIFDs of every IFD in the chain, in chain order.
pub open spec fn chain_sub_ifds(d: Seq<u8>, bo: ByteOrder, ifds: Seq<IfdView>) -> Seq<IfdView>
    decreases ifds.len(),
{
    if ifds.len() == 0 {
        Seq::empty()
    } else {
        chain_sub_ifds(d, bo, ifds.drop_last()) + entries_sub_ifds(d, bo, ifds.last().1)
    }
}

/// The byte order that a TIFF header declares: `MM` or `II` followed by
/// the magic number 42, in a file of at least 8 bytes.
pub open spec fn spec_tiff_header(d: Seq<u8>) -> Option<ByteOrder> {
    if d.len() < 8 {
        None
    } else {
        let bo = if d[0] == 0x4D && d[1] == 0x4D {
            Some(ByteOrder::BigEndian)
        } else if d[0] == 0x49 && d[1] == 0x49 {
            Some(ByteOrder::LittleEndian)
        } else {
            None
        };
        match bo {
            Some(b) => if read16(d, 2, b) == 42 {
                Some(b)
            } else {
                None
            },
            None => None,
        }
    }
}

/// The structure of a TIFF file: byte order, the IFD chain from IFD0 and
/// the SubIFDs that chain points at.
pub open spec fn spec_parse(d: Seq<u8>) -> Option<(ByteOrder, Seq<IfdView>, Seq<IfdView>)> {
    match spec_tiff_header(d) {
        None => None,
        Some(bo) => {
            let chain = spec_chain(d, bo, read32(d, 4, bo) as int, MAX_CHAIN as nat);
            Some((bo, chain, chain_sub_ifds(d, bo, chain)))
        },
    }
}

impl TiffStructure {
    /// The mathematical content: byte order, IFD chain, SubIFDs.
    pub open spec fn spec_view(self) -> (ByteOrder, Seq<IfdView>, Seq<IfdView>) {
        (self.byte_order, ifd_views(self.ifds@), ifd_views(self.sub_ifds@))
    }

    /// Parse a TIFF file's IFD structure from raw bytes.
    ///
    /// Reads IFD0 and its chain, plus SubIFDs from tag 330 and the EXIF IFD.
    /// Does NOT read image data — just the metadata structure.
    pub fn parse(data: &[u8]) -> (r: Option<Self>)
        ensures
            match r {
                Some(t) => spec_parse(data@) == Some(t.spec_view()),
                None => spec_parse(data@) is None,
            },
    {
        if data.len() < 8 {
            return None;
        }
        let byte_order = if data[0] == 0x4D && data[1] == 0x4D {
            ByteOrder::BigEndian
        } else if data[0] == 0x49 && data[1] == 0x49 {
            ByteOrder::LittleEndian
        } else {
            return None;
        };
        let magic = read_u16(data, 2, byte_order);
        if magic != 42 {
            return None;
        }
        let ifd0_offset = read_u32(data, 4, byte_order) as usize;
        let ghost full = spec_chain(data@, byte_order, ifd0_offset as int, MAX_CHAIN as nat);

        let mut ifds: Vec<Ifd> = Vec::new();
        let mut sub_ifds: Vec<Ifd> = Vec::new();
        let mut current_offset = ifd0_offset;
        let mut safety: usize = 0;
        while current_offset != 0 && safety < MAX_CHAIN
            invariant
                spec_tiff_header(data@) == Some(byte_order),
                ifd0_offset == read32(data@, 4, byte_order),
                full == spec_chain(data@, byte_order, ifd0_offset as int, MAX_CHAIN as nat),
                safety <= MAX_CHAIN,
                ifd_views(ifds@) + spec_chain(
                    data@,
                    byte_order,
                    current_offset as int,
                    (MAX_CHAIN - safety) as nat,
                ) == full,
                ifd_views(sub_ifds@) == chain_sub_ifds(data@, byte_order, ifd_views(ifds@)),
            ensures
                ifd_views(ifds@) == full,
                ifd_views(sub_ifds@) == chain_sub_ifds(data@, byte_order, ifd_views(ifds@)),
            decreases MAX_CHAIN - safety,
        {
            let ifd = match parse_ifd(data, current_offset, byte_order) {
                Some(ifd) => ifd,
                None => {
                    assert(ifd_views(ifds@) + Seq::<IfdView>::empty() =~= ifd_views(ifds@));
                    break;
                },
            };
            let ghost before = ifd_views(sub_ifds@);
            let mut j: usize = 0;
            while j < ifd.entries.len()
                invariant
                    j <= ifd.entries@.len(),
                    ifd_views(sub_ifds@) == before + entries_sub_ifds(
                        data@,
                        byte_order,
                        ifd.entries@.take(j as int),
                    ),
                decreases ifd.entries@.len() - j,
            {
                let entry = &ifd.entries[j];
                let ghost mid = ifd_views(sub_ifds@);
                if entry.tag == tags::SUB_IFDS || entry.tag == tags::EXIF_IFD {
                    let offsets = read_long_values(data, entry, byte_order);
                    let mut k: usize = 0;
                    while k < offsets.len()
                        invariant
                            k <= offsets@.len(),
                            ifd_views(sub_ifds@) == mid + parsed_ifds(
                                data@,
                                byte_order,
                                offsets@.take(k as int),
                            ),
                        decreases offsets@.len() - k,
                    {
                        let ghost prev = ifd_views(sub_ifds@);
                        assert(offsets@.take(k + 1).drop_last() =~= offsets@.take(k as int));
                        if let Some(sub_ifd) = parse_ifd(data, offsets[k] as usize, byte_order) {
                            sub_ifds.push(sub_ifd);
                            assert(ifd_views(sub_ifds@) =~= prev.push(sub_ifd@));
                        }
                        assert(ifd_views(sub_ifds@) =~= mid + parsed_ifds(
                            data@,
                            byte_order,
                            offsets@.take(k + 1),
                        ));
                        k = k + 1;
                    }
                    assert(offsets@.take(offsets@.len() as int) =~= offsets@);
                }
                assert(ifd.entries@.take(j + 1).drop_last() =~= ifd.entries@.take(j as int));
                assert(ifd_views(sub_ifds@) =~= before + entries_sub_ifds(
                    data@,
                    byte_order,
                    ifd.entries@.take(j + 1),
                ));
                j = j + 1;
            }
            assert(ifd.entries@.take(ifd.entries@.len() as int) =~= ifd.entries@);
            let next = ifd.next_ifd_offset;
            let ghost old_views = ifd_views(ifds@);
            let ghost v = ifd@;
            ifds.push(ifd);
            assert(ifd_views(ifds@) =~= old_views.push(v));
            assert(ifd_views(ifds@).drop_last() =~= old_views);
            assert(old_views + spec_chain(
                data@,
                byte_order,
                current_offset as int,
                (MAX_CHAIN - safety) as nat,
            ) =~= ifd_views(ifds@) + spec_chain(
                data@,
                byte_order,
                next as int,
                (MAX_CHAIN - safety - 1) as nat,
            ));
            current_offset = next as usize;
            safety = safety + 1;
        }
        Some(TiffStructure { byte_order, ifds, sub_ifds })
    }
}

// ── Lookup ───────────────────────────────────────────────────────────

/// The first entry with `tag`.
pub open spec fn find_tag(es: Seq<IfdEntry>, tag: u16) -> Option<IfdEntry>
    decreases es.len(),
{
    if es.len() == 0 {
        None
    } else if es[0].tag == tag {
        Some(es[0])
    } else {
        find_tag(es.drop_first(), tag)
    }
}

/// The first IFD holding an entry with `tag`, with that IFD's first such
/// entry.
pub open spec fn find_in_ifds(ifds: Seq<IfdView>, tag: u16) -> Option<(IfdView, IfdEntry)>
    decreases ifds.len(),
{
    if ifds.len() == 0 {
        None
    } else {
        match find_tag(ifds[0].1, tag) {
            Some(e) => Some((ifds[0], e)),
            None => find_in_ifds(ifds.drop_first(), tag),
        }
    }
}

/// The entries with `tag`, in order.
pub open spec fn tagged_entries(es: Seq<IfdEntry>, tag: u16) -> Seq<IfdEntry>
    decreases es.len(),
{
    if es.len() == 0 {
        Seq::empty()
    } else if es.last().tag == tag {
        tagged_entries(es.drop_last(), tag).push(es.last())
    } else {
        tagged_entries(es.drop_last(), tag)
    }
}

/// Every entry with `tag` across the IFDs, paired with its IFD, in order.
pub open spec fn all_tagged(ifds: Seq<IfdView>, tag: u16) -> Seq<(IfdView, IfdEntry)>
    decreases ifds.len(),
{
    if ifds.len() == 0 {
        Seq::empty()
    } else {
        let v = ifds.last();
        all_tagged(ifds.drop_last(), tag) + tagged_entries(v.1, tag).map_values(
            |e: IfdEntry| (v, e),
        )
    }
}

pub(crate) fn find_in_entries(entries: &Vec<IfdEntry>, tag: u16) -> (r: Option<&IfdEntry>)
    ensures
        match r {
            Some(e) => find_tag(entries@, tag) == Some(*e),
            None => find_tag(entries@, tag) is None,
        },
{
    let mut i: usize = 0;
    assert(entries@.skip(0) =~= entries@);
    while i < entries.len()
        invariant
            i <= entries@.len(),
            find_tag(entries@, tag) == find_tag(entries@.skip(i as int), tag),
        decreases entries@.len() - i,
    {
        assert(entries@.skip(i as int)[0] == entries@[i as int]);
        if entries[i].tag == tag {
            return Some(&entries[i]);
        }
        assert(entries@.skip(i as int).drop_first() =~= entries@.skip(i + 1));
        i = i + 1;
    }
    None
}

fn find_in_ifd_list(ifds: &Vec<Ifd>, tag: u16) -> (r: Option<(&Ifd, &IfdEntry)>)
    ensures
        match r {
            Some((ifd, e)) => find_in_ifds(ifd_views(ifds@), tag) == Some((ifd@, *e)),
            None => find_in_ifds(ifd_views(ifds@), tag) is None,
        },
{
    let ghost views = ifd_views(ifds@);
    let mut i: usize = 0;
    assert(views.skip(0) =~= views);
    while i < ifds.len()
        invariant
            i <= ifds@.len(),
            views == ifd_views(ifds@),
            find_in_ifds(views, tag) == find_in_ifds(views.skip(i as int), tag),
        decreases ifds@.len() - i,
    {
        assert(views.skip(i as int)[0] == ifds@[i as int]@);
        if let Some(entry) = find_in_entries(&ifds[i].entries, tag) {
            return Some((&ifds[i], entry));
        }
        assert(views.skip(i as int).drop_first() =~= views.skip(i + 1));
        i = i + 1;
    }
    None
}

proof fn lemma_find_in_ifds_append(a: Seq<IfdView>, b: Seq<IfdView>, tag: u16)
    ensures
        find_in_ifds(a + b, tag) == match find_in_ifds(a, tag) {
            Some(x) => Some(x),
            None => find_in_ifds(b, tag),
        },
    decreases a.len(),
{
    if a.len() > 0 {
        assert((a + b)[0] == a[0]);
        assert((a + b).drop_first() =~= a.drop_first() + b);
        lemma_find_in_ifds_append(a.drop_first(), b, tag);
    } else {
        assert(a + b =~= b);
    }
}

/// Pairs of IFD and entry, seen through their views.
pub open spec fn pair_views(s: Seq<(&Ifd, &IfdEntry)>) -> Seq<(IfdView, IfdEntry)> {
    s.map_values(|p: (&Ifd, &IfdEntry)| (p.0@, *p.1))
}

impl TiffStructure {
    /// Find an entry by tag in IFD0.
    pub fn ifd0_entry(&self, tag: u16) -> (r: Option<&IfdEntry>)
        ensures
            self.ifds@.len() == 0 ==> r is None,
            self.ifds@.len() > 0 ==> match r {
                Some(e) => find_tag(self.ifds@[0].entries@, tag) == Some(*e),
                None => find_tag(self.ifds@[0].entries@, tag) is None,
            },
    {
        if self.ifds.len() == 0 {
            return None;
        }
        find_in_entries(&self.ifds[0].entries, tag)
    }

    /// Find an entry by tag across all IFDs (IFD0 chain + SubIFDs).
    pub fn find_entry(&self, tag: u16) -> (r: Option<(&Ifd, &IfdEntry)>)
        ensures
            match r {
                Some((ifd, e)) => find_in_ifds(self.spec_view().1 + self.spec_view().2, tag)
                    == Some((ifd@, *e)),
                None => find_in_ifds(self.spec_view().1 + self.spec_view().2, tag) is None,
            },
    {
        proof {
            lemma_find_in_ifds_append(ifd_views(self.ifds@), ifd_views(self.sub_ifds@), tag);
        }
        if let Some(found) = find_in_ifd_list(&self.ifds, tag) {
            return Some(found);
        }
        find_in_ifd_list(&self.sub_ifds, tag)
    }

    /// Get all entries with a given tag across all IFDs.
    pub fn find_all_entries(&self, tag: u16) -> (r: Vec<(&Ifd, &IfdEntry)>)
        ensures
            pair_views(r@) == all_tagged(self.spec_view().1 + self.spec_view().2, tag),
    {
        let mut results: Vec<(&Ifd, &IfdEntry)> = Vec::new();
        collect_tagged(&self.ifds, tag, &mut results);
        collect_tagged(&self.sub_ifds, tag, &mut results);
        proof {
            lemma_all_tagged_append(ifd_views(self.ifds@), ifd_views(self.sub_ifds@), tag);
            assert(Seq::<(IfdView, IfdEntry)>::empty() + all_tagged(ifd_views(self.ifds@), tag)
                =~= all_tagged(ifd_views(self.ifds@), tag));
        }
        results
    }
}

proof fn lemma_all_tagged_append(a: Seq<IfdView>, b: Seq<IfdView>, tag: u16)
    ensures
        all_tagged(a + b, tag) == all_tagged(a, tag) + all_tagged(b, tag),
    decreases b.len(),
{
    if b.len() == 0 {
        assert(a + b =~= a);
        assert(all_tagged(a, tag) + all_tagged(b, tag) =~= all_tagged(a, tag));
    } else {
        assert((a + b).drop_last() =~= a + b.drop_last());
        assert((a + b).last() == b.last());
        lemma_all_tagged_append(a, b.drop_last(), tag);
        let v = b.last();
        let t = tagged_entries(v.1, tag).map_values(|e: IfdEntry| (v, e));
        assert(all_tagged(a, tag) + all_tagged(b.drop_last(), tag) + t =~= all_tagged(a, tag)
            + (all_tagged(b.drop_last(), tag) + t));
    }
}

fn collect_tagged<'a>(ifds: &'a Vec<Ifd>, tag: u16, results: &mut Vec<(&'a Ifd, &'a IfdEntry)>)
    ensures
        pair_views(final(results)@) == pair_views(old(results)@) + all_tagged(
            ifd_views(ifds@),
            tag,
        ),
{
    let ghost all = ifd_views(ifds@);
    let ghost start = pair_views(results@);
    let mut i: usize = 0;
    assert(start + all_tagged(all.take(0), tag) =~= start);
    while i < ifds.len()
        invariant
            all == ifd_views(ifds@),
            i <= ifds@.len(),
            pair_views(results@) == start + all_tagged(all.take(i as int), tag),
        decreases ifds@.len() - i,
    {
        let ifd: &Ifd = &ifds[i];
        assert(all[i as int] == ifd@);
        let ghost base = pair_views(results@);
        let mut j: usize = 0;
        assert(base + tagged_entries(ifd.entries@.take(0), tag).map_values(
            |e: IfdEntry| (ifd@, e),
        ) =~= base);
        while j < ifd.entries.len()
            invariant
                j <= ifd.entries@.len(),
                pair_views(results@) == base + tagged_entries(
                    ifd.entries@.take(j as int),
                    tag,
                ).map_values(|e: IfdEntry| (ifd@, e)),
            decreases ifd.entries@.len() - j,
        {
            let ghost prev = results@;
            assert(ifd.entries@.take(j + 1).drop_last() =~= ifd.entries@.take(j as int));
            let entry = &ifd.entries[j];
            if entry.tag == tag {
                results.push((ifd, entry));
                assert(pair_views(results@) =~= pair_views(prev).push((ifd@, *entry)));
            }
            assert(pair_views(results@) =~= base + tagged_entries(
                ifd.entries@.take(j + 1),
                tag,
            ).map_values(|e: IfdEntry| (ifd@, e)));
            j = j + 1;
        }
        assert(ifd.entries@.take(ifd.entries@.len() as int) =~= ifd.entries@);
        assert(all.take(i + 1).drop_last() =~= all.take(i as int));
        assert(all.take(i + 1).last() == ifd@);
        i = i + 1;
    }
    assert(all.take(ifds@.len() as int) =~= all);
}

// ── Laws ─────────────────────────────────────────────────────────────

proof fn lemma_tagged_entries_front(es: Seq<IfdEntry>, tag: u16)
    requires
        es.len() > 0,
    ensures
        tagged_entries(es, tag) == (if es[0].tag == tag {
            seq![es[0]]
        } else {
            Seq::<IfdEntry>::empty()
        }) + tagged_entries(es.drop_first(), tag),
    decreases es.len(),
{
    if es.len() == 1 {
        assert(es.drop_last() =~= Seq::<IfdEntry>::empty());
        assert(es.drop_first() =~= Seq::<IfdEntry>::empty());
    } else {
        lemma_tagged_entries_front(es.drop_last(), tag);
        assert(es.drop_last().drop_first() =~= es.drop_first().drop_last());
        assert(es.drop_first().last() == es.last());
    }
}

proof fn lemma_find_tag_first(es: Seq<IfdEntry>, tag: u16)
    ensures
        find_tag(es, tag) == if tagged_entries(es, tag).len() > 0 {
            Some(tagged_entries(es, tag)[0])
        } else {
            None::<IfdEntry>
        },
    decreases es.len(),
{
    if es.len() > 0 {
        lemma_tagged_entries_front(es, tag);
        lemma_find_tag_first(es.drop_first(), tag);
    }
}

proof fn lemma_all_tagged_front(ifds: Seq<IfdView>, tag: u16)
    requires
        ifds.len() > 0,
    ensures
        all_tagged(ifds, tag) == tagged_entries(ifds[0].1, tag).map_values(
            |e: IfdEntry| (ifds[0], e),
        ) + all_tagged(ifds.drop_first(), tag),
{
    let single = seq![ifds[0]];
    assert(ifds =~= single + ifds.drop_first());
    lemma_all_tagged_append(single, ifds.drop_first(), tag);
    assert(single.drop_last() =~= Seq::<IfdView>::empty());
    assert(single.last() == ifds[0]);
    let t = tagged_entries(ifds[0].1, tag).map_values(|e: IfdEntry| (ifds[0], e));
    assert(all_tagged(single, tag) == all_tagged(single.drop_last(), tag) + t);
    assert(Seq::<(IfdView, IfdEntry)>::empty() + t =~= t);
}

/// Looking up one entry gives the first of all the entries with that tag,
/// in IFD order: `find_in_ifds` is `None` exactly when `all_tagged` is
/// empty, and otherwise its first element.
pub proof fn law_find_is_first_of_all(ifds: Seq<IfdView>, tag: u16)
    ensures
        find_in_ifds(ifds, tag) == if all_tagged(ifds, tag).len() > 0 {
            Some(all_tagged(ifds, tag)[0])
        } else {
            None::<(IfdView, IfdEntry)>
        },
    decreases ifds.len(),
{
    if ifds.len() > 0 {
        lemma_all_tagged_front(ifds, tag);
        lemma_find_tag_first(ifds[0].1, tag);
        law_find_is_first_of_all(ifds.drop_first(), tag);
    }
}

/// A single SHORT/LONG read of an entry is the first of its multi-value
/// read; both are empty together.
pub proof fn law_u32_value_is_first_long_value(d: Seq<u8>, e: IfdEntry, bo: ByteOrder)
    ensures
        spec_u32_value(d, e, bo) == if spec_long_values(d, e, bo).len() > 0 {
            Some(spec_long_values(d, e, bo)[0])
        } else {
            None::<u32>
        },
{
    lemma_entry_bytes_len(d, e, bo);
}

/// Every SHORT or LONG value that an entry counts is read once its value
/// bytes are available in the data (any slice, at most `isize::MAX` bytes
/// long); other types, and entries whose bytes are unavailable, read as
/// nothing.
pub proof fn law_long_values_read_every_element(d: Seq<u8>, e: IfdEntry, bo: ByteOrder)
    requires
        d.len() <= isize::MAX,
    ensures
        spec_entry_bytes(d, e, bo) matches Some(b) ==> (e.dtype == 3 ==> spec_long_values(d, e, bo)
            == Seq::new(e.count as nat, |i: int| read16(b, 2 * i, bo) as u32)),
        spec_entry_bytes(d, e, bo) matches Some(b) ==> (e.dtype == 4 ==> spec_long_values(d, e, bo)
            == Seq::new(e.count as nat, |i: int| read32(b, 4 * i, bo))),
        (spec_entry_bytes(d, e, bo) is None || (e.dtype != 3 && e.dtype != 4))
            ==> spec_long_values(d, e, bo).len() == 0,
{
    lemma_entry_bytes_len(d, e, bo);
    if spec_entry_bytes(d, e, bo) is Some {
        // The byte size did not saturate: a saturated size fits neither the
        // value field nor a slice.
        assert(e.spec_data_size() < usize::MAX);
        assert(type_size(e.dtype) * (e.count as nat) == e.spec_data_size());
    }
    let c = e.count as int;
    assert((2 * c) / 2 == c) by (nonlinear_arith);
    assert((4 * c) / 4 == c) by (nonlinear_arith);
    if let Some(b) = spec_entry_bytes(d, e, bo) {
        if e.dtype == 3 {
            assert(spec_long_values(d, e, bo) =~= Seq::new(e.count as nat, |i: int| read16(b, 2 * i, bo) as u32));
        } else if e.dtype == 4 {
            assert(spec_long_values(d, e, bo) =~= Seq::new(e.count as nat, |i: int| read32(b, 4 * i, bo)));
        }
    }
}

/// An IFD lies within the data where it was parsed: a positive offset, its
/// entry count read there, its entries and the next-IFD offset inside the
/// data, and parsing at its offset gives it back.
pub open spec fn ifd_in_place(d: Seq<u8>, bo: ByteOrder, v: IfdView) -> bool {
    &&& v.0 > 0
    &&& v.0 + 2 + 12 * v.1.len() + 4 <= d.len()
    &&& v.1.len() == read16(d, v.0 as int, bo)
    &&& spec_parse_ifd(d, v.0 as int, bo) == Some(v)
}

/// Every IFD of the sequence lies within the data.
pub open spec fn all_in_place(d: Seq<u8>, bo: ByteOrder, s: Seq<IfdView>) -> bool {
    forall|k: int| 0 <= k < s.len() ==> ifd_in_place(d, bo, #[trigger] s[k])
}

proof fn lemma_parse_ifd_in_place(d: Seq<u8>, off: int, bo: ByteOrder)
    ensures
        spec_parse_ifd(d, off, bo) matches Some(v) ==> v.0 == off && ifd_in_place(d, bo, v),
{
}

proof fn lemma_in_place_append(d: Seq<u8>, bo: ByteOrder, a: Seq<IfdView>, b: Seq<IfdView>)
    requires
        all_in_place(d, bo, a),
        all_in_place(d, bo, b),
    ensures
        all_in_place(d, bo, a + b),
{
    assert forall|k: int| 0 <= k < (a + b).len() implies ifd_in_place(d, bo, #[trigger] (a + b)[k]) by {
        if k >= a.len() {
            assert((a + b)[k] == b[k - a.len()]);
        }
    }
}

proof fn lemma_parsed_ifds_in_place(d: Seq<u8>, bo: ByteOrder, offs: Seq<u32>)
    ensures
        all_in_place(d, bo, parsed_ifds(d, bo, offs)),
    decreases offs.len(),
{
    if offs.len() > 0 {
        lemma_parsed_ifds_in_place(d, bo, offs.drop_last());
        lemma_parse_ifd_in_place(d, offs.last() as int, bo);
        let rest = parsed_ifds(d, bo, offs.drop_last());
        if let Some(v) = spec_parse_ifd(d, offs.last() as int, bo) {
            assert forall|k: int| 0 <= k < rest.push(v).len() implies ifd_in_place(d, bo, #[trigger] rest.push(v)[k]) by {
                if k < rest.len() {
                    assert(rest.push(v)[k] == rest[k]);
                }
            }
        }
    }
}

proof fn lemma_entries_sub_ifds_in_place(d: Seq<u8>, bo: ByteOrder, es: Seq<IfdEntry>)
    ensures
        all_in_place(d, bo, entries_sub_ifds(d, bo, es)),
    decreases es.len(),
{
    if es.len() > 0 {
        lemma_entries_sub_ifds_in_place(d, bo, es.drop_last());
        if is_sub_ifd_tag(es.last().tag) {
            lemma_parsed_ifds_in_place(d, bo, spec_long_values(d, es.last(), bo));
            lemma_in_place_append(
                d,
                bo,
                entries_sub_ifds(d, bo, es.drop_last()),
                parsed_ifds(d, bo, spec_long_values(d, es.last(), bo)),
            );
        }
    }
}

proof fn lemma_chain_sub_ifds_in_place(d: Seq<u8>, bo: ByteOrder, ifds: Seq<IfdView>)
    ensures
        all_in_place(d, bo, chain_sub_ifds(d, bo, ifds)),
    decreases ifds.len(),
{
    if ifds.len() > 0 {
        lemma_chain_sub_ifds_in_place(d, bo, ifds.drop_last());
        lemma_entries_sub_ifds_in_place(d, bo, ifds.last().1);
        lemma_in_place_append(
            d,
            bo,
            chain_sub_ifds(d, bo, ifds.drop_last()),
            entries_sub_ifds(d, bo, ifds.last().1),
        );
    }
}

proof fn lemma_chain_shape(d: Seq<u8>, bo: ByteOrder, off: int, fuel: nat)
    ensures
        ({
            let c = spec_chain(d, bo, off, fuel);
            &&& c.len() <= fuel
            &&& all_in_place(d, bo, c)
            &&& c.len() > 0 ==> c[0].0 == off
            &&& forall|k: int| 0 <= k < c.len() - 1 ==> #[trigger] c[k + 1].0 == c[k].2
        }),
    decreases fuel,
{
    if fuel > 0 && off != 0 {
        lemma_parse_ifd_in_place(d, off, bo);
        if let Some(v) = spec_parse_ifd(d, off, bo) {
            let rest = spec_chain(d, bo, v.2 as int, (fuel - 1) as nat);
            lemma_chain_shape(d, bo, v.2 as int, (fuel - 1) as nat);
            let c = seq![v] + rest;
            assert(c == spec_chain(d, bo, off, fuel));
            assert forall|k: int| 0 <= k < c.len() implies ifd_in_place(d, bo, #[trigger] c[k]) by {
                if k > 0 {
                    assert(c[k] == rest[k - 1]);
                }
            }
            assert forall|k: int| 0 <= k < c.len() - 1 implies #[trigger] c[k + 1].0 == c[k].2 by {
                assert(c[k + 1] == rest[k]);
                if k > 0 {
                    assert(c[k] == rest[k - 1]);
                    assert(rest[(k - 1) + 1].0 == rest[k - 1].2);
                }
            }
        }
    }
}

/// What [`TiffStructure::parse`] returns lies within the data: every IFD of
/// the chain and every SubIFD has a positive offset, its entry count read at
/// that offset, and its entries and next-IFD offset inside the data. The
/// chain holds at most [`MAX_CHAIN`] IFDs, starts at the header's IFD0
/// offset and follows the next-IFD offsets.
pub proof fn law_parsed_ifds_lie_within_the_data(d: Seq<u8>)
    requires
        spec_parse(d) is Some,
    ensures
        ({
            let (bo, chain, subs) = spec_parse(d)->0;
            &&& chain.len() <= MAX_CHAIN
            &&& chain.len() > 0 ==> chain[0].0 == read32(d, 4, bo)
            &&& forall|k: int| 0 <= k < chain.len() - 1 ==> #[trigger] chain[k + 1].0 == chain[k].2
            &&& all_in_place(d, bo, chain)
            &&& all_in_place(d, bo, subs)
        }),
{
    let (bo, chain, subs) = spec_parse(d)->0;
    lemma_chain_shape(d, bo, read32(d, 4, bo) as int, MAX_CHAIN as nat);
    lemma_chain_sub_ifds_in_place(d, bo, chain);
}

proof fn lemma_entries_sub_ifds_has(d: Seq<u8>, bo: ByteOrder, es: Seq<IfdEntry>, j: int, v: IfdView)
    requires
        0 <= j < es.len(),
        es[j].tag == 0x8769 || es[j].tag == 0x014A,
        parsed_ifds(d, bo, spec_long_values(d, es[j], bo)).contains(v),
    ensures
        entries_sub_ifds(d, bo, es).contains(v),
    decreases es.len(),
{
    let rest = entries_sub_ifds(d, bo, es.drop_last());
    if j == es.len() - 1 {
        let p = parsed_ifds(d, bo, spec_long_values(d, es[j], bo));
        let q = choose|q: int| 0 <= q < p.len() && p[q] == v;
        assert((rest + p)[rest.len() + q] == v);
    } else {
        assert(es.drop_last()[j] == es[j]);
        lemma_entries_sub_ifds_has(d, bo, es.drop_last(), j, v);
        let q = choose|q: int| 0 <= q < rest.len() && rest[q] == v;
        if is_sub_ifd_tag(es.last().tag) {
            let p = parsed_ifds(d, bo, spec_long_values(d, es.last(), bo));
            assert((rest + p)[q] == v);
        }
    }
}

proof fn lemma_chain_sub_ifds_has(d: Seq<u8>, bo: ByteOrder, ifds: Seq<IfdView>, k: int, v: IfdView)
    requires
        0 <= k < ifds.len(),
        entries_sub_ifds(d, bo, ifds[k].1).contains(v),
    ensures
        chain_sub_ifds(d, bo, ifds).contains(v),
    decreases ifds.len(),
{
    let rest = chain_sub_ifds(d, bo, ifds.drop_last());
    let p = entries_sub_ifds(d, bo, ifds.last().1);
    if k == ifds.len() - 1 {
        let q = choose|q: int| 0 <= q < p.len() && p[q] == v;
        assert((rest + p)[rest.len() + q] == v);
    } else {
        assert(ifds.drop_last()[k] == ifds[k]);
        lemma_chain_sub_ifds_has(d, bo, ifds.drop_last(), k, v);
        let q = choose|q: int| 0 <= q < rest.len() && rest[q] == v;
        assert((rest + p)[q] == v);
    }
}

/// The IFDs that the chain points at are walked: when an IFD of the chain
/// holds an EXIF IFD pointer (tag 0x8769) or a SubIFDs pointer (tag
/// 0x014A) as a single LONG whose value is the offset of an IFD that
/// parses, that IFD is among the parsed SubIFDs, so every tag stored only
/// there (such as the MakerNote of the EXIF IFD) can be found.
pub proof fn law_pointed_ifds_are_walked(d: Seq<u8>, k: int, j: int)
    requires
        spec_parse(d) is Some,
        0 <= k < (spec_parse(d)->0).1.len(),
        0 <= j < (spec_parse(d)->0).1[k].1.len(),
        ({
            let bo = (spec_parse(d)->0).0;
            let e = (spec_parse(d)->0).1[k].1[j];
            &&& e.tag == 0x8769 || e.tag == 0x014A
            &&& e.dtype == 4
            &&& e.count == 1
            &&& spec_parse_ifd(d, read32(e.value_offset@, 0, bo) as int, bo) is Some
        }),
    ensures
        ({
            let bo = (spec_parse(d)->0).0;
            let e = (spec_parse(d)->0).1[k].1[j];
            (spec_parse(d)->0).2.contains(spec_parse_ifd(d, read32(e.value_offset@, 0, bo) as int, bo)->0)
        }),
{
    let (bo, chain, subs) = spec_parse(d)->0;
    let e = chain[k].1[j];
    let off = read32(e.value_offset@, 0, bo);
    let v = spec_parse_ifd(d, off as int, bo)->0;
    let b = e.value_offset@.subrange(0, 4);
    assert(b =~= e.value_offset@);
    assert(spec_entry_bytes(d, e, bo) == Some(b));
    let vals = spec_long_values(d, e, bo);
    assert(vals =~= seq![off]);
    assert(vals.drop_last() =~= Seq::<u32>::empty());
    let p = parsed_ifds(d, bo, vals);
    assert(vals.last() == off);
    assert(parsed_ifds(d, bo, vals.drop_last()) =~= Seq::<IfdView>::empty());
    assert(p =~= Seq::<IfdView>::empty().push(v));
    assert(p[0] == v);
    lemma_entries_sub_ifds_has(d, bo, chain[k].1, j, v);
    lemma_chain_sub_ifds_has(d, bo, chain, k, v);
}

} // verus!
