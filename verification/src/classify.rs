//! File format classification for RAW, DNG, and Apple container formats.
//!
//! Detects the specific container format from file header bytes,
//! distinguishing between standard DNG, Apple APPLEDNG (iPhone 15/16
//! ProRAW), Apple AMPF (iPhone 17 Pro processed JPEG + gain map), and other
//! RAW formats.
use vstd::prelude::*;

use crate::bytes::{be16, be32, le16, le32, matches_at};

verus! {

/// Detected file format.
#[derive(Clone, Copy, Debug, PartialEq, Eq, Hash, Structural)]
#[non_exhaustive]
pub enum FileFormat {
    /// Apple APPLEDNG container (iPhone 15/16 Pro ProRAW): big-endian
    /// TIFF/DNG with "APPLEDNG" signature at bytes 8-15.
    AppleDng,
    /// Apple AMPF container (iPhone 17 Pro "ProRAW"): JPEG wrapper with an
    /// AMPF marker. **NOT raw data** despite the `.DNG` extension.
    AppleAmpf,
    /// Standard Adobe DNG (has the DNGVersion tag).
    Dng,
    /// TIFF-based RAW format (CR2, NEF, ARW, PEF, ORF, etc.) without a DNG
    /// version tag in the quick probe.
    TiffRaw,
    /// Canon CR3 (ISO BMFF container).
    Cr3,
    /// Fujifilm RAF.
    Raf,
    /// Panasonic/Leica RW2.
    Rw2,
    /// Olympus ORF (TIFF variant).
    Orf,
    /// Plain JPEG (not AMPF).
    Jpeg,
    /// Unknown or unsupported format.
    Unknown,
}

impl Default for FileFormat {
    fn default() -> (r: Self)
        ensures
            r == FileFormat::Unknown,
    {
        FileFormat::Unknown
    }
}

impl FileFormat {
    /// The formats that hold decodable raw sensor data.
    pub open spec fn spec_is_raw(self) -> bool {
        match self {
            FileFormat::AppleDng | FileFormat::Dng | FileFormat::TiffRaw | FileFormat::Cr3
            | FileFormat::Raf | FileFormat::Rw2 | FileFormat::Orf => true,
            _ => false,
        }
    }

    /// The Apple-specific formats.
    pub open spec fn spec_is_apple(self) -> bool {
        self == FileFormat::AppleDng || self == FileFormat::AppleAmpf
    }

    /// Whether this format contains decodable raw sensor data.
    pub fn is_raw(self) -> (r: bool)
        ensures
            r == self.spec_is_raw(),
    {
        match self {
            FileFormat::AppleDng | FileFormat::Dng | FileFormat::TiffRaw | FileFormat::Cr3
            | FileFormat::Raf | FileFormat::Rw2 | FileFormat::Orf => true,
            _ => false,
        }
    }

    /// Whether this is an Apple-specific format.
    pub fn is_apple(self) -> (r: bool)
        ensures
            r == self.spec_is_apple(),
    {
        match self {
            FileFormat::AppleDng | FileFormat::AppleAmpf => true,
            _ => false,
        }
    }

    /// Whether this format may contain an HDR gain map.
    pub fn has_gain_map(self) -> (r: bool)
        ensures
            r == self.spec_is_apple(),
    {
        match self {
            FileFormat::AppleDng | FileFormat::AppleAmpf => true,
            _ => false,
        }
    }

    /// The human-readable name of the format.
    pub open spec fn spec_name(self) -> Seq<char> {
        match self {
            FileFormat::AppleDng => "Apple DNG (ProRAW)"@,
            FileFormat::AppleAmpf => "Apple AMPF (processed JPEG + gain map)"@,
            FileFormat::Dng => "DNG"@,
            FileFormat::TiffRaw => "TIFF-based RAW"@,
            FileFormat::Cr3 => "Canon CR3"@,
            FileFormat::Raf => "Fujifilm RAF"@,
            FileFormat::Rw2 => "Panasonic RW2"@,
            FileFormat::Orf => "Olympus ORF"@,
            FileFormat::Jpeg => "JPEG"@,
            FileFormat::Unknown => "Unknown"@,
        }
    }

    /// The human-readable name of the format, as shown to users.
    pub fn to_string(&self) -> (r: String)
        ensures
            r@ == self.spec_name(),
    {
        let s: &str = match self {
            FileFormat::AppleDng => "Apple DNG (ProRAW)",
            FileFormat::AppleAmpf => "Apple AMPF (processed JPEG + gain map)",
            FileFormat::Dng => "DNG",
            FileFormat::TiffRaw => "TIFF-based RAW",
            FileFormat::Cr3 => "Canon CR3",
            FileFormat::Raf => "Fujifilm RAF",
            FileFormat::Rw2 => "Panasonic RW2",
            FileFormat::Orf => "Olympus ORF",
            FileFormat::Jpeg => "JPEG",
            FileFormat::Unknown => "Unknown",
        };
        String::from_str(s)
    }
}

// ── Signatures ───────────────────────────────────────────────────────

/// "AMPF"
pub open spec fn ampf_sig() -> Seq<u8> {
    seq![0x41u8, 0x4D, 0x50, 0x46]
}

/// "APPLEDNG"
pub open spec fn appledng_sig() -> Seq<u8> {
    seq![0x41u8, 0x50, 0x50, 0x4C, 0x45, 0x44, 0x4E, 0x47]
}

/// "FUJIFILM"
pub open spec fn fujifilm_sig() -> Seq<u8> {
    seq![0x46u8, 0x55, 0x4A, 0x49, 0x46, 0x49, 0x4C, 0x4D]
}

/// "ftyp"
pub open spec fn ftyp_sig() -> Seq<u8> {
    seq![0x66u8, 0x74, 0x79, 0x70]
}

/// "crx "
pub open spec fn crx_sig() -> Seq<u8> {
    seq![0x63u8, 0x72, 0x78, 0x20]
}

/// Little-endian TIFF header: `II` 42 0.
pub open spec fn is_tiff_le(d: Seq<u8>) -> bool {
    d.len() >= 4 && d[0] == 0x49 && d[1] == 0x49 && d[2] == 42 && d[3] == 0
}

/// Big-endian TIFF header: `MM` 0 42.
pub open spec fn is_tiff_be(d: Seq<u8>) -> bool {
    d.len() >= 4 && d[0] == 0x4D && d[1] == 0x4D && d[2] == 0 && d[3] == 42
}

/// JPEG start-of-image marker.
pub open spec fn is_jpeg_soi(d: Seq<u8>) -> bool {
    d.len() >= 2 && d[0] == 0xFF && d[1] == 0xD8
}

/// "AMPF" occurs within the first 64 bytes.
pub open spec fn has_ampf_marker(d: Seq<u8>) -> bool {
    let n = if d.len() < 64 {
        d.len() as int
    } else {
        64
    };
    exists|p: int| 0 <= p && p + 4 <= n && #[trigger] matches_at(d, p, ampf_sig())
}

/// 16-bit read in the file's byte order.
pub open spec fn rd16(d: Seq<u8>, off: int, big_endian: bool) -> u16 {
    if big_endian {
        be16(d, off)
    } else {
        le16(d, off)
    }
}

/// 32-bit read in the file's byte order.
pub open spec fn rd32(d: Seq<u8>, off: int, big_endian: bool) -> u32 {
    if big_endian {
        be32(d, off)
    } else {
        le32(d, off)
    }
}

/// Scan of IFD0's tags from entry `i` on for DNGVersion (0xC612). Tags are
/// sorted, so the scan stops at the first larger tag, and also at an entry
/// that does not fit in the file.
pub open spec fn dng_tag_scan(d: Seq<u8>, be: bool, start: int, i: int, count: int) -> bool
    decreases count - i,
{
    if i >= count {
        false
    } else {
        let eo = start + i * 12;
        if eo + 2 > d.len() {
            false
        } else {
            let tag = rd16(d, eo, be);
            if tag == 0xC612 {
                true
            } else if tag > 0xC612 {
                false
            } else {
                dng_tag_scan(d, be, start, i + 1, count)
            }
        }
    }
}

/// IFD0 of the TIFF file holds the DNGVersion tag (0xC612).
pub open spec fn spec_has_dng_version_tag(d: Seq<u8>, be: bool) -> bool {
    if d.len() < 8 {
        false
    } else {
        let ifd = rd32(d, 4, be) as int;
        if ifd + 2 > d.len() {
            false
        } else {
            dng_tag_scan(d, be, ifd + 2, 0, rd16(d, ifd, be) as int)
        }
    }
}

/// The format that a file's leading bytes identify.
pub open spec fn spec_classify(d: Seq<u8>) -> FileFormat {
    if d.len() < 4 {
        FileFormat::Unknown
    } else if is_jpeg_soi(d) {
        if has_ampf_marker(d) {
            FileFormat::AppleAmpf
        } else {
            FileFormat::Jpeg
        }
    } else if is_tiff_be(d) || is_tiff_le(d) {
        if d.len() >= 16 && matches_at(d, 8, appledng_sig()) {
            FileFormat::AppleDng
        } else if spec_has_dng_version_tag(d, is_tiff_be(d)) {
            FileFormat::Dng
        } else {
            FileFormat::TiffRaw
        }
    } else if d[0] == 0x49 && d[1] == 0x49 && d[2] == 0x52 && (d[3] == 0x4F || d[3] == 0x53) {
        FileFormat::Orf
    } else if d.len() >= 8 && matches_at(d, 0, fujifilm_sig()) {
        FileFormat::Raf
    } else if d[0] == 0x49 && d[1] == 0x49 && d[2] == 0x55 && d[3] == 0x00 {
        FileFormat::Rw2
    } else if d.len() >= 12 && matches_at(d, 4, ftyp_sig()) && matches_at(d, 8, crx_sig()) {
        FileFormat::Cr3
    } else {
        FileFormat::Unknown
    }
}

fn has_ampf(data: &[u8]) -> (r: bool)
    requires
        data@.len() >= 4,
    ensures
        r == has_ampf_marker(data@),
{
    let search_len: usize = if data.len() < 64 {
        data.len()
    } else {
        64
    };
    let sig: [u8; 4] = [0x41, 0x4D, 0x50, 0x46];
    assert(sig@ =~= ampf_sig());
    let mut p: usize = 0;
    while p + 4 <= search_len
        invariant
            search_len == if data@.len() < 64 {
                data@.len() as int
            } else {
                64
            },
            search_len <= data@.len(),
            p <= search_len,
            sig@ == ampf_sig(),
            forall|q: int| 0 <= q < p ==> !#[trigger] matches_at(data@, q, ampf_sig()),
        decreases search_len - p,
    {
        if crate::bytes::bytes_match_at(data, p, sig.as_slice()) {
            return true;
        }
        p = p + 1;
    }
    false
}

/// Classify a file's format from its header bytes.
///
/// Only needs the first ~64 bytes for most formats; DNG detection reads
/// IFD0's entries wherever the header points.
pub fn classify(data: &[u8]) -> (r: FileFormat)
    ensures
        r == spec_classify(data@),
{
    if data.len() < 4 {
        return FileFormat::Unknown;
    }
    // JPEG-based formats (AMPF starts with a JPEG SOI)
    if data[0] == 0xFF && data[1] == 0xD8 {
        if has_ampf(data) {
            return FileFormat::AppleAmpf;
        }
        return FileFormat::Jpeg;
    }
    // TIFF-based formats
    let is_tiff_le = data[0] == 0x49 && data[1] == 0x49 && data[2] == 42 && data[3] == 0;
    let is_tiff_be = data[0] == 0x4D && data[1] == 0x4D && data[2] == 0 && data[3] == 42;
    if is_tiff_be || is_tiff_le {
        let appledng: [u8; 8] = [0x41, 0x50, 0x50, 0x4C, 0x45, 0x44, 0x4E, 0x47];
        assert(appledng@ =~= appledng_sig());
        if data.len() >= 16 && crate::bytes::bytes_match_at(data, 8, appledng.as_slice()) {
            return FileFormat::AppleDng;
        }
        if has_dng_version_tag(data, is_tiff_be) {
            return FileFormat::Dng;
        }
        return FileFormat::TiffRaw;
    }
    // Olympus ORF: "IIRO" or "IIRS"
    if data[0] == 0x49 && data[1] == 0x49 && data[2] == 0x52 && (data[3] == 0x4F || data[3]
        == 0x53) {
        return FileFormat::Orf;
    }
    // Fuji RAF
    let fuji: [u8; 8] = [0x46, 0x55, 0x4A, 0x49, 0x46, 0x49, 0x4C, 0x4D];
    assert(fuji@ =~= fujifilm_sig());
    if data.len() >= 8 && crate::bytes::bytes_match_at(data, 0, fuji.as_slice()) {
        return FileFormat::Raf;
    }
    // Panasonic RW2
    if data[0] == 0x49 && data[1] == 0x49 && data[2] == 0x55 && data[3] == 0x00 {
        return FileFormat::Rw2;
    }
    // Canon CR3 (ISO BMFF with "crx " major brand)
    let ftyp: [u8; 4] = [0x66, 0x74, 0x79, 0x70];
    let crx: [u8; 4] = [0x63, 0x72, 0x78, 0x20];
    assert(ftyp@ =~= ftyp_sig());
    assert(crx@ =~= crx_sig());
    if data.len() >= 12 && crate::bytes::bytes_match_at(data, 4, ftyp.as_slice())
        && crate::bytes::bytes_match_at(data, 8, crx.as_slice()) {
        return FileFormat::Cr3;
    }
    FileFormat::Unknown
}

/// Check if a TIFF file contains the DNGVersion tag (0xC612) in IFD0.
fn has_dng_version_tag(data: &[u8], big_endian: bool) -> (r: bool)
    ensures
        r == spec_has_dng_version_tag(data@, big_endian),
{
    if data.len() < 8 {
        return false;
    }
    let ifd_offset = if big_endian {
        read_u32_be(data, 4)
    } else {
        read_u32_le(data, 4)
    } as usize;
    // Attacker-controlled offset: compare without overflow.
    if ifd_offset > data.len() || 2 > data.len() - ifd_offset {
        return false;
    }
    let entry_count = if big_endian {
        read_u16_be(data, ifd_offset)
    } else {
        read_u16_le(data, ifd_offset)
    } as usize;
    let entries_start = ifd_offset + 2;
    let mut i: usize = 0;
    while i < entry_count
        invariant
            entries_start <= data@.len(),
            entries_start == ifd_offset + 2,
            entry_count == rd16(data@, ifd_offset as int, big_endian),
            i <= entry_count,
            entry_count <= 65535,
            spec_has_dng_version_tag(data@, big_endian) == dng_tag_scan(
                data@,
                big_endian,
                entries_start as int,
                i as int,
                entry_count as int,
            ),
        decreases entry_count - i,
    {
        if i * 12 > data.len() - entries_start || 2 > data.len() - entries_start - i * 12 {
            return false;
        }
        let entry_offset = entries_start + i * 12;
        let tag = if big_endian {
            read_u16_be(data, entry_offset)
        } else {
            read_u16_le(data, entry_offset)
        };
        if tag == 0xC612 {
            return true;
        }
        // Tags are sorted in TIFF, so once past 0xC612 it cannot follow.
        if tag > 0xC612 {
            return false;
        }
        i = i + 1;
    }
    false
}

fn read_u16_be(data: &[u8], offset: usize) -> (r: u16)
    requires
        offset + 2 <= data@.len(),
    ensures
        r == be16(data@, offset as int),
{
    let b0 = data[offset] as u16;
    b0 * 256 + data[offset + 1] as u16
}

fn read_u16_le(data: &[u8], offset: usize) -> (r: u16)
    requires
        offset + 2 <= data@.len(),
    ensures
        r == le16(data@, offset as int),
{
    let b0 = data[offset] as u16;
    data[offset + 1] as u16 * 256 + b0
}

fn read_u32_be(data: &[u8], offset: usize) -> (r: u32)
    requires
        offset + 4 <= data@.len(),
    ensures
        r == be32(data@, offset as int),
{
    let b0 = data[offset] as u32;
    b0 * 16777216 + data[offset + 1] as u32 * 65536 + data[offset + 2] as u32 * 256
        + data[offset + 3] as u32
}

fn read_u32_le(data: &[u8], offset: usize) -> (r: u32)
    requires
        offset + 4 <= data@.len(),
    ensures
        r == le32(data@, offset as int),
{
    let b0 = data[offset] as u32;
    data[offset + 3] as u32 * 16777216 + data[offset + 2] as u32 * 65536 + data[offset + 1] as u32
        * 256 + b0
}

// ── Laws ─────────────────────────────────────────────────────────────

/// Offset of IFD0: bytes 4..8 in the given byte order.
pub open spec fn ifd0_offset(d: Seq<u8>, big: bool) -> int {
    (if big {
        be32(d, 4)
    } else {
        le32(d, 4)
    }) as int
}

/// Entry count of IFD0, in the given byte order.
pub open spec fn ifd0_count(d: Seq<u8>, big: bool) -> int {
    let ifd = ifd0_offset(d, big);
    (if big {
        be16(d, ifd)
    } else {
        le16(d, ifd)
    }) as int
}

/// Tag of IFD0's entry `i` (12-byte entries after the count), in the given
/// byte order.
pub open spec fn ifd0_tag(d: Seq<u8>, big: bool, i: int) -> u16 {
    let e = ifd0_offset(d, big) + 2 + 12 * i;
    if big {
        be16(d, e)
    } else {
        le16(d, e)
    }
}

proof fn lemma_scan_reaches(d: Seq<u8>, big: bool, i: int, j: int)
    requires
        0 <= i <= j < ifd0_count(d, big),
        ifd0_offset(d, big) + 2 + 12 * j + 2 <= d.len(),
        ifd0_tag(d, big, j) == 0xC612,
        forall|q: int| 0 <= q < j ==> #[trigger] ifd0_tag(d, big, q) < 0xC612,
    ensures
        dng_tag_scan(d, big, ifd0_offset(d, big) + 2, i, ifd0_count(d, big)),
    decreases j - i,
{
    let start = ifd0_offset(d, big) + 2;
    assert(rd16(d, start + i * 12, big) == ifd0_tag(d, big, i));
    if i < j {
        assert(ifd0_tag(d, big, i) < 0xC612);
        lemma_scan_reaches(d, big, i + 1, j);
    }
}

/// A TIFF file's DNGVersion tag is looked for in the byte order its header
/// declares: a TIFF that is not APPLEDNG, whose IFD0 (at the offset in bytes
/// 4..8) lists DNGVersion (0xC612) as entry `j` after entries with smaller
/// tags (TIFF sorts tags), all read in that byte order, is a DNG.
pub proof fn law_dng_version_is_read_in_header_order(d: Seq<u8>, big: bool, j: int)
    requires
        d.len() >= 8,
        big ==> (d[0] == 0x4D && d[1] == 0x4D && d[2] == 0 && d[3] == 42),
        !big ==> (d[0] == 0x49 && d[1] == 0x49 && d[2] == 42 && d[3] == 0),
        !(d.len() >= 16 && matches_at(d, 8, appledng_sig())),
        0 <= j < ifd0_count(d, big),
        ifd0_offset(d, big) + 2 + 12 * j + 2 <= d.len(),
        ifd0_tag(d, big, j) == 0xC612,
        forall|q: int| 0 <= q < j ==> #[trigger] ifd0_tag(d, big, q) < 0xC612,
    ensures
        spec_classify(d) == FileFormat::Dng,
{
    lemma_scan_reaches(d, big, 0, j);
    assert(is_tiff_be(d) == big);
}

proof fn lemma_scan_misses(d: Seq<u8>, big: bool, i: int)
    requires
        0 <= i,
        forall|q: int| 0 <= q < ifd0_count(d, big) ==> #[trigger] ifd0_tag(d, big, q) != 0xC612,
    ensures
        !dng_tag_scan(d, big, ifd0_offset(d, big) + 2, i, ifd0_count(d, big)),
    decreases ifd0_count(d, big) - i,
{
    let start = ifd0_offset(d, big) + 2;
    if i < ifd0_count(d, big) {
        assert(rd16(d, start + i * 12, big) == ifd0_tag(d, big, i));
        lemma_scan_misses(d, big, i + 1);
    }
}

/// A TIFF that is not APPLEDNG and whose IFD0, read in the byte order its
/// header declares, holds no DNGVersion tag (0xC612) is a TIFF-based RAW,
/// not a DNG.
pub proof fn law_no_dng_version_is_tiff_raw(d: Seq<u8>, big: bool)
    requires
        d.len() >= 8,
        big ==> (d[0] == 0x4D && d[1] == 0x4D && d[2] == 0 && d[3] == 42),
        !big ==> (d[0] == 0x49 && d[1] == 0x49 && d[2] == 42 && d[3] == 0),
        !(d.len() >= 16 && matches_at(d, 8, appledng_sig())),
        forall|q: int| 0 <= q < ifd0_count(d, big) ==> #[trigger] ifd0_tag(d, big, q) != 0xC612,
    ensures
        spec_classify(d) == FileFormat::TiffRaw,
{
    lemma_scan_misses(d, big, 0);
    assert(is_tiff_be(d) == big);
}

} // verus!
