//! darktable-cli backend: configuration, the decisions around running the
//! CLI, and parsing of the PFM (Portable Float Map) it writes.
//!
//! Running darktable-cli (a subprocess, temp files, a timeout clock) is left
//! to the caller; this module holds what that involves deciding: the
//! command's options, when a wait times out, which extension an input gets,
//! and how the PFM output is laid out.
use vstd::prelude::*;

use crate::bytes::matches_at;
use crate::classify::{fujifilm_sig, is_tiff_be, is_tiff_le};
use crate::decode::dng_tag_bytes;
use crate::error::{RawError, RawLimitKind};
use crate::text::{opt_int, opt_text, parse_integer};
use crate::tiff_ifd::{read32, ByteOrder};
use vstd::utf8::{decode_utf8, encode_utf8, is_ascii_chars, valid_utf8};

verus! {

/// darktable output ICC profile type.
#[derive(Clone, Copy, Debug)]
#[non_exhaustive]
pub enum DtColorProfile {
    /// Linear Rec.709 / sRGB primaries, linear transfer.
    LinearRec709,
    /// Linear Rec.2020 wide gamut, linear transfer.
    LinearRec2020,
    /// sRGB with standard transfer function.
    Srgb,
}

impl Default for DtColorProfile {
    fn default() -> (r: Self)
        ensures
            r == DtColorProfile::LinearRec709,
    {
        DtColorProfile::LinearRec709
    }
}

impl DtColorProfile {
    /// The `--icc-type` argument for each profile.
    pub open spec fn spec_icc_type_arg(self) -> Seq<char> {
        match self {
            DtColorProfile::LinearRec709 => "LIN_REC709"@,
            DtColorProfile::LinearRec2020 => "LIN_REC2020"@,
            DtColorProfile::Srgb => "SRGB"@,
        }
    }

    /// The `--icc-type` argument for this profile.
    pub fn icc_type_arg(&self) -> (r: &'static str)
        ensures
            r@ == self.spec_icc_type_arg(),
    {
        match self {
            DtColorProfile::LinearRec709 => "LIN_REC709",
            DtColorProfile::LinearRec2020 => "LIN_REC2020",
            DtColorProfile::Srgb => "SRGB",
        }
    }
}

/// Configuration for darktable-cli backend.
#[derive(Clone, Debug)]
#[non_exhaustive]
pub struct DtConfig {
    /// Path to darktable-cli binary. Default: search `$PATH`.
    pub cli_path: Option<String>,
    /// Output color profile. Default: linear Rec.709.
    pub color_profile: DtColorProfile,
    /// Optional XMP sidecar content to apply.
    pub xmp: Option<String>,
    /// Maximum pixel count before rejecting.
    pub max_pixels: u64,
    /// Subprocess timeout in seconds. Default: 120.
    pub timeout_secs: u64,
}

impl DtConfig {
    /// The default settings: no CLI path or XMP, linear Rec.709, 200 million
    /// pixels, 120 seconds.
    pub open spec fn is_default(self) -> bool {
        &&& self.cli_path is None
        &&& self.color_profile == DtColorProfile::LinearRec709
        &&& self.xmp is None
        &&& self.max_pixels == 200_000_000
        &&& self.timeout_secs == 120
    }

    /// Create with default settings.
    pub fn new() -> (r: Self)
        ensures
            r.is_default(),
    {
        Self::default()
    }

    /// Set the darktable-cli binary path.
    pub fn with_cli_path(self, path: &str) -> (r: Self)
        ensures
            opt_text(r.cli_path) == Some(path@),
            r.color_profile == self.color_profile,
            r.xmp == self.xmp,
            r.max_pixels == self.max_pixels,
            r.timeout_secs == self.timeout_secs,
    {
        let mut c = self;
        c.cli_path = Some(String::from_str(path));
        c
    }

    /// Set the output color profile.
    pub fn with_color_profile(self, profile: DtColorProfile) -> (r: Self)
        ensures
            r.color_profile == profile,
            r.cli_path == self.cli_path,
            r.xmp == self.xmp,
            r.max_pixels == self.max_pixels,
            r.timeout_secs == self.timeout_secs,
    {
        let mut c = self;
        c.color_profile = profile;
        c
    }

    /// Set XMP sidecar content to apply during processing.
    pub fn with_xmp(self, xmp: &str) -> (r: Self)
        ensures
            opt_text(r.xmp) == Some(xmp@),
            r.cli_path == self.cli_path,
            r.color_profile == self.color_profile,
            r.max_pixels == self.max_pixels,
            r.timeout_secs == self.timeout_secs,
    {
        let mut c = self;
        c.xmp = Some(String::from_str(xmp));
        c
    }

    /// Set maximum allowed pixel count.
    pub fn with_max_pixels(self, max: u64) -> (r: Self)
        ensures
            r.max_pixels == max,
            r.cli_path == self.cli_path,
            r.color_profile == self.color_profile,
            r.xmp == self.xmp,
            r.timeout_secs == self.timeout_secs,
    {
        let mut c = self;
        c.max_pixels = max;
        c
    }

    /// Set subprocess timeout in seconds (default: 120).
    pub fn with_timeout_secs(self, secs: u64) -> (r: Self)
        ensures
            r.timeout_secs == secs,
            r.cli_path == self.cli_path,
            r.color_profile == self.color_profile,
            r.xmp == self.xmp,
            r.max_pixels == self.max_pixels,
    {
        let mut c = self;
        c.timeout_secs = secs;
        c
    }
}

impl Default for DtConfig {
    fn default() -> (r: Self)
        ensures
            r.is_default(),
    {
        DtConfig {
            cli_path: None,
            color_profile: DtColorProfile::LinearRec709,
            xmp: None,
            max_pixels: 200_000_000,
            timeout_secs: 120,
        }
    }
}

// ── Input extension ──────────────────────────────────────────────────

/// The extension given to RAW bytes written out for darktable-cli: `raf`
/// for Fujifilm, `rw2` for Panasonic, `dng` for a TIFF with the DNGVersion
/// tag id in its first 4 KiB, `tiff` for other TIFFs, else `raw` (also for
/// inputs under 12 bytes).
pub open spec fn spec_detect_extension(d: Seq<u8>) -> Seq<char> {
    if d.len() < 12 {
        "raw"@
    } else if matches_at(d, 0, fujifilm_sig()) {
        "raf"@
    } else if d[0] == 0x49 && d[1] == 0x49 && d[2] == 0x55 && d[3] == 0x00 {
        "rw2"@
    } else if is_tiff_le(d) || is_tiff_be(d) {
        if crate::bytes::first_match(
            d.subrange(0, if d.len() < 4096 { d.len() as int } else { 4096 }),
            dng_tag_bytes(d[0] == 0x49),
        ) is Some {
            "dng"@
        } else {
            "tiff"@
        }
    } else {
        "raw"@
    }
}

/// Detect RAW file extension from magic bytes.
pub fn detect_extension(data: &[u8]) -> (r: &'static str)
    ensures
        r@ == spec_detect_extension(data@),
{
    if data.len() < 12 {
        return "raw";
    }
    // Check for Fuji RAF
    let fuji: [u8; 8] = [0x46, 0x55, 0x4A, 0x49, 0x46, 0x49, 0x4C, 0x4D];
    assert(fuji@ =~= fujifilm_sig());
    if crate::bytes::bytes_match_at(data, 0, fuji.as_slice()) {
        return "raf";
    }
    // Check for Panasonic RW2
    if data[0] == 0x49 && data[1] == 0x49 && data[2] == 0x55 && data[3] == 0x00 {
        return "rw2";
    }
    // TIFF-based — check if DNG
    let is_tiff = (data[0] == 0x49 && data[1] == 0x49 && data[2] == 42 && data[3] == 0) || (
    data[0] == 0x4D && data[1] == 0x4D && data[2] == 0 && data[3] == 42);
    if is_tiff {
        // Scan for DNGVersion tag (0xC612) in the first 4KB; endianness
        // determines byte order.
        let search_len = if data.len() < 4096 {
            data.len()
        } else {
            4096
        };
        let haystack = vstd::slice::slice_subrange(data, 0, search_len);
        let le: [u8; 2] = [0x12, 0xC6];
        let be: [u8; 2] = [0xC6, 0x12];
        let needle: &[u8] = if data[0] == 0x49 {
            le.as_slice()
        } else {
            be.as_slice()
        };
        assert(needle@ =~= dng_tag_bytes(data@[0] == 0x49));
        if crate::decode::memmem_find(haystack, needle).is_some() {
            return "dng";
        }
        // Generic TIFF-based RAW — could be CR2, NEF, ARW, etc.
        return "tiff";
    }
    "raw"
}

// ── PFM parsing ──────────────────────────────────────────────────────
//
// PFM: "PF\n<width> <height>\n<scale>\n<binary f32 RGB data>"; a negative
// scale means little-endian samples, rows stored bottom to top. Header
// lines are read byte by byte as Latin-1 text.

/// The bytes whose Latin-1 character has the Unicode `White_Space` property.
pub open spec fn is_ws_byte(b: u8) -> bool {
    (0x09 <= b && b <= 0x0D) || b == 0x20 || b == 0x85 || b == 0xA0
}

fn ws_byte(b: u8) -> (r: bool)
    ensures
        r == is_ws_byte(b),
{
    (0x09 <= b && b <= 0x0D) || b == 0x20 || b == 0x85 || b == 0xA0
}

/// `b` without leading whitespace.
pub open spec fn trim_start_bytes(b: Seq<u8>) -> Seq<u8>
    decreases b.len(),
{
    if b.len() > 0 && is_ws_byte(b[0]) {
        trim_start_bytes(b.drop_first())
    } else {
        b
    }
}

/// `b` without trailing whitespace.
pub open spec fn trim_end_bytes(b: Seq<u8>) -> Seq<u8>
    decreases b.len(),
{
    if b.len() > 0 && is_ws_byte(b.last()) {
        trim_end_bytes(b.drop_last())
    } else {
        b
    }
}

/// `b` without leading and trailing whitespace.
pub open spec fn trim_bytes(b: Seq<u8>) -> Seq<u8> {
    trim_end_bytes(trim_start_bytes(b))
}

/// Length of the run of non-whitespace bytes that `b` starts with.
pub open spec fn word_len(b: Seq<u8>) -> nat
    decreases b.len(),
{
    if b.len() == 0 || is_ws_byte(b[0]) {
        0
    } else {
        1 + word_len(b.drop_first())
    }
}

pub proof fn lemma_word_len(b: Seq<u8>, m: int)
    requires
        0 <= m <= b.len(),
        forall|k: int| 0 <= k < m ==> !is_ws_byte(#[trigger] b[k]),
        m == b.len() || is_ws_byte(b[m]),
    ensures
        word_len(b) == m,
    decreases b.len(),
{
    if m > 0 {
        assert(forall|k: int| 0 <= k < m - 1 ==> b.drop_first()[k] == b[k + 1]);
        lemma_word_len(b.drop_first(), m - 1);
    }
}

pub proof fn lemma_word_len_bounds(b: Seq<u8>)
    ensures
        word_len(b) <= b.len(),
        b.len() > 0 && !is_ws_byte(b[0]) ==> word_len(b) >= 1,
    decreases b.len(),
{
    if b.len() > 0 && !is_ws_byte(b[0]) {
        lemma_word_len_bounds(b.drop_first());
    }
}

/// The whitespace-separated words of `b`, in order.
pub open spec fn split_ws_bytes(b: Seq<u8>) -> Seq<Seq<u8>>
    decreases b.len(),
{
    if b.len() == 0 {
        Seq::empty()
    } else if is_ws_byte(b[0]) {
        split_ws_bytes(b.drop_first())
    } else {
        proof {
            lemma_word_len_bounds(b);
        }
        seq![b.take(word_len(b) as int)] + split_ws_bytes(b.skip(word_len(b) as int))
    }
}

/// The Latin-1 text of `b`: each byte read as the character with that code.
pub open spec fn latin1(b: Seq<u8>) -> Seq<char> {
    b.map_values(|x: u8| x as char)
}

/// Index of the first newline at or after `pos`.
pub open spec fn line_end(d: Seq<u8>, pos: int) -> Option<int>
    decreases d.len() - pos,
{
    if pos < 0 || pos >= d.len() {
        None
    } else if d[pos] == 0x0A {
        Some(pos)
    } else {
        line_end(d, pos + 1)
    }
}

/// `PF`
pub open spec fn pfm_magic() -> Seq<u8> {
    seq![0x50u8, 0x46]
}

/// Why a PFM header is rejected.
pub enum PfmFault {
    /// A header line has no terminating newline.
    Eof,
    /// The first line is not `PF`.
    BadMagic,
    /// The second line does not hold exactly two words.
    BadDims,
    /// The width is not a decimal `u32`.
    BadWidth,
    /// The height is not a decimal `u32`.
    BadHeight,
}

/// Width, height, the trimmed scale line and the offset of the pixel data,
/// or why the header is rejected.
pub open spec fn spec_pfm_header(d: Seq<u8>) -> Result<(u32, u32, Seq<u8>, int), PfmFault> {
    match line_end(d, 0) {
        None => Err(PfmFault::Eof),
        Some(k1) => if trim_bytes(d.subrange(0, k1)) != pfm_magic() {
            Err(PfmFault::BadMagic)
        } else {
            match line_end(d, k1 + 1) {
                None => Err(PfmFault::Eof),
                Some(k2) => {
                    let toks = split_ws_bytes(d.subrange(k1 + 1, k2));
                    if toks.len() != 2 {
                        Err(PfmFault::BadDims)
                    } else {
                        match parse_integer(latin1(toks[0]), false, 0, u32::MAX as int) {
                            None => Err(PfmFault::BadWidth),
                            Some(w) => match parse_integer(latin1(toks[1]), false, 0, u32::MAX as int) {
                                None => Err(PfmFault::BadHeight),
                                Some(h) => match line_end(d, k2 + 1) {
                                    None => Err(PfmFault::Eof),
                                    Some(k3) => Ok(
                                        (w as u32, h as u32, trim_bytes(d.subrange(k2 + 1, k3)), k3 + 1),
                                    ),
                                },
                            },
                        }
                    }
                },
            }
        },
    }
}

/// The error each header fault is reported as: a missing newline as
/// unexpected end of data, anything else as malformed data.
pub open spec fn pfm_fault_error(f: PfmFault, e: RawError) -> bool {
    match f {
        PfmFault::Eof => e is UnexpectedEof,
        _ => e is Malformed,
    }
}

/// The parsed header of a PFM file.
#[derive(Clone, Debug)]
pub struct PfmHeader {
    /// Image width in pixels.
    pub width: u32,
    /// Image height in pixels.
    pub height: u32,
    /// The scale line, trimmed; negative means little-endian samples.
    pub scale_text: Vec<u8>,
    /// Offset of the first pixel byte.
    pub data_offset: usize,
}

impl PfmHeader {
    /// Width, height, scale text and data offset.
    pub open spec fn spec_view(self) -> (u32, u32, Seq<u8>, int) {
        (self.width, self.height, self.scale_text@, self.data_offset as int)
    }
}

fn find_line_end(data: &[u8], pos: usize) -> (r: Option<usize>)
    ensures
        match r {
            Some(k) => line_end(data@, pos as int) == Some(k as int) && pos <= k < data@.len(),
            None => line_end(data@, pos as int) is None,
        },
{
    let mut k = pos;
    while k < data.len()
        invariant
            pos <= k,
            line_end(data@, pos as int) == line_end(data@, k as int),
        decreases data@.len() - k,
    {
        if data[k] == 0x0A {
            return Some(k);
        }
        k = k + 1;
    }
    None
}

fn trim_range(b: &[u8], start: usize, end: usize) -> (r: (usize, usize))
    requires
        start <= end <= b@.len(),
    ensures
        start <= r.0 <= r.1 <= end,
        b@.subrange(r.0 as int, r.1 as int) == trim_bytes(b@.subrange(start as int, end as int)),
{
    let ghost full = b@.subrange(start as int, end as int);
    let mut s = start;
    while s < end && ws_byte(b[s])
        invariant
            start <= s <= end <= b@.len(),
            trim_start_bytes(full) == trim_start_bytes(b@.subrange(s as int, end as int)),
        decreases end - s,
    {
        assert(b@.subrange(s as int, end as int).drop_first() =~= b@.subrange(s + 1, end as int));
        s = s + 1;
    }
    let mut e = end;
    while e > s && ws_byte(b[e - 1])
        invariant
            s <= e <= end <= b@.len(),
            trim_bytes(full) == trim_end_bytes(b@.subrange(s as int, e as int)),
        decreases e - s,
    {
        assert(b@.subrange(s as int, e as int).drop_last() =~= b@.subrange(s as int, e - 1));
        e = e - 1;
    }
    (s, e)
}

/// The word ranges of `line[start..end]`, in order.
fn split_words(line: &[u8], start: usize, end: usize) -> (r: Vec<(usize, usize)>)
    requires
        start <= end <= line@.len(),
    ensures
        r@.len() == split_ws_bytes(line@.subrange(start as int, end as int)).len(),
        forall|k: int|
            0 <= k < r@.len() ==> start <= (#[trigger] r@[k]).0 <= r@[k].1 <= end && line@.subrange(
                r@[k].0 as int,
                r@[k].1 as int,
            ) == split_ws_bytes(line@.subrange(start as int, end as int))[k],
{
    let ghost b = line@.subrange(start as int, end as int);
    let mut words: Vec<(usize, usize)> = Vec::new();
    let ghost mut done: Seq<Seq<u8>> = Seq::empty();
    let mut i = start;
    assert(b =~= line@.subrange(i as int, end as int));
    assert(done + split_ws_bytes(line@.subrange(i as int, end as int)) =~= split_ws_bytes(b));
    while i < end
        invariant
            start <= i <= end <= line@.len(),
            b == line@.subrange(start as int, end as int),
            done + split_ws_bytes(line@.subrange(i as int, end as int)) == split_ws_bytes(b),
            words@.len() == done.len(),
            forall|k: int|
                0 <= k < words@.len() ==> start <= (#[trigger] words@[k]).0 <= words@[k].1 <= end
                    && line@.subrange(words@[k].0 as int, words@[k].1 as int) == done[k],
        decreases end - i,
    {
        let ghost rest = line@.subrange(i as int, end as int);
        if ws_byte(line[i]) {
            assert(rest.drop_first() =~= line@.subrange(i + 1, end as int));
            i = i + 1;
        } else {
            let mut j = i;
            while j < end && !ws_byte(line[j])
                invariant
                    i <= j <= end <= line@.len(),
                    forall|k: int| i <= k < j ==> !is_ws_byte(#[trigger] line@[k]),
                decreases end - j,
            {
                j = j + 1;
            }
            proof {
                assert forall|k: int| 0 <= k < j - i implies !is_ws_byte(#[trigger] rest[k]) by {
                    assert(rest[k] == line@[i + k]);
                }
                lemma_word_len(rest, j - i);
                assert(rest.take(j - i) =~= line@.subrange(i as int, j as int));
                assert(rest.skip(j - i) =~= line@.subrange(j as int, end as int));
                done = done.push(line@.subrange(i as int, j as int));
                assert(done + split_ws_bytes(line@.subrange(j as int, end as int)) =~= split_ws_bytes(b));
            }
            words.push((i, j));
            i = j;
        }
    }
    assert(line@.subrange(i as int, end as int) =~= Seq::<u8>::empty());
    assert(done + Seq::<Seq<u8>>::empty() =~= done);
    words
}

proof fn lemma_latin1_ascii(b: Seq<u8>)
    requires
        forall|i: int| 0 <= i < b.len() ==> #[trigger] b[i] < 0x80,
    ensures
        valid_utf8(b),
        decode_utf8(b) == latin1(b),
{
    let c = latin1(b);
    assert(is_ascii_chars(c)) by {
        assert forall|i: int| 0 <= i < c.len() implies '\0' <= #[trigger] c[i] <= '\u{7f}' by {
            assert(c[i] == b[i] as char);
        }
    }
    vstd::utf8::is_ascii_chars_encode_utf8(c);
    assert forall|i: int| 0 <= i < b.len() implies encode_utf8(c)[i] == b[i] by {
        assert(c[i] == b[i] as char);
        assert(c[i] as u8 == encode_utf8(c)[i]);
    }
    assert(encode_utf8(c) =~= b);
    vstd::utf8::encode_utf8_valid_utf8(c);
    vstd::utf8::encode_utf8_decode_utf8(c);
}

/// A word read as a decimal `u32`, the way `str::parse` reads its Latin-1 text.
fn parse_word_u32(line: &[u8], start: usize, end: usize) -> (r: Option<u32>)
    requires
        start <= end <= line@.len(),
    ensures
        opt_int(r) == parse_integer(
            latin1(line@.subrange(start as int, end as int)),
            false,
            0,
            u32::MAX as int,
        ),
{
    let ghost tok = line@.subrange(start as int, end as int);
    let mut k = start;
    while k < end
        invariant
            start <= k <= end <= line@.len(),
            tok == line@.subrange(start as int, end as int),
            forall|i: int| start <= i < k ==> #[trigger] line@[i] < 0x80,
        decreases end - k,
    {
        if line[k] >= 0x80 {
            proof {
                assert(latin1(tok)[k - start] == line@[k as int] as char);
                crate::text::lemma_parse_integer_non_ascii(latin1(tok), k - start, false, 0, u32::MAX as int);
            }
            return None;
        }
        k = k + 1;
    }
    proof {
        assert forall|i: int| 0 <= i < tok.len() implies #[trigger] tok[i] < 0x80 by {
            assert(tok[i] == line@[start + i]);
        }
        lemma_latin1_ascii(tok);
    }
    match crate::text::utf8_to_string(vstd::slice::slice_subrange(line, start, end)) {
        Some(text) => crate::text::parse_u32(text.as_str()),
        None => None,
    }
}

/// Parse the header of a PFM file.
///
/// Reads three newline-terminated lines: the magic `PF`, the width and
/// height, and the scale. A missing newline is reported as
/// [`RawError::UnexpectedEof`], anything else wrong as
/// [`RawError::Malformed`].
pub fn parse_pfm_header(data: &[u8]) -> (r: Result<PfmHeader, RawError>)
    ensures
        match r {
            Ok(h) => spec_pfm_header(data@) == Ok::<_, PfmFault>(h.spec_view()),
            Err(e) => spec_pfm_header(data@) matches Err(f) && pfm_fault_error(f, e),
        },
{
    // Read magic line
    let k1 = match find_line_end(data, 0) {
        Some(k) => k,
        None => return Err(RawError::UnexpectedEof(String::from_str("unexpected EOF in PFM header"))),
    };
    let (ms, me) = trim_range(data, 0, k1);
    let magic: [u8; 2] = [0x50, 0x46];
    assert(magic@ =~= pfm_magic());
    if !(me - ms == 2 && data[ms] == 0x50 && data[ms + 1] == 0x46) {
        proof {
            if data@.subrange(ms as int, me as int) == pfm_magic() {
                assert(data@.subrange(ms as int, me as int)[0] == data@[ms as int]);
                assert(data@.subrange(ms as int, me as int)[1] == data@[ms + 1]);
            }
        }
        return Err(RawError::Malformed(String::from_str("not a color PFM file")));
    }
    assert(data@.subrange(ms as int, me as int) =~= pfm_magic());
    // Read dimensions
    let k2 = match find_line_end(data, k1 + 1) {
        Some(k) => k,
        None => return Err(RawError::UnexpectedEof(String::from_str("unexpected EOF in PFM header"))),
    };
    let dims = split_words(data, k1 + 1, k2);
    if dims.len() != 2 {
        return Err(RawError::Malformed(String::from_str("invalid PFM dimensions line")));
    }
    let width = match parse_word_u32(data, dims[0].0, dims[0].1) {
        Some(w) => w,
        None => return Err(RawError::Malformed(String::from_str("invalid PFM width"))),
    };
    let height = match parse_word_u32(data, dims[1].0, dims[1].1) {
        Some(h) => h,
        None => return Err(RawError::Malformed(String::from_str("invalid PFM height"))),
    };
    // Read scale
    let k3 = match find_line_end(data, k2 + 1) {
        Some(k) => k,
        None => return Err(RawError::UnexpectedEof(String::from_str("unexpected EOF in PFM header"))),
    };
    let (ss, se) = trim_range(data, k2 + 1, k3);
    let scale_text = vstd::slice::slice_to_vec(vstd::slice::slice_subrange(data, ss, se));
    Ok(PfmHeader { width, height, scale_text, data_offset: k3 + 1 })
}

/// The 32-bit words of stored row `r` (each row holds `3 × w` samples).
pub open spec fn pfm_row(pd: Seq<u8>, w: int, bo: ByteOrder, r: int) -> Seq<u32> {
    Seq::new((3 * w) as nat, |i: int| read32(pd, r * (12 * w) + 4 * i, bo))
}

/// Stored rows `h - 1` down to `r`, concatenated: the image top row first.
pub open spec fn pfm_rows_from(pd: Seq<u8>, w: int, h: int, bo: ByteOrder, r: int) -> Seq<u32>
    decreases h - r,
{
    if r >= h {
        Seq::empty()
    } else {
        pfm_rows_from(pd, w, h, bo, r + 1) + pfm_row(pd, w, bo, r)
    }
}

/// Most pixels a PFM may hold.
pub const PFM_MAX_PIXELS: u64 = 200_000_000;

/// Why PFM pixel data is rejected.
pub enum PfmDataFault {
    /// The sample or byte count does not fit in 64 bits.
    Overflow,
    /// More than [`PFM_MAX_PIXELS`] pixels.
    TooLarge,
    /// Fewer bytes than the samples need.
    Short,
}

/// The samples of a PFM image as 32-bit words (IEEE 754 bit patterns, read
/// in the file's byte order), top row first; or why they cannot be read.
pub open spec fn spec_pfm_words(d: Seq<u8>, w: u32, h: u32, off: int, little_endian: bool) -> Result<Seq<u32>, PfmDataFault> {
    let total = w as int * h as int * 3;
    if total > u64::MAX {
        Err(PfmDataFault::Overflow)
    } else if total * 4 > u64::MAX {
        Err(PfmDataFault::Overflow)
    } else if w as int * h as int > PFM_MAX_PIXELS {
        Err(PfmDataFault::TooLarge)
    } else if off > d.len() || d.len() - off < total * 4 {
        Err(PfmDataFault::Short)
    } else {
        let bo = if little_endian {
            ByteOrder::LittleEndian
        } else {
            ByteOrder::BigEndian
        };
        Ok(pfm_rows_from(d.subrange(off, d.len() as int), w as int, h as int, bo, 0))
    }
}

/// The error each data fault is reported as.
pub open spec fn pfm_data_fault_error(f: PfmDataFault, e: RawError) -> bool {
    match f {
        PfmDataFault::Overflow => e is OutOfMemory,
        PfmDataFault::TooLarge => e matches RawError::LimitExceeded(RawLimitKind::Pixels, _),
        PfmDataFault::Short => e is UnexpectedEof,
    }
}

proof fn lemma_pfm_row_start(r: int, w: int, h: int)
    requires
        0 <= r < h,
        0 <= w,
    ensures
        0 <= r * (12 * w),
        r * (12 * w) + 12 * w <= w * h * 12,
{
    assert(r * (12 * w) + 12 * w <= w * h * 12) by (nonlinear_arith)
        requires
            0 <= r < h,
            0 <= w,
    ;
    assert(0 <= r * (12 * w)) by (nonlinear_arith)
        requires
            0 <= r,
            0 <= w,
    ;
}

proof fn lemma_pfm_index(r: int, i: int, w: int, h: int)
    requires
        0 <= r < h,
        0 <= i < 3 * w,
    ensures
        0 <= r * (12 * w) + 4 * i,
        r * (12 * w) + 4 * i + 4 <= w * h * 12,
        r * (12 * w) + 12 * w <= w * h * 12,
{
    assert(r * (12 * w) + 4 * i + 4 <= w * h * 12) by (nonlinear_arith)
        requires
            0 <= r < h,
            0 <= i < 3 * w,
    ;
    assert(r * (12 * w) + 12 * w <= w * h * 12) by (nonlinear_arith)
        requires
            0 <= r < h,
            0 <= i < 3 * w,
    ;
    assert(0 <= r * (12 * w)) by (nonlinear_arith)
        requires
            0 <= r,
            0 <= i < 3 * w,
    ;
}

/// Read the pixel samples of a PFM file as 32-bit words, rows flipped to
/// top-to-bottom order.
///
/// Samples are read little-endian when `little_endian` (a negative scale),
/// else big-endian. Dimensions whose sample or byte count overflows 64 bits
/// are reported as [`RawError::OutOfMemory`], more than 200 million pixels
/// as [`RawError::LimitExceeded`], and too little data as
/// [`RawError::UnexpectedEof`].
pub fn pfm_pixel_words(data: &[u8], header: &PfmHeader, little_endian: bool) -> (r: Result<Vec<u32>, RawError>)
    ensures
        match r {
            Ok(v) => spec_pfm_words(data@, header.width, header.height, header.data_offset as int, little_endian)
                == Ok::<_, PfmDataFault>(v@),
            Err(e) => spec_pfm_words(data@, header.width, header.height, header.data_offset as int, little_endian)
                matches Err(f) && pfm_data_fault_error(f, e),
        },
{
    let width = header.width;
    let height = header.height;
    // Validate dimensions with checked arithmetic before allocating
    proof {
        assert(width as int * height as int <= 0xFFFF_FFFF * 0xFFFF_FFFF) by (nonlinear_arith)
            requires
                width <= 0xFFFF_FFFFu32,
                height <= 0xFFFF_FFFFu32,
        ;
    }
    let wh: u64 = (width as u64) * (height as u64);
    let total: u64 = match wh.checked_mul(3) {
        Some(t) => t,
        None => return Err(RawError::OutOfMemory(String::from_str("PFM dimensions overflow"))),
    };
    let expected: u64 = match total.checked_mul(4) {
        Some(e) => e,
        None => return Err(RawError::OutOfMemory(String::from_str("PFM byte count overflow"))),
    };
    // Reject unreasonably large images before allocation (200M pixels max)
    if total / 3 > PFM_MAX_PIXELS {
        return Err(RawError::LimitExceeded(
            RawLimitKind::Pixels,
            String::from_str("PFM dimensions exceed 200M pixel limit"),
        ));
    }
    let pos = header.data_offset;
    if pos > data.len() || ((data.len() - pos) as u64) < expected {
        return Err(RawError::UnexpectedEof(String::from_str("PFM data too short")));
    }
    let pixel_data = vstd::slice::slice_subrange(data, pos, data.len());
    let pdl = pixel_data.len();
    let ghost pd = pixel_data@;
    if height == 0 {
        assert(pfm_rows_from(pd, width as int, 0, if little_endian {
            ByteOrder::LittleEndian
        } else {
            ByteOrder::BigEndian
        }, 0) =~= Seq::<u32>::empty());
        return Ok(Vec::new());
    }
    assert(width as int <= width as int * height as int) by (nonlinear_arith)
        requires
            height >= 1,
    ;
    let bo = if little_endian {
        ByteOrder::LittleEndian
    } else {
        ByteOrder::BigEndian
    };
    // PFM stores rows bottom-to-top
    let w = width as usize;
    let row_len = w * 3;
    let row_bytes = w * 12;
    let mut pixels: Vec<u32> = Vec::new();
    let mut row = height as usize;
    assert(pixels@ =~= pfm_rows_from(pd, w as int, height as int, bo, row as int));
    while row > 0
        invariant
            pd == pixel_data@,
            pdl == pd.len(),
            w == width,
            row_len == 3 * w,
            row_bytes == 12 * w,
            w as int * height as int <= PFM_MAX_PIXELS,
            w as int * height as int * 12 <= pd.len(),
            row <= height,
            pixels@ =~= pfm_rows_from(pd, w as int, height as int, bo, row as int),
        decreases row,
    {
        let r = row - 1;
        proof {
            lemma_pfm_row_start(r as int, w as int, height as int);
        }
        let row_start = r * row_bytes;
        let mut i: usize = 0;
        let ghost base = pixels@;
        while i < row_len
            invariant
                pd == pixel_data@,
                pdl == pd.len(),
                row_len == 3 * w,
                row_bytes == 12 * w,
                r < height,
                row_start == r * (12 * w),
                w as int * height as int * 12 <= pd.len(),
                i <= row_len,
                pixels@ =~= base + pfm_row(pd, w as int, bo, r as int).take(i as int),
            decreases row_len - i,
        {
            proof {
                lemma_pfm_index(r as int, i as int, w as int, height as int);
            }
            let offset = row_start + i * 4;
            pixels.push(crate::tiff_ifd::read_u32(pixel_data, offset, bo));
            i = i + 1;
        }
        assert(pfm_row(pd, w as int, bo, r as int).take(row_len as int) =~= pfm_row(pd, w as int, bo, r as int));
        row = r;
    }
    Ok(pixels)
}

// ── Running darktable-cli ────────────────────────────────────────────

/// What polling the darktable-cli process reported.
#[derive(Clone, Copy, Debug, PartialEq, Eq, Structural)]
pub enum WaitEvent {
    /// The process has exited, successfully or not.
    Exited { success: bool },
    /// The process is still running, this many whole seconds after start.
    Running { elapsed_secs: u64 },
    /// Waiting on the process failed.
    WaitFailed,
}

/// What to do next while waiting for darktable-cli.
#[derive(Clone, Copy, Debug, PartialEq, Eq, Structural)]
pub enum WaitAction {
    /// The process succeeded: read its PFM output.
    ReadOutput,
    /// The process exited with a failure status.
    ExitFailed,
    /// The timeout passed: kill the process and report a timeout.
    KillTimedOut,
    /// Sleep 50 ms, then poll again.
    SleepAndPoll,
    /// Waiting failed: report the failure.
    WaitFailed,
}

/// The next step while waiting for darktable-cli with a timeout of
/// `timeout_secs`: a finished process is done (well or badly), a running one
/// is killed once `timeout_secs` have passed and polled again otherwise.
pub fn next_wait_action(event: WaitEvent, timeout_secs: u64) -> (r: WaitAction)
    ensures
        r == match event {
            WaitEvent::Exited { success } => if success {
                WaitAction::ReadOutput
            } else {
                WaitAction::ExitFailed
            },
            WaitEvent::Running { elapsed_secs } => if elapsed_secs >= timeout_secs {
                WaitAction::KillTimedOut
            } else {
                WaitAction::SleepAndPoll
            },
            WaitEvent::WaitFailed => WaitAction::WaitFailed,
        },
{
    match event {
        WaitEvent::Exited { success } => if success {
            WaitAction::ReadOutput
        } else {
            WaitAction::ExitFailed
        },
        WaitEvent::Running { elapsed_secs } => if elapsed_secs >= timeout_secs {
            WaitAction::KillTimedOut
        } else {
            WaitAction::SleepAndPoll
        },
        WaitEvent::WaitFailed => WaitAction::WaitFailed,
    }
}

/// ASCII lower case of a byte.
pub open spec fn ascii_lower(b: u8) -> u8 {
    if 0x41 <= b && b <= 0x5A {
        (b + 0x20) as u8
    } else {
        b
    }
}

/// Whether a file extension is `dng`, ignoring ASCII case.
pub fn is_dng_extension(ext: &str) -> (r: bool)
    ensures
        r == (encode_utf8(ext@).len() == 3 && ascii_lower(encode_utf8(ext@)[0]) == 0x64
            && ascii_lower(encode_utf8(ext@)[1]) == 0x6E && ascii_lower(encode_utf8(ext@)[2]) == 0x67),
{
    let b = ext.as_bytes();
    if b.len() != 3 {
        return false;
    }
    let l0 = if 0x41 <= b[0] && b[0] <= 0x5A { b[0] + 0x20 } else { b[0] };
    let l1 = if 0x41 <= b[1] && b[1] <= 0x5A { b[1] + 0x20 } else { b[1] };
    let l2 = if 0x41 <= b[2] && b[2] <= 0x5A { b[2] + 0x20 } else { b[2] };
    l0 == 0x64 && l1 == 0x6E && l2 == 0x67
}

// ── Laws ─────────────────────────────────────────────────────────────

proof fn lemma_pfm_rows_len(pd: Seq<u8>, w: int, h: int, bo: ByteOrder, r: int)
    requires
        0 <= w,
        0 <= r <= h,
    ensures
        pfm_rows_from(pd, w, h, bo, r).len() == (h - r) * (3 * w),
    decreases h - r,
{
    if r < h {
        lemma_pfm_rows_len(pd, w, h, bo, r + 1);
        assert(pfm_row(pd, w, bo, r).len() == 3 * w);
        assert((h - (r + 1)) * (3 * w) + 3 * w == (h - r) * (3 * w)) by (nonlinear_arith);
        assert(pfm_rows_from(pd, w, h, bo, r) == pfm_rows_from(pd, w, h, bo, r + 1) + pfm_row(pd, w, bo, r));
    } else {
        assert((h - r) * (3 * w) == 0) by (nonlinear_arith)
            requires
                h == r,
        ;
    }
}

/// A PFM image read successfully holds exactly three samples per pixel:
/// `3 × width × height` words.
pub proof fn law_pfm_sample_count(d: Seq<u8>, w: u32, h: u32, off: int, little_endian: bool)
    ensures
        spec_pfm_words(d, w, h, off, little_endian) matches Ok(v) ==> v.len() == 3 * w * h,
{
    let bo = if little_endian {
        ByteOrder::LittleEndian
    } else {
        ByteOrder::BigEndian
    };
    lemma_pfm_rows_len(d.subrange(off, d.len() as int), w as int, h as int, bo, 0);
    assert(h * (3 * w) == 3 * w * h) by (nonlinear_arith);
}

/// The extension chosen for darktable-cli is `dng` exactly for the inputs
/// the DNG header check accepts.
pub proof fn law_dng_extension_iff_dng_header(d: Seq<u8>)
    ensures
        (spec_detect_extension(d) == "dng"@) == crate::decode::spec_is_dng_data(d),
{
    reveal_strlit("dng");
    reveal_strlit("raw");
    reveal_strlit("raf");
    reveal_strlit("rw2");
    reveal_strlit("tiff");
    assert("dng"@[0] == 'd');
    assert("raw"@[0] == 'r');
    assert("raf"@[0] == 'r');
    assert("rw2"@[0] == 'r');
    assert("tiff"@[0] == 't');
    if d.len() >= 12 && matches_at(d, 0, fujifilm_sig()) {
        assert(d.subrange(0, 8)[0] == d[0]);
    }
}

} // verus!
