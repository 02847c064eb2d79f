//! Format sniffing and the integer parts of the decode pipeline: output
//! mode and sensor layout descriptors, DNG/RAW detection and sensor bit
//! depth.
use vstd::prelude::*;

use crate::bytes::{first_match, matches_at};
use crate::error::{RawError, RawLimitKind};
use crate::classify::{fujifilm_sig, ftyp_sig, crx_sig, is_tiff_be, is_tiff_le};

verus! {

/// What rendering to apply during RAW development.
#[derive(Clone, Copy, Debug, PartialEq, Eq, Structural)]
#[non_exhaustive]
pub enum OutputMode {
    /// Full develop: WB + color matrix + tone curve + gamma. Produces
    /// display-ready u16 (or f32 if sensor data was float) in target
    /// primaries.
    Develop,
    /// Linear scene-referred: WB + color matrix only. Produces f32 linear in
    /// target primaries.
    Linear,
    /// Raw camera values: no WB, no color matrix. Produces f32 in camera
    /// color space.
    CameraRaw,
}

impl Default for OutputMode {
    fn default() -> (r: Self)
        ensures
            r == OutputMode::Develop,
    {
        OutputMode::Develop
    }
}

/// Sensor data layout.
#[derive(Clone, Copy, Debug, PartialEq, Eq, Structural)]
#[non_exhaustive]
pub enum SensorLayout {
    /// Standard 2×2 Bayer CFA (RGGB, BGGR, GRBG, GBRG).
    Bayer,
    /// Fujifilm X-Trans 6×6 CFA.
    XTrans,
    /// Already demosaiced linear RGB (some DNGs, Apple ProRAW).
    LinearRaw,
    /// Unknown or unsupported layout.
    Unknown,
}

impl Default for SensorLayout {
    fn default() -> (r: Self)
        ensures
            r == SensorLayout::Bayer,
    {
        SensorLayout::Bayer
    }
}

/// Position of the first occurrence of `needle` in `haystack` (via
/// `memchr::memmem::find`).
///
/// Claims what memchr documents: the index of the first occurrence of a
/// non-empty needle, or `None` when it does not occur.
#[verifier::external_body]
pub(crate) fn memmem_find(haystack: &[u8], needle: &[u8]) -> (r: Option<usize>)
    requires
        needle@.len() > 0,
    ensures
        match r {
            Some(i) => first_match(haystack@, needle@) == Some(i as int),
            None => first_match(haystack@, needle@) is None,
        },
{
    memchr::memmem::find(haystack, needle)
}

/// The DNGVersion tag id (0xC612) as it is stored in a file of the given
/// byte order.
pub open spec fn dng_tag_bytes(little_endian: bool) -> Seq<u8> {
    if little_endian {
        seq![0x12u8, 0xC6]
    } else {
        seq![0xC6u8, 0x12]
    }
}

/// At least 12 bytes with a TIFF header, and the DNGVersion tag id in the
/// file's byte order somewhere in the first 4 KiB.
pub open spec fn spec_is_dng_data(d: Seq<u8>) -> bool {
    &&& d.len() >= 12
    &&& is_tiff_le(d) || is_tiff_be(d)
    &&& first_match(
        d.subrange(0, if d.len() < 4096 { d.len() as int } else { 4096 }),
        dng_tag_bytes(d[0] == 0x49),
    ) is Some
}

/// Check if data appears to be a DNG file (TIFF with DNG version tag).
pub fn is_dng_data(data: &[u8]) -> (r: bool)
    ensures
        r == spec_is_dng_data(data@),
{
    if data.len() < 12 {
        return false;
    }
    let is_tiff = (data[0] == 0x49 && data[1] == 0x49 && data[2] == 42 && data[3] == 0) || (
    data[0] == 0x4D && data[1] == 0x4D && data[2] == 0 && data[3] == 42);
    if !is_tiff {
        return false;
    }
    // Look for DNGVersion tag (0xC612) in the first 4KB. Little-endian TIFF
    // stores it as [0x12, 0xC6]; big-endian as [0xC6, 0x12].
    let search_len = if data.len() < 4096 {
        data.len()
    } else {
        4096
    };
    let haystack = vstd::slice::slice_subrange(data, 0, search_len);
    let le: [u8; 2] = [0x12, 0xC6];
    let be: [u8; 2] = [0xC6, 0x12];
    let needle: &[u8] = if data[0] == 0x49 {
        le.as_slice()
    } else {
        be.as_slice()
    };
    assert(needle@ =~= dng_tag_bytes(data@[0] == 0x49));
    memmem_find(haystack, needle).is_some()
}

/// Number of binary digits of `n` (0 for 0).
pub open spec fn bit_length(n: nat) -> nat
    decreases n,
{
    if n == 0 {
        0
    } else {
        1 + bit_length(n / 2)
    }
}

/// Sensor bit depth estimated from a white level: the bits needed to hold
/// it, or 16 for a zero white level.
pub open spec fn spec_bits_from_whitelevel(wl: u32) -> nat {
    if wl == 0 {
        16
    } else {
        bit_length(wl as nat)
    }
}

proof fn lemma_bit_length_bound(n: nat, k: nat)
    requires
        n < vstd::arithmetic::power2::pow2(k),
    ensures
        bit_length(n) <= k,
    decreases n,
{
    if n > 0 {
        if k == 0 {
            vstd::arithmetic::power2::lemma2_to64();
        } else {
            vstd::arithmetic::power2::lemma_pow2_unfold(k);
            lemma_bit_length_bound(n / 2, (k - 1) as nat);
        }
    }
}

/// Estimate sensor bit depth from the white level value.
///
/// Returns the number of bits needed to represent the white level
/// (e.g., white level 4095 → 12 bits, 16383 → 14 bits).
pub fn bits_from_whitelevel(wl: u32) -> (r: u8)
    ensures
        r == spec_bits_from_whitelevel(wl),
{
    if wl == 0 {
        return 16;
    }
    let mut v = wl;
    let mut bits: u8 = 0;
    proof {
        vstd::arithmetic::power2::lemma2_to64();
        lemma_bit_length_bound(wl as nat, 32);
    }
    while v > 0
        invariant
            bits + bit_length(v as nat) == bit_length(wl as nat),
            bit_length(wl as nat) <= 32,
        decreases v,
    {
        v = v / 2;
        bits = bits + 1;
    }
    bits
}

/// The leading bytes of a supported RAW/DNG file: a TIFF header, Olympus
/// "IIRO", "FUJIFILM", Panasonic "IIU\0", or an ISO BMFF `ftyp` box with the
/// "crx " brand — in a file of at least 12 bytes.
pub open spec fn spec_is_raw_file(d: Seq<u8>) -> bool {
    &&& d.len() >= 12
    &&& {
        ||| is_tiff_le(d) || is_tiff_be(d)
        ||| d[0] == 0x49 && d[1] == 0x49 && d[2] == 0x52 && d[3] == 0x4F
        ||| matches_at(d, 0, fujifilm_sig())
        ||| d[0] == 0x49 && d[1] == 0x49 && d[2] == 0x55 && d[3] == 0x00
        ||| matches_at(d, 4, ftyp_sig()) && matches_at(d, 8, crx_sig())
    }
}

/// Detect whether a byte slice looks like a supported RAW/DNG file.
///
/// Checks for TIFF-based RAW formats and known camera RAW magic bytes.
pub fn is_raw_file(data: &[u8]) -> (r: bool)
    ensures
        r == spec_is_raw_file(data@),
{
    if data.len() < 12 {
        return false;
    }
    // TIFF-based formats (DNG, CR2, NEF, ARW, etc.)
    let is_tiff = (data[0] == 0x49 && data[1] == 0x49 && data[2] == 42 && data[3] == 0) || (
    data[0] == 0x4D && data[1] == 0x4D && data[2] == 0 && data[3] == 42);
    if is_tiff {
        return true;
    }
    // Olympus ORF
    if data[0] == 0x49 && data[1] == 0x49 && data[2] == 0x52 && data[3] == 0x4F {
        return true;
    }
    // Fuji RAF
    let fuji: [u8; 8] = [0x46, 0x55, 0x4A, 0x49, 0x46, 0x49, 0x4C, 0x4D];
    assert(fuji@ =~= fujifilm_sig());
    if crate::bytes::bytes_match_at(data, 0, fuji.as_slice()) {
        return true;
    }
    // Panasonic RW2 (TIFF variant with 0x55 marker)
    if data[0] == 0x49 && data[1] == 0x49 && data[2] == 0x55 && data[3] == 0x00 {
        return true;
    }
    // Canon CR3 (ISO BMFF with "crx " major brand in ftyp box)
    let ftyp: [u8; 4] = [0x66, 0x74, 0x79, 0x70];
    let crx: [u8; 4] = [0x63, 0x72, 0x78, 0x20];
    assert(ftyp@ =~= ftyp_sig());
    assert(crx@ =~= crx_sig());
    if crate::bytes::bytes_match_at(data, 4, ftyp.as_slice()) && crate::bytes::bytes_match_at(
        data,
        8,
        crx.as_slice(),
    ) {
        return true;
    }
    false
}

// ── Decode pipeline decisions ────────────────────────────────────────

/// Shortest input handed to a RAW decoder; shorter inputs are rejected as
/// truncated before parsing.
pub const MIN_RAW_INPUT_LEN: usize = 64;

/// Whether an image of `width × height` fits within `max_pixels`.
pub fn within_pixel_limit(width: u64, height: u64, max_pixels: u64) -> (r: bool)
    ensures
        r == (width as int * height as int <= max_pixels as int),
{
    proof {
        assert(width as int * height as int <= 0xFFFF_FFFF_FFFF_FFFF * 0xFFFF_FFFF_FFFF_FFFF) by (nonlinear_arith)
            requires
                width <= 0xFFFF_FFFF_FFFF_FFFFu64,
                height <= 0xFFFF_FFFF_FFFF_FFFFu64,
        ;
    }
    (width as u128) * (height as u128) <= max_pixels as u128
}

/// Sensor layout of decoded data with `cpp` components per pixel: more
/// than one means already-demosaiced linear RGB.
pub fn sensor_layout_for(cpp: usize) -> (r: SensorLayout)
    ensures
        r == (if cpp > 1 {
            SensorLayout::LinearRaw
        } else {
            SensorLayout::Bayer
        }),
{
    if cpp > 1 {
        SensorLayout::LinearRaw
    } else {
        SensorLayout::Bayer
    }
}

/// The camera's crop rectangle `[top, right, bottom, left]`, when any side
/// is cropped; each side truncated to 32 bits.
pub fn crop_rect_from(crops: [usize; 4]) -> (r: Option<[u32; 4]>)
    ensures
        r == (if crops@[0] > 0 || crops@[1] > 0 || crops@[2] > 0 || crops@[3] > 0 {
            Some([crops@[0] as u32, crops@[1] as u32, crops@[2] as u32, crops@[3] as u32])
        } else {
            None
        }),
{
    if crops[0] > 0 || crops[1] > 0 || crops[2] > 0 || crops[3] > 0 {
        Some([crops[0] as u32, crops[1] as u32, crops[2] as u32, crops[3] as u32])
    } else {
        None
    }
}

/// The size a probe reports for a sensor of `sensor` size: the crop area's
/// size when the camera gives one, else the active area's, else the
/// sensor's.
pub fn reported_size(
    crop: Option<(usize, usize)>,
    active: Option<(usize, usize)>,
    sensor: (usize, usize),
) -> (r: (usize, usize))
    ensures
        r == (match crop {
            Some(c) => c,
            None => match active {
                Some(a) => a,
                None => sensor,
            },
        }),
{
    match crop {
        Some(c) => c,
        None => match active {
            Some(a) => a,
            None => sensor,
        },
    }
}

/// The rectangle `(left, top, width, height)` a decode crops to: the crop
/// area when the camera gives one, else the active area.
pub fn crop_area_choice(
    crop: Option<(usize, usize, usize, usize)>,
    active: Option<(usize, usize, usize, usize)>,
) -> (r: Option<(usize, usize, usize, usize)>)
    ensures
        r == (if crop is Some {
            crop
        } else {
            active
        }),
{
    match crop {
        Some(c) => Some(c),
        None => active,
    }
}

/// Whether a CFA named by `sites` letters needs the generic demosaic: any
/// pattern larger than the four sites of a Bayer 2×2 tile.
pub fn needs_generic_demosaic(sites: usize) -> (r: bool)
    ensures
        r == (sites > 4),
{
    sites > 4
}

/// How a decoder interprets the sensor's photometric data.
#[derive(Clone, Copy, Debug, PartialEq, Eq, Structural)]
pub enum Photometric {
    /// A colour filter array, with the length of its pattern's name (one
    /// letter per filter site).
    Cfa(usize),
    /// Already-demosaiced linear RGB.
    LinearRaw,
    /// Anything else.
    Other,
}

/// Sensor layout of a photometric interpretation: a CFA named by more than
/// four sites is an X-Trans (6×6) pattern, a shorter one a Bayer (2×2)
/// pattern.
pub fn sensor_layout_of(photometric: Photometric) -> (r: SensorLayout)
    ensures
        r == match photometric {
            Photometric::Cfa(n) => if n > 4 {
                SensorLayout::XTrans
            } else {
                SensorLayout::Bayer
            },
            Photometric::LinearRaw => SensorLayout::LinearRaw,
            Photometric::Other => SensorLayout::Unknown,
        },
{
    match photometric {
        Photometric::Cfa(n) => if n > 4 {
            SensorLayout::XTrans
        } else {
            SensorLayout::Bayer
        },
        Photometric::LinearRaw => SensorLayout::LinearRaw,
        Photometric::Other => SensorLayout::Unknown,
    }
}

/// `a - b`, or 0 when `b` exceeds `a`.
pub open spec fn sat_sub(a: int, b: int) -> int {
    if a >= b {
        a - b
    } else {
        0
    }
}

/// The crop rectangle `[top, right, bottom, left]` of a crop area at
/// `(x, y)` of size `w × h` on a `sensor_width × sensor_height` sensor: the
/// margins it leaves on each side, none below zero.
pub fn crop_margins(sensor_width: u32, sensor_height: u32, x: u32, y: u32, w: u32, h: u32) -> (r: [u32; 4])
    ensures
        r@[0] == y,
        r@[1] == sat_sub(sensor_width as int, x + w),
        r@[2] == sat_sub(sensor_height as int, y + h),
        r@[3] == x,
{
    // Edges past 32 bits lie past any sensor: no margin remains there.
    let right_edge = x as u64 + w as u64;
    let bottom_edge = y as u64 + h as u64;
    let right = if sensor_width as u64 >= right_edge {
        (sensor_width as u64 - right_edge) as u32
    } else {
        0
    };
    let bottom = if sensor_height as u64 >= bottom_edge {
        (sensor_height as u64 - bottom_edge) as u32
    } else {
        0
    };
    [y, right, bottom, x]
}

/// The orientation a RAW decoder reports.
#[derive(Clone, Copy, Debug, PartialEq, Eq, Structural)]
pub enum RawOrientation {
    Normal,
    HorizontalFlip,
    Rotate180,
    VerticalFlip,
    Transpose,
    Rotate90,
    Transverse,
    Rotate270,
    Unknown,
}

/// Convert a decoder orientation to its EXIF value (1–8); unknown
/// orientations count as normal.
pub fn orientation_to_u16(orient: RawOrientation) -> (r: u16)
    ensures
        1 <= r <= 8,
        r == match orient {
            RawOrientation::Normal => 1u16,
            RawOrientation::HorizontalFlip => 2,
            RawOrientation::Rotate180 => 3,
            RawOrientation::VerticalFlip => 4,
            RawOrientation::Transpose => 5,
            RawOrientation::Rotate90 => 6,
            RawOrientation::Transverse => 7,
            RawOrientation::Rotate270 => 8,
            RawOrientation::Unknown => 1,
        },
{
    match orient {
        RawOrientation::Normal => 1,
        RawOrientation::HorizontalFlip => 2,
        RawOrientation::Rotate180 => 3,
        RawOrientation::VerticalFlip => 4,
        RawOrientation::Transpose => 5,
        RawOrientation::Rotate90 => 6,
        RawOrientation::Transverse => 7,
        RawOrientation::Rotate270 => 8,
        RawOrientation::Unknown => 1,
    }
}

/// A crop `[top, right, bottom, left]` leaves at least one row and column
/// of a `width × height` image.
pub open spec fn crop_is_valid(width: int, height: int, crops: Seq<usize>) -> bool {
    crops[0] + crops[2] < height && crops[3] + crops[1] < width
}

/// `out` is the region of `rgb` (a `width`-wide RGB image) that starts at
/// row `top`, column `left`, and is `new_w × new_h` pixels.
pub open spec fn is_cropped<T>(out: Seq<T>, rgb: Seq<T>, width: int, top: int, left: int, new_w: int, new_h: int) -> bool {
    &&& out.len() == new_w * new_h * 3
    &&& forall|r: int, c: int, k: int|
        0 <= r < new_h && 0 <= c < new_w && 0 <= k < 3 ==> #[trigger] crate::orient::px(
            out,
            new_w,
            3,
            r,
            c,
            k,
        ) == crate::orient::px(rgb, width, 3, r + top, c + left, k)
}

proof fn lemma_crop_index(r: int, c: int, k: int, width: int, height: int, top: int, left: int, new_w: int, new_h: int)
    requires
        0 <= r < new_h,
        0 <= c < new_w,
        0 <= k < 3,
        0 <= top,
        0 <= left,
        top + new_h <= height,
        left + new_w <= width,
    ensures
        0 <= ((r + top) * width + c + left) * 3 + k < width * height * 3,
        ((r + top) * width + left) * 3 + new_w * 3 <= width * height * 3,
        0 <= ((r + top) * width + left) * 3,
        (r * new_w + c) * 3 + k < new_w * new_h * 3,
        (r * new_w) * 3 + new_w * 3 == ((r + 1) * new_w) * 3,
{
    assert(0 <= ((r + top) * width + c + left) * 3 + k < width * height * 3) by (nonlinear_arith)
        requires
            0 <= r < new_h,
            0 <= c < new_w,
            0 <= k < 3,
            0 <= top,
            0 <= left,
            top + new_h <= height,
            left + new_w <= width,
    ;
    let big_r = r + top;
    assert(big_r * width + width <= height * width) by (nonlinear_arith)
        requires
            0 <= big_r < height,
            0 <= width,
    ;
    assert(((r + top) * width + left) * 3 + new_w * 3 <= width * height * 3) by (nonlinear_arith)
        requires
            big_r == r + top,
            big_r * width + width <= height * width,
            left + new_w <= width,
    ;
    assert(0 <= ((r + top) * width + left) * 3) by (nonlinear_arith)
        requires
            0 <= r,
            0 <= top,
            0 <= left,
            0 <= width,
    ;
    assert((r * new_w + c) * 3 + k < new_w * new_h * 3) by (nonlinear_arith)
        requires
            0 <= r < new_h,
            0 <= c < new_w,
            0 <= k < 3,
    ;
    assert((r * new_w) * 3 + new_w * 3 == ((r + 1) * new_w) * 3) by (nonlinear_arith);
}

/// The `new_w × new_h` region of an RGB image starting at row `top`,
/// column `left`.
fn copy_region<T: Copy>(
    rgb: &[T],
    width: usize,
    height: usize,
    top: usize,
    left: usize,
    new_w: usize,
    new_h: usize,
) -> (r: Vec<T>)
    requires
        rgb@.len() == width * height * 3,
        top + new_h <= height,
        left + new_w <= width,
    ensures
        is_cropped(r@, rgb@, width as int, top as int, left as int, new_w as int, new_h as int),
{
    if new_w == 0 || new_h == 0 {
        assert(new_w * new_h * 3 == 0) by (nonlinear_arith)
            requires
                new_w == 0 || new_h == 0,
        ;
        return Vec::new();
    }
    let n = rgb.len();
    let ghost src = rgb@;
    proof {
        assert(new_w * 3 <= width * height * 3) by (nonlinear_arith)
            requires
                new_w <= width,
                height >= 1,
        ;
    }
    let row_len = new_w * 3;
    let mut cropped: Vec<T> = Vec::new();
    let mut row: usize = 0;
    while row < new_h
        invariant
            src == rgb@,
            n == src.len(),
            src.len() == width * height * 3,
            new_w >= 1,
            new_h >= 1,
            row_len == new_w * 3,
            top + new_h <= height,
            left + new_w <= width,
            row <= new_h,
            cropped@.len() == row * new_w * 3,
            forall|r: int, c: int, k: int|
                0 <= r < row && 0 <= c < new_w && 0 <= k < 3 ==> #[trigger] crate::orient::px(
                    cropped@,
                    new_w as int,
                    3,
                    r,
                    c,
                    k,
                ) == crate::orient::px(src, width as int, 3, r + top, c + left, k),
        decreases new_h - row,
    {
        proof {
            lemma_crop_index(row as int, 0, 0, width as int, height as int, top as int, left as int, new_w as int, new_h as int);
        }
        let src_start = ((row + top) * width + left) * 3;
        let ghost before = cropped@;
        let mut i: usize = 0;
        while i < row_len
            invariant
                src == rgb@,
                n == src.len(),
                row_len == new_w * 3,
                src_start + row_len <= src.len(),
                i <= row_len,
                cropped@ == before + src.subrange(src_start as int, src_start + i),
            decreases row_len - i,
        {
            cropped.push(rgb[src_start + i]);
            i = i + 1;
            assert(cropped@ =~= before + src.subrange(src_start as int, src_start + i));
        }
        proof {
            assert forall|r: int, c: int, k: int|
                0 <= r < row + 1 && 0 <= c < new_w && 0 <= k < 3 implies #[trigger] crate::orient::px(
                    cropped@,
                    new_w as int,
                    3,
                    r,
                    c,
                    k,
                ) == crate::orient::px(src, width as int, 3, r + top, c + left, k) by {
                lemma_crop_index(r, c, k, width as int, height as int, top as int, left as int, new_w as int, new_h as int);
                if r < row {
                    assert((r * new_w + c) * 3 + k < row * new_w * 3) by (nonlinear_arith)
                        requires
                            0 <= r < row,
                            0 <= c < new_w,
                            0 <= k < 3,
                    ;
                    assert(cropped@[(r * new_w + c) * 3 + k] == before[(r * new_w + c) * 3 + k]);
                    assert(crate::orient::px(before, new_w as int, 3, r, c, k) == crate::orient::px(
                        src,
                        width as int,
                        3,
                        r + top,
                        c + left,
                        k,
                    ));
                } else {
                    assert((r * new_w + c) * 3 + k == before.len() + (c * 3 + k)) by (nonlinear_arith)
                        requires
                            r == row,
                            before.len() == row * new_w * 3,
                    ;
                    assert(((r + top) * width + c + left) * 3 + k == src_start + (c * 3 + k)) by (nonlinear_arith)
                        requires
                            r == row,
                            src_start == ((row + top) * width + left) * 3,
                    ;
                    let sub = src.subrange(src_start as int, src_start + row_len);
                    assert(c * 3 + k < new_w * 3) by (nonlinear_arith)
                        requires
                            0 <= c < new_w,
                            0 <= k < 3,
                    ;
                    assert(cropped@[before.len() + (c * 3 + k)] == sub[c * 3 + k]);
                    assert(sub[c * 3 + k] == src[src_start + (c * 3 + k)]);
                    assert(crate::orient::px(cropped@, new_w as int, 3, r, c, k) == cropped@[(r * new_w + c) * 3 + k]);
                    assert(crate::orient::px(src, width as int, 3, r + top, c + left, k) == src[((r + top) * width + (c + left)) * 3 + k]);
                    assert(((r + top) * width + (c + left)) * 3 + k == ((r + top) * width + c + left) * 3 + k);
                }
            }
            assert(cropped@.len() == (row + 1) * new_w * 3) by (nonlinear_arith)
                requires
                    cropped@.len() == row * new_w * 3 + new_w * 3,
            ;
        }
        row = row + 1;
    }
    assert(cropped@.len() == new_w * new_h * 3) by (nonlinear_arith)
        requires
            cropped@.len() == new_h * new_w * 3,
    ;
    cropped
}

/// Apply a crop `[top, right, bottom, left]` (rawloader convention) to an
/// RGB image; a crop that would leave no rows or columns returns the image
/// unchanged.
pub fn apply_crop<T: Copy>(rgb: &[T], width: usize, height: usize, crops: &[usize; 4]) -> (r: (
    Vec<T>,
    usize,
    usize,
))
    requires
        rgb@.len() == width * height * 3,
    ensures
        crop_is_valid(width as int, height as int, crops@) ==> {
            &&& r.1 == width - crops@[3] - crops@[1]
            &&& r.2 == height - crops@[0] - crops@[2]
            &&& is_cropped(r.0@, rgb@, width as int, crops@[0] as int, crops@[3] as int, r.1 as int, r.2 as int)
        },
        !crop_is_valid(width as int, height as int, crops@) ==> r.0@ == rgb@ && r.1 == width && r.2
            == height,
{
    let top = crops[0];
    let right = crops[1];
    let bottom = crops[2];
    let left = crops[3];
    // Validate crop dimensions
    if top >= height || bottom >= height - top || left >= width || right >= width - left {
        // Invalid crop — return uncropped
        return (vstd::slice::slice_to_vec(rgb), width, height);
    }
    let new_w = width - left - right;
    let new_h = height - top - bottom;
    (copy_region(rgb, width, height, top, left, new_w, new_h), new_w, new_h)
}

// ── Format detection ─────────────────────────────────────────────────

/// Whether the header is a DNG one (a TIFF with the DNGVersion tag id near
/// its start).
pub fn is_dng_header(data: &[u8]) -> (r: bool)
    ensures
        r == spec_is_dng_data(data@),
{
    is_dng_data(data)
}

/// A supported RAW file whose header is DNG.
pub fn detect_dng(data: &[u8]) -> (r: bool)
    ensures
        r == (spec_is_raw_file(data@) && spec_is_dng_data(data@)),
{
    is_raw_file(data) && is_dng_header(data)
}

/// A supported RAW file whose header is not DNG.
pub fn detect_raw(data: &[u8]) -> (r: bool)
    ensures
        r == (spec_is_raw_file(data@) && !spec_is_dng_data(data@)),
{
    is_raw_file(data) && !is_dng_header(data)
}

/// Every DNG header belongs to a supported RAW file.
pub proof fn lemma_dng_is_raw(d: Seq<u8>)
    ensures
        spec_is_dng_data(d) ==> spec_is_raw_file(d),
{
}

/// The DNG and generic-RAW detectors never both accept an input, and
/// together they accept exactly the supported RAW files; the DNG detector
/// accepts exactly the DNG headers.
pub proof fn law_detectors_partition(d: Seq<u8>)
    ensures
        !((spec_is_raw_file(d) && spec_is_dng_data(d)) && (spec_is_raw_file(d) && !spec_is_dng_data(d))),
        ((spec_is_raw_file(d) && spec_is_dng_data(d)) || (spec_is_raw_file(d) && !spec_is_dng_data(d)))
            == spec_is_raw_file(d),
        (spec_is_raw_file(d) && spec_is_dng_data(d)) == spec_is_dng_data(d),
{
    lemma_dng_is_raw(d);
}

/// The two format probes agree: on inputs of at least 12 bytes that start
/// with neither a JPEG SOI marker nor the Olympus `IIRS` signature,
/// [`crate::classify::classify`] reports a raw format exactly when
/// [`is_raw_file`] accepts the input.
pub proof fn law_classify_agrees_with_is_raw_file(d: Seq<u8>)
    requires
        d.len() >= 12,
        !crate::classify::is_jpeg_soi(d),
        !(d[0] == 0x49 && d[1] == 0x49 && d[2] == 0x52 && d[3] == 0x53),
    ensures
        crate::classify::spec_classify(d).spec_is_raw() == spec_is_raw_file(d),
{
    if matches_at(d, 0, fujifilm_sig()) {
        assert(d.subrange(0, 8)[0] == d[0]);
        assert(d.subrange(0, 8)[2] == d[2]);
        assert(d.subrange(0, 8)[4] == d[4]);
        if matches_at(d, 4, ftyp_sig()) {
            assert(d.subrange(4, 8)[0] == d[4]);
        }
    }
}

/// Number of bits `n` takes: `n < 2^bit_length(n)` and, for `n > 0`,
/// `2^(bit_length(n) - 1) <= n`.
proof fn lemma_bit_length_range(n: nat)
    ensures
        n < vstd::arithmetic::power2::pow2(bit_length(n)),
        n > 0 ==> vstd::arithmetic::power2::pow2((bit_length(n) - 1) as nat) <= n,
    decreases n,
{
    vstd::arithmetic::power2::lemma2_to64();
    if n > 0 {
        let h = n / 2;
        lemma_bit_length_range(h);
        let b = bit_length(n);
        assert(b == 1 + bit_length(h));
        vstd::arithmetic::power2::lemma_pow2_unfold(b);
        assert(vstd::arithmetic::power2::pow2(b) == 2 * vstd::arithmetic::power2::pow2(bit_length(h)));
        if h > 0 {
            vstd::arithmetic::power2::lemma_pow2_unfold(bit_length(h));
        }
    }
}

/// The bit depth estimated from a non-zero white level is the number of
/// bits needed to represent it: `2^(bits-1) <= wl < 2^bits`.
pub proof fn law_bits_represent_whitelevel(wl: u32)
    requires
        wl > 0,
    ensures
        wl < vstd::arithmetic::power2::pow2(spec_bits_from_whitelevel(wl)),
        vstd::arithmetic::power2::pow2((spec_bits_from_whitelevel(wl) - 1) as nat) <= wl,
{
    lemma_bit_length_range(wl as nat);
}

/// Crop an RGB image to the rectangle `(left, top, width, height)`, when
/// given and within the image; otherwise return the image unchanged.
pub fn apply_rect_crop<T: Copy>(
    rgb: &[T],
    width: usize,
    height: usize,
    rect: Option<(usize, usize, usize, usize)>,
) -> (r: (Vec<T>, usize, usize))
    requires
        rgb@.len() == width * height * 3,
    ensures
        match rect {
            Some((left, top, new_w, new_h)) if left + new_w <= width && top + new_h <= height => {
                &&& r.1 == new_w
                &&& r.2 == new_h
                &&& is_cropped(r.0@, rgb@, width as int, top as int, left as int, new_w as int, new_h as int)
            },
            _ => r.0@ == rgb@ && r.1 == width && r.2 == height,
        },
{
    let (left, top, new_w, new_h) = match rect {
        Some(rc) => rc,
        None => return (vstd::slice::slice_to_vec(rgb), width, height),
    };
    // Validate
    if left > width || new_w > width - left || top > height || new_h > height - top {
        return (vstd::slice::slice_to_vec(rgb), width, height);
    }
    (copy_region(rgb, width, height, top, left, new_w, new_h), new_w, new_h)
}

/// The first three channels of each pixel of `cpp`-channel data, with
/// `pad` for channels past the end of the data.
pub open spec fn rgb_channel<T>(data: Seq<T>, cpp: int, pad: T, i: int, k: int) -> T {
    if i * cpp + k < data.len() {
        data[i * cpp + k]
    } else {
        pad
    }
}

/// The RGB of `pixel_count` pixels of `cpp`-channel data: the first three
/// channels of each, `pad` past the end of the data.
pub open spec fn is_rgb_of<T>(r: Seq<T>, data: Seq<T>, pixel_count: int, cpp: int, pad: T) -> bool {
    &&& r.len() == pixel_count * 3
    &&& forall|i: int, k: int|
        0 <= i < pixel_count && 0 <= k < 3 ==> #[trigger] r[i * 3 + k] == rgb_channel(data, cpp, pad, i, k)
}

/// Append the RGB of each of `pixel_count` pixels to the empty `rgb`.
fn push_rgb_from_cpp<T: Copy>(rgb: &mut Vec<T>, data: &[T], pixel_count: usize, cpp: usize, pad: T)
    requires
        old(rgb)@.len() == 0,
        pixel_count * cpp + 2 <= usize::MAX,
    ensures
        is_rgb_of(final(rgb)@, data@, pixel_count as int, cpp as int, pad),
{
    let mut i: usize = 0;
    while i < pixel_count
        invariant
            pixel_count * cpp + 2 <= usize::MAX,
            i <= pixel_count,
            rgb@.len() == i * 3,
            forall|j: int, k: int|
                0 <= j < i && 0 <= k < 3 ==> #[trigger] rgb@[j * 3 + k] == rgb_channel(
                    data@,
                    cpp as int,
                    pad,
                    j,
                    k,
                ),
        decreases pixel_count - i,
    {
        proof {
            assert(i * cpp + 2 <= usize::MAX) by (nonlinear_arith)
                requires
                    i < pixel_count,
                    pixel_count * cpp + 2 <= usize::MAX,
            ;
        }
        let base = i * cpp;
        let ghost before = rgb@;
        rgb.push(if base < data.len() { data[base] } else { pad });
        rgb.push(if base + 1 < data.len() { data[base + 1] } else { pad });
        rgb.push(if base + 2 < data.len() { data[base + 2] } else { pad });
        proof {
            assert forall|j: int, k: int| 0 <= j < i + 1 && 0 <= k < 3 implies #[trigger] rgb@[j * 3
                + k] == rgb_channel(data@, cpp as int, pad, j, k) by {
                if j < i {
                    assert(j * 3 + k < i * 3) by (nonlinear_arith)
                        requires
                            0 <= j < i,
                            0 <= k < 3,
                    ;
                    assert(rgb@[j * 3 + k] == before[j * 3 + k]);
                } else {
                    assert(j * 3 + k == i * 3 + k);
                }
            }
        }
        i = i + 1;
    }
}

/// With `cpp == 3` and enough data, the RGB is the data's first
/// `pixel_count * 3` values.
proof fn lemma_rgb_prefix<T>(data: Seq<T>, pixel_count: int, pad: T)
    requires
        0 <= pixel_count,
        data.len() >= pixel_count * 3,
    ensures
        is_rgb_of(data.subrange(0, pixel_count * 3), data, pixel_count, 3, pad),
{
    let out = data.subrange(0, pixel_count * 3);
    assert forall|i: int, k: int| 0 <= i < pixel_count && 0 <= k < 3 implies #[trigger] out[i * 3 + k]
        == rgb_channel(data, 3, pad, i, k) by {
        assert(i * 3 + k < pixel_count * 3) by (nonlinear_arith)
            requires
                0 <= i < pixel_count,
                0 <= k < 3,
        ;
    }
}

/// Extract RGB from `cpp`-interleaved data (`cpp >= 3`): the first three
/// channels of each of `pixel_count` pixels, `pad` where the data ends
/// early. For `cpp == 3` with enough data this is a copy of its prefix.
pub fn extract_rgb_from_cpp<T: Copy>(data: &[T], pixel_count: usize, cpp: usize, pad: T) -> (r: Vec<T>)
    requires
        pixel_count * 3 <= usize::MAX,
        pixel_count * cpp + 2 <= usize::MAX,
    ensures
        is_rgb_of(r@, data@, pixel_count as int, cpp as int, pad),
{
    if cpp == 3 {
        let len = pixel_count * 3;
        if data.len() >= len {
            proof {
                lemma_rgb_prefix(data@, pixel_count as int, pad);
            }
            return vstd::slice::slice_to_vec(vstd::slice::slice_subrange(data, 0, len));
        }
    }
    let mut rgb: Vec<T> = Vec::new();
    push_rgb_from_cpp(&mut rgb, data, pixel_count, cpp, pad);
    rgb
}

/// Like [`extract_rgb_from_cpp`], but allocates the output honoring the
/// allocation preference, fallible by default: an output size that
/// overflows the address space is an [`RawError::OutOfMemory`], and a
/// refused reservation a memory [`RawError::LimitExceeded`].
pub fn extract_rgb_from_cpp_fallible<T: Copy>(
    data: &[T],
    pixel_count: usize,
    cpp: usize,
    pad: T,
    alloc_pref: crate::alloc_util::AllocPref,
) -> (r: Result<Vec<T>, RawError>)
    requires
        pixel_count * cpp + 2 <= usize::MAX,
    ensures
        pixel_count * 3 > usize::MAX <==> r matches Err(RawError::OutOfMemory(_)),
        pixel_count * 3 <= usize::MAX && !crate::alloc_util::spec_resolve_fallible(alloc_pref, true)
            ==> r is Ok,
        r matches Err(e) ==> e is OutOfMemory || e matches RawError::LimitExceeded(RawLimitKind::Memory, _),
        r matches Ok(v) ==> is_rgb_of(v@, data@, pixel_count as int, cpp as int, pad),
{
    // Full-image RGB output sized from the (untrusted) sensor dims: default
    // fallible.
    let len = match pixel_count.checked_mul(3) {
        Some(n) => n,
        None => {
            return Err(RawError::OutOfMemory(String::from_str("RGB buffer size overflows usize")));
        },
    };
    let mut rgb: Vec<T> = crate::alloc_util::vec_with_capacity(alloc_pref, true, len)?;
    // Fills the reserved buffer; with `cpp == 3` this copies the data's prefix.
    push_rgb_from_cpp(&mut rgb, data, pixel_count, cpp, pad);
    Ok(rgb)
}

} // verus!
