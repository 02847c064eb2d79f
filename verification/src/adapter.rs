//! Decisions of the generic codec adapter: which container a file is
//! reported as, the orientation and geometry of what a decode outputs, and
//! how much memory and time a decode is estimated to take.
use vstd::prelude::*;

use crate::decode::{spec_is_dng_data, spec_is_raw_file, OutputMode};
use crate::orient::{
    hint_bakes, hint_is_valid, is_exif_orientation, oriented_dims, resolve_orientation,
    spec_report_for_hint, spec_resolve_orientation, OrientationHint,
};

verus! {

// ── Container ────────────────────────────────────────────────────────

/// Which format definition a file is reported under.
#[derive(Clone, Copy, Debug, PartialEq, Eq, Structural)]
pub enum RawContainer {
    /// Digital Negative.
    Dng,
    /// Any other camera RAW.
    Raw,
}

/// A recognized RAW file whose TIFF header carries the DNGVersion tag is a
/// DNG; everything else is reported as generic camera RAW.
pub fn detect_format(data: &[u8]) -> (r: RawContainer)
    ensures
        r == (if spec_is_raw_file(data@) && spec_is_dng_data(data@) {
            RawContainer::Dng
        } else {
            RawContainer::Raw
        }),
{
    if crate::decode::is_raw_file(data) && crate::decode::is_dng_data(data) {
        RawContainer::Dng
    } else {
        RawContainer::Raw
    }
}

// ── Orientation ──────────────────────────────────────────────────────

/// The EXIF orientation of a decoder's orientation tag: its low byte when
/// that is an EXIF value, upright otherwise.
pub open spec fn spec_exif_orientation_of(tag: u16) -> u8 {
    let b = (tag % 256) as u8;
    if is_exif_orientation(b) {
        b
    } else {
        1
    }
}

/// The EXIF orientation recorded for a decoder's orientation tag.
pub fn exif_orientation_of(tag: u16) -> (r: u8)
    ensures
        r == spec_exif_orientation_of(tag),
        is_exif_orientation(r),
{
    let b = (tag % 256) as u8;
    if 1 <= b && b <= 8 {
        b
    } else {
        1
    }
}

/// The orientation a decode under `hint` bakes into its output: none for
/// `Preserve`, the resolved orientation otherwise.
pub open spec fn spec_applied_orientation(hint: OrientationHint, intrinsic: u8) -> u8 {
    if hint is Preserve {
        1
    } else {
        spec_resolve_orientation(hint, intrinsic)
    }
}

/// Output width, height and the orientation baked into them, for an image
/// of stored size `width × height` and intrinsic orientation `intrinsic`
/// decoded under `hint`.
pub fn output_geometry(hint: OrientationHint, width: u32, height: u32, intrinsic: u8) -> (r: (
    u32,
    u32,
    u8,
))
    requires
        is_exif_orientation(intrinsic),
        hint_is_valid(hint),
    ensures
        r.2 == spec_applied_orientation(hint, intrinsic),
        (r.0 as int, r.1 as int) == oriented_dims(r.2 as u16, width as int, height as int),
{
    let resolved = if hint_bakes(hint) {
        resolve_orientation(hint, intrinsic)
    } else {
        1
    };
    if 5 <= resolved && resolved <= 8 {
        (height, width, resolved)
    } else {
        (width, height, resolved)
    }
}

/// What a decode outputs and what a probe reports agree: for every hint,
/// the output size is the size a probe reports.
pub proof fn law_output_size_matches_probe(hint: OrientationHint, width: int, height: int, intrinsic: u8)
    requires
        is_exif_orientation(intrinsic),
        hint_is_valid(hint),
    ensures
        ({
            let probe = spec_report_for_hint(hint, width, height, intrinsic);
            oriented_dims(spec_applied_orientation(hint, intrinsic) as u16, width, height) == (
                probe.0,
                probe.1,
            )
        }),
{
}

// ── Output ───────────────────────────────────────────────────────────

/// The output mode a decode uses: linear when the caller prefers 32-bit
/// float RGB output, the configured mode otherwise.
pub fn preferred_output_mode(configured: OutputMode, prefers_rgb_f32: bool) -> (r: OutputMode)
    ensures
        r == (if prefers_rgb_f32 {
            OutputMode::Linear
        } else {
            configured
        }),
{
    if prefers_rgb_f32 {
        OutputMode::Linear
    } else {
        configured
    }
}

/// Bytes per output pixel: RGB16 for a develop, RGB f32 otherwise.
pub open spec fn spec_output_bytes_per_pixel(mode: OutputMode) -> int {
    match mode {
        OutputMode::Develop => 6,
        _ => 12,
    }
}

/// Estimated size in bytes of the output buffer of a `width × height`
/// decode in `mode`.
pub fn estimated_output_bytes(width: u32, height: u32, mode: OutputMode) -> (r: u64)
    requires
        width * height * spec_output_bytes_per_pixel(mode) <= u64::MAX,
    ensures
        r == width * height * spec_output_bytes_per_pixel(mode),
{
    let bytes_per_pixel: u64 = match mode {
        OutputMode::Develop => 6,
        OutputMode::Linear | OutputMode::CameraRaw => 12,
    };
    let w = width as u64;
    let h = height as u64;
    proof {
        assert(w * h <= w * h * bytes_per_pixel) by (nonlinear_arith)
            requires
                bytes_per_pixel >= 1,
                w >= 0,
                h >= 0,
        ;
    }
    w * h * bytes_per_pixel
}

// ── Resource estimate ────────────────────────────────────────────────

/// Fixed memory overhead of a decode: 24 MiB.
pub const FIXED_OVERHEAD_BYTES: u64 = 25165824;

/// Bytes per pixel of the three RGB f32 buffers alive at the peak.
pub const WORKING_SET_BYTES_PER_PIXEL: u64 = 36;

/// Pixels decoded per millisecond.
pub const PIXELS_PER_MS: u64 = 50000;

/// `a` and `b` multiplied, saturating at `u64::MAX`.
pub open spec fn sat_mul(a: int, b: int) -> int {
    if a * b > u64::MAX {
        u64::MAX as int
    } else {
        a * b
    }
}

/// `a` and `b` added, saturating at `u64::MAX`.
pub open spec fn sat_add(a: int, b: int) -> int {
    if a + b > u64::MAX {
        u64::MAX as int
    } else {
        a + b
    }
}

/// Estimated peak memory (bytes) and wall time (milliseconds) to decode an
/// image of `pixels` pixels: a fixed overhead plus three RGB f32 frames,
/// at about fifty million pixels per second.
pub fn decode_resource_estimate(pixels: u64) -> (r: (u64, u64))
    ensures
        r.0 == sat_add(FIXED_OVERHEAD_BYTES as int, sat_mul(pixels as int, WORKING_SET_BYTES_PER_PIXEL as int)),
        r.1 == pixels / PIXELS_PER_MS,
{
    let working_set = match pixels.checked_mul(WORKING_SET_BYTES_PER_PIXEL) {
        Some(v) => v,
        None => u64::MAX,
    };
    let peak = FIXED_OVERHEAD_BYTES.saturating_add(working_set);
    let wall_ms = pixels / PIXELS_PER_MS;
    (peak, wall_ms)
}

} // verus!
