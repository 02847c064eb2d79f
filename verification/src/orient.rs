//! EXIF orientation transforms for decoded images.
//!
//! Orientation is a pure pixel permutation: each output pixel is a copy of
//! exactly one input pixel, chosen by the EXIF orientation value:
//! 1 normal, 2 horizontal flip, 3 rotate 180°, 4 vertical flip,
//! 5 transpose, 6 rotate 90° CW, 7 transverse, 8 rotate 270° CW.
//! Orientations 5–8 swap width and height. After applying, the image's
//! orientation should be recorded as 1 (Normal).
use vstd::prelude::*;

verus! {

/// Output dimensions `(width, height)` after applying orientation `o`.
pub open spec fn oriented_dims(o: u16, w: int, h: int) -> (int, int) {
    if 5 <= o <= 8 {
        (h, w)
    } else {
        (w, h)
    }
}

/// The stored pixel `(row, col)` shown at display position `(dr, dc)` under
/// orientation `o` of a `w × h` stored image.
pub open spec fn source_of(o: u16, w: int, h: int, dr: int, dc: int) -> (int, int) {
    if o == 2 {
        (dr, w - 1 - dc)
    } else if o == 3 {
        (h - 1 - dr, w - 1 - dc)
    } else if o == 4 {
        (h - 1 - dr, dc)
    } else if o == 5 {
        (dc, dr)
    } else if o == 6 {
        (h - 1 - dc, dr)
    } else if o == 7 {
        (h - 1 - dc, w - 1 - dr)
    } else if o == 8 {
        (dc, w - 1 - dr)
    } else {
        (dr, dc)
    }
}

/// Element `k` of pixel `(r, c)` in a tightly packed row-major buffer of
/// width `w` with `bpp` elements per pixel.
pub open spec fn px<T>(s: Seq<T>, w: int, bpp: int, r: int, c: int, k: int) -> T {
    s[(r * w + c) * bpp + k]
}

/// `out` is `data` (a `w × h` image of `bpp` elements per pixel) with
/// orientation `o` applied: each output pixel is the source pixel that
/// [`source_of`] names, element for element.
pub open spec fn is_oriented<T>(out: Seq<T>, data: Seq<T>, w: int, h: int, bpp: int, o: u16) -> bool {
    let nw = oriented_dims(o, w, h).0;
    let nh = oriented_dims(o, w, h).1;
    &&& out.len() == nw * nh * bpp
    &&& forall|dr: int, dc: int, k: int|
        0 <= dr < nh && 0 <= dc < nw && 0 <= k < bpp ==> #[trigger] px(out, nw, bpp, dr, dc, k)
            == px(data, w, bpp, source_of(o, w, h, dr, dc).0, source_of(o, w, h, dr, dc).1, k)
}

proof fn lemma_index_in_bounds(r: int, c: int, k: int, w: int, h: int, b: int)
    requires
        0 <= r < h,
        0 <= c < w,
        0 <= k < b,
    ensures
        0 <= (r * w + c) * b + k < w * h * b,
        (r * w + c) * b + b <= w * h * b,
        b > 0 ==> 0 <= r * w <= r * w + c <= (r * w + c) * b,
        (r * w + c + 1) * b == (r * w + c) * b + b,
        ((r + 1) * w) * b == (r * w + w) * b,
        (r * w + c) * b + k == (r * w + c) * b + k,
{
    assert(0 <= (r * w + c) * b + k < w * h * b) by (nonlinear_arith)
        requires
            0 <= r < h,
            0 <= c < w,
            0 <= k < b,
    ;
    assert((r * w + c) * b + b <= w * h * b) by (nonlinear_arith)
        requires
            0 <= r < h,
            0 <= c < w,
            0 <= k < b,
    ;
    assert((r * w + c + 1) * b == (r * w + c) * b + b) by (nonlinear_arith);
    assert(b > 0 ==> 0 <= r * w <= r * w + c <= (r * w + c) * b) by (nonlinear_arith)
        requires
            0 <= r < h,
            0 <= c < w,
    ;
    assert(((r + 1) * w) * b == (r * w + w) * b) by (nonlinear_arith);
}

proof fn lemma_index_before(r: int, c: int, k: int, dr: int, dc: int, w: int, b: int)
    requires
        0 <= r,
        0 <= c < w,
        0 <= k < b,
        0 <= dc,
        r < dr || (r == dr && c < dc),
    ensures
        0 <= (r * w + c) * b + k < (dr * w + dc) * b,
{
    assert(r * w + c < dr * w + dc) by (nonlinear_arith)
        requires
            0 <= c < w,
            0 <= dc,
            r < dr || (r == dr && c < dc),
    ;
    assert(0 <= (r * w + c) * b + k < (dr * w + dc) * b) by (nonlinear_arith)
        requires
            0 <= r,
            0 <= c,
            0 <= k < b,
            r * w + c < dr * w + dc,
            0 <= w,
    ;
}

/// The source pixel of display position `(dr, dc)` under orientation `o`.
fn source_coord(o: u16, w: usize, h: usize, dr: usize, dc: usize) -> (r: (usize, usize))
    requires
        0 <= dr < oriented_dims(o, w as int, h as int).1,
        0 <= dc < oriented_dims(o, w as int, h as int).0,
    ensures
        r.0 == source_of(o, w as int, h as int, dr as int, dc as int).0,
        r.1 == source_of(o, w as int, h as int, dr as int, dc as int).1,
        r.0 < h,
        r.1 < w,
{
    match o {
        2 => (dr, w - 1 - dc),
        3 => (h - 1 - dr, w - 1 - dc),
        4 => (h - 1 - dr, dc),
        5 => (dc, dr),
        6 => (h - 1 - dc, dr),
        7 => (h - 1 - dc, w - 1 - dr),
        8 => (dc, w - 1 - dr),
        _ => (dr, dc),
    }
}

/// Pixel remap: copies whole `bpp`-element pixels from `src` (a tightly
/// packed `src_w × src_h` image) into a fresh buffer in display order, each
/// display pixel taken from the stored pixel that orientation `o` maps it
/// to.
fn remap<T: Copy>(src: &[T], src_w: usize, src_h: usize, bpp: usize, o: u16) -> (out: Vec<T>)
    requires
        src@.len() == src_w * src_h * bpp,
    ensures
        is_oriented(out@, src@, src_w as int, src_h as int, bpp as int, o),
{
    let new_w = if 5 <= o && o <= 8 {
        src_h
    } else {
        src_w
    };
    let new_h = if 5 <= o && o <= 8 {
        src_w
    } else {
        src_h
    };
    let ghost w = src_w as int;
    let ghost h = src_h as int;
    let ghost b = bpp as int;
    if bpp == 0 {
        let empty: Vec<T> = Vec::new();
        assert(new_w * new_h * b == 0) by (nonlinear_arith)
            requires
                b == 0,
        ;
        return empty;
    }
    assert(new_w * new_h * b == w * h * b) by (nonlinear_arith)
        requires
            (new_w == w && new_h == h) || (new_w == h && new_h == w),
    ;
    let mut out: Vec<T> = Vec::new();
    let mut dr: usize = 0;
    assert((0 * new_w) * b == 0) by (nonlinear_arith);
    while dr < new_h
        invariant
            src@.len() == w * h * b,
            src@.len() == src.len(),
            b > 0,
            w == src_w,
            h == src_h,
            b == bpp,
            new_w == oriented_dims(o, w, h).0,
            new_h == oriented_dims(o, w, h).1,
            new_w * new_h * b == w * h * b,
            dr <= new_h,
            out@.len() == (dr * new_w) * b,
            forall|r: int, c: int, k: int|
                0 <= r < dr && 0 <= c < new_w && 0 <= k < b ==> #[trigger] px(
                    out@,
                    new_w as int,
                    b,
                    r,
                    c,
                    k,
                ) == px(src@, w, b, source_of(o, w, h, r, c).0, source_of(o, w, h, r, c).1, k),
        decreases new_h - dr,
    {
        let mut dc: usize = 0;
        proof {
            assert((dr * new_w + 0) * b == (dr * new_w) * b);
        }
        while dc < new_w
            invariant
                src@.len() == w * h * b,
                src@.len() == src.len(),
                b > 0,
                w == src_w,
                h == src_h,
                b == bpp,
                new_w == oriented_dims(o, w, h).0,
                new_h == oriented_dims(o, w, h).1,
                new_w * new_h * b == w * h * b,
                dr < new_h,
                dc <= new_w,
                out@.len() == (dr * new_w + dc) * b,
                forall|r: int, c: int, k: int|
                    0 <= r && 0 <= c < new_w && 0 <= k < b && (r < dr || (r == dr && c < dc))
                        ==> #[trigger] px(out@, new_w as int, b, r, c, k) == px(
                        src@,
                        w,
                        b,
                        source_of(o, w, h, r, c).0,
                        source_of(o, w, h, r, c).1,
                        k,
                    ),
            decreases new_w - dc,
        {
            let (sr, sc) = source_coord(o, src_w, src_h, dr, dc);
            proof {
                lemma_index_in_bounds(sr as int, sc as int, 0, w, h, b);
                lemma_index_in_bounds(dr as int, dc as int, 0, new_w as int, new_h as int, b);
            }
            let si = (sr * src_w + sc) * bpp;
            let ghost start = out@.len() as int;
            let ghost before = out@;
            let mut k: usize = 0;
            while k < bpp
                invariant
                    src@.len() == w * h * b,
                    src@.len() == src.len(),
                    b == bpp,
                    si + b <= src@.len(),
                    si == (sr * w + sc) * b,
                    start == (dr * new_w + dc) * b,
                    out@.len() == start + k,
                    k <= bpp,
                    forall|i: int| 0 <= i < start ==> #[trigger] out@[i] == before[i],
                    before.len() == start,
                    forall|j: int| 0 <= j < k ==> #[trigger] out@[start + j] == src@[si + j],
                decreases bpp - k,
            {
                out.push(src[si + k]);
                k = k + 1;
            }
            proof {
                lemma_index_in_bounds(sr as int, sc as int, 0, w, h, b);
            }
            assert forall|r: int, c: int, kk: int|
                0 <= r && 0 <= c < new_w && 0 <= kk < b && (r < dr || (r == dr && c < dc + 1))
                    implies #[trigger] px(out@, new_w as int, b, r, c, kk) == px(
                    src@,
                    w,
                    b,
                    source_of(o, w, h, r, c).0,
                    source_of(o, w, h, r, c).1,
                    kk,
                ) by {
                if r == dr && c == dc {
                    assert(px(out@, new_w as int, b, r, c, kk) == out@[start + kk]);
                    assert(out@[start + kk] == src@[si + kk]);
                    assert(sr == source_of(o, w, h, r, c).0);
                    assert(sc == source_of(o, w, h, r, c).1);
                    assert(px(src@, w, b, sr as int, sc as int, kk) == src@[si + kk]);
                } else {
                    lemma_index_before(r, c, kk, dr as int, dc as int, new_w as int, b);
                    assert(px(out@, new_w as int, b, r, c, kk) == before[(r * new_w + c) * b + kk]);
                    assert(px(before, new_w as int, b, r, c, kk) == px(
                        src@,
                        w,
                        b,
                        source_of(o, w, h, r, c).0,
                        source_of(o, w, h, r, c).1,
                        kk,
                    ));
                }
            }
            dc = dc + 1;
        }
        proof {
            assert((dr * new_w + new_w) * b == ((dr + 1) * new_w) * b) by (nonlinear_arith);
        }
        dr = dr + 1;
    }
    out
}

/// Apply an EXIF orientation to a tightly-packed pixel buffer of arbitrary
/// bytes-per-pixel, moving whole `bpp`-sized pixels (never touching their
/// contents — so it is format-, channel-, and bit-depth-agnostic and
/// bit-exact for any layout).
///
/// `data` is `width * height * bpp` bytes, row-major, tight stride.
/// Returns `(out, new_width, new_height)`; width and height swap for the
/// four axis-swapping orientations (5–8). Values other than 2–8 copy the
/// data through unchanged.
pub fn apply_orientation_bytes(
    data: &[u8],
    width: usize,
    height: usize,
    bpp: usize,
    orientation: u16,
) -> (r: (Vec<u8>, usize, usize))
    requires
        data@.len() == width * height * bpp,
    ensures
        r.1 == oriented_dims(orientation, width as int, height as int).0,
        r.2 == oriented_dims(orientation, width as int, height as int).1,
        is_oriented(r.0@, data@, width as int, height as int, bpp as int, orientation),
{
    match orientation {
        2 | 3 | 4 => (remap(data, width, height, bpp, orientation), width, height),
        // Orientations 5–8 swap width and height: new dims = (h, w).
        5 | 6 | 7 | 8 => (remap(data, width, height, bpp, orientation), height, width),
        // Identity / out-of-range: copy through unchanged.
        _ => {
            let out = vstd::slice::slice_to_vec(data);
            (out, width, height)
        },
    }
}

/// Apply an EXIF orientation transform to interleaved RGB pixel data (three
/// elements per pixel).
///
/// Returns `(pixels, new_width, new_height)`; width and height swap for
/// orientations 5–8, and values other than 2–8 return the pixels as they
/// are.
pub fn apply_orientation<T: Copy>(rgb: Vec<T>, width: usize, height: usize, orientation: u16) -> (r: (
    Vec<T>,
    usize,
    usize,
))
    requires
        rgb@.len() == width * height * 3,
    ensures
        r.1 == oriented_dims(orientation, width as int, height as int).0,
        r.2 == oriented_dims(orientation, width as int, height as int).1,
        is_oriented(r.0@, rgb@, width as int, height as int, 3, orientation),
{
    match orientation {
        2 | 3 | 4 => (remap(rgb.as_slice(), width, height, 3, orientation), width, height),
        5 | 6 | 7 | 8 => (remap(rgb.as_slice(), width, height, 3, orientation), height, width),
        _ => (rgb, width, height),
    }
}

/// The orientation that undoes `o`: rotations by 90° and 270° undo each
/// other; every other orientation undoes itself.
pub open spec fn inverse_orientation(o: u16) -> u16 {
    if o == 6 {
        8
    } else if o == 8 {
        6
    } else {
        o
    }
}

proof fn lemma_source_in_bounds(o: u16, w: int, h: int, dr: int, dc: int)
    requires
        0 <= dr < oriented_dims(o, w, h).1,
        0 <= dc < oriented_dims(o, w, h).0,
    ensures
        0 <= source_of(o, w, h, dr, dc).0 < h,
        0 <= source_of(o, w, h, dr, dc).1 < w,
{
}

proof fn lemma_source_inverse(o: u16, w: int, h: int, dr: int, dc: int)
    requires
        0 <= dr < h,
        0 <= dc < w,
    ensures
        ({
            let nw = oriented_dims(o, w, h).0;
            let nh = oriented_dims(o, w, h).1;
            let m = source_of(inverse_orientation(o), nw, nh, dr, dc);
            source_of(o, w, h, m.0, m.1) == (dr, dc)
        }),
{
}

proof fn lemma_inverse_dims(o: u16, w: int, h: int)
    ensures
        oriented_dims(
            inverse_orientation(o),
            oriented_dims(o, w, h).0,
            oriented_dims(o, w, h).1,
        ) == (w, h),
{
}

proof fn lemma_decompose(i: int, w: int, b: int) -> (t: (int, int, int))
    requires
        0 <= i,
        w > 0,
        b > 0,
    ensures
        i == (t.0 * w + t.1) * b + t.2,
        0 <= t.0,
        0 <= t.1 < w,
        0 <= t.2 < b,
{
    let p = i / b;
    let k = i % b;
    vstd::arithmetic::div_mod::lemma_fundamental_div_mod(i, b);
    vstd::arithmetic::div_mod::lemma_fundamental_div_mod(p, w);
    let r = p / w;
    let c = p % w;
    assert(i == (r * w + c) * b + k) by (nonlinear_arith)
        requires
            i == b * p + k,
            p == w * r + c,
    ;
    assert(0 <= p) by (nonlinear_arith)
        requires
            0 <= i,
            b > 0,
            p == i / b,
    ;
    assert(0 <= r) by (nonlinear_arith)
        requires
            0 <= p,
            w > 0,
            r == p / w,
    ;
    (r, c, k)
}

/// Orientation is undone by its inverse: orienting a `w × h` image by `o`
/// and the result by [`inverse_orientation`] of `o` gives back the input
/// pixels (e.g. rotating 90° CW then 270° CW is the identity).
pub proof fn law_orientation_round_trip<T>(
    data: Seq<T>,
    mid: Seq<T>,
    out: Seq<T>,
    w: int,
    h: int,
    b: int,
    o: u16,
)
    requires
        0 <= w,
        0 <= h,
        0 <= b,
        data.len() == w * h * b,
        is_oriented(mid, data, w, h, b, o),
        is_oriented(
            out,
            mid,
            oriented_dims(o, w, h).0,
            oriented_dims(o, w, h).1,
            b,
            inverse_orientation(o),
        ),
    ensures
        out == data,
{
    let nw = oriented_dims(o, w, h).0;
    let nh = oriented_dims(o, w, h).1;
    lemma_inverse_dims(o, w, h);
    assert(nw * nh * b == w * h * b) by (nonlinear_arith)
        requires
            (nw == w && nh == h) || (nw == h && nh == w),
    ;
    assert(out.len() == data.len());
    if w > 0 && b > 0 {
        assert forall|i: int| 0 <= i < data.len() implies out[i] == data[i] by {
            let t = lemma_decompose(i, w, b);
            let r = t.0;
            let c = t.1;
            let k = t.2;
            if r >= h {
                assert((r * w + c) * b + k >= w * h * b) by (nonlinear_arith)
                    requires
                        r >= h,
                        0 <= c,
                        0 <= k,
                        w > 0,
                        b > 0,
                ;
            }
            lemma_source_inverse(o, w, h, r, c);
            let m = source_of(inverse_orientation(o), nw, nh, r, c);
            lemma_source_in_bounds(inverse_orientation(o), nw, nh, r, c);
            assert(px(out, w, b, r, c, k) == px(mid, nw, b, m.0, m.1, k));
            assert(px(mid, nw, b, m.0, m.1, k) == px(data, w, b, r, c, k));
        }
    } else {
        assert(w * h * b == 0) by (nonlinear_arith)
            requires
                w == 0 || b == 0,
        ;
    }
    assert(out =~= data);
}

// ── Orientation handling requested of a decoder ──────────────────────

/// How the decoder should handle orientation during decode. Transforms are
/// EXIF orientation values (1–8).
#[derive(Clone, Copy, Debug, PartialEq, Eq, Structural)]
pub enum OrientationHint {
    /// Don't touch orientation; report the intrinsic orientation.
    Preserve,
    /// Resolve the intrinsic orientation to upright (EXIF 1).
    Correct,
    /// Resolve the intrinsic orientation, then apply this transform.
    CorrectAndTransform(u8),
    /// Ignore the intrinsic orientation; apply exactly this transform.
    ExactTransform(u8),
}

/// An EXIF orientation value.
pub open spec fn is_exif_orientation(o: u8) -> bool {
    1 <= o <= 8
}

/// The hint's transform, if any, is an EXIF orientation value.
pub open spec fn hint_is_valid(hint: OrientationHint) -> bool {
    match hint {
        OrientationHint::CorrectAndTransform(t) => is_exif_orientation(t),
        OrientationHint::ExactTransform(t) => is_exif_orientation(t),
        _ => true,
    }
}

/// Whether `hint` transforms the decoded pixels (`true`) or leaves them in
/// stored orientation (`false`): only `Preserve` leaves them.
pub fn hint_bakes(hint: OrientationHint) -> (r: bool)
    ensures
        r == !(hint is Preserve),
{
    match hint {
        OrientationHint::Preserve => false,
        _ => true,
    }
}

/// An orientation as `(clockwise quarter turns, horizontal flip after)`.
pub open spec fn d4_decompose(o: u8) -> (int, bool) {
    if o == 2 {
        (0, true)
    } else if o == 6 {
        (1, false)
    } else if o == 5 {
        (1, true)
    } else if o == 3 {
        (2, false)
    } else if o == 4 {
        (2, true)
    } else if o == 8 {
        (3, false)
    } else if o == 7 {
        (3, true)
    } else {
        (0, false)
    }
}

/// The orientation of `r` clockwise quarter turns and an optional flip.
pub open spec fn d4_compose_from(r: int, f: bool) -> u8 {
    if r == 0 {
        if f { 2 } else { 1 }
    } else if r == 1 {
        if f { 5 } else { 6 }
    } else if r == 2 {
        if f { 4 } else { 3 }
    } else {
        if f { 7 } else { 8 }
    }
}

/// `a` then `b`: D4 group composition of EXIF orientations.
pub open spec fn spec_orientation_compose(a: u8, b: u8) -> u8 {
    let (r1, f1) = d4_decompose(a);
    let (r2, f2) = d4_decompose(b);
    if !f1 {
        d4_compose_from((r1 + r2) % 4, f2)
    } else {
        d4_compose_from((r1 - r2) % 4, !f2)
    }
}

/// Compose two EXIF orientations, `a` first (via
/// `zenpixels::Orientation::compose`).
///
/// Claims what zenpixels' source shows: composition of the two rotations
/// (quarter turns) with their trailing flips, as `spec_orientation_compose`
/// states.
#[verifier::external_body]
fn orientation_compose(a: u8, b: u8) -> (r: u8)
    requires
        is_exif_orientation(a),
        is_exif_orientation(b),
    ensures
        r == spec_orientation_compose(a, b),
{
    let first = zenpixels::Orientation::from_exif(a).unwrap();
    let second = zenpixels::Orientation::from_exif(b).unwrap();
    first.compose(second).to_exif()
}

/// The net orientation to bake into stored pixels for `hint`, given the
/// image's intrinsic orientation.
pub open spec fn spec_resolve_orientation(hint: OrientationHint, intrinsic: u8) -> u8 {
    match hint {
        OrientationHint::Preserve => 1,
        OrientationHint::Correct => intrinsic,
        OrientationHint::ExactTransform(t) => t,
        OrientationHint::CorrectAndTransform(t) => spec_orientation_compose(intrinsic, t),
    }
}

/// Resolve the net orientation to bake into the stored pixels for `hint`:
/// nothing for `Preserve`, the intrinsic orientation for `Correct`, the
/// literal transform for `ExactTransform`, and the intrinsic correction
/// followed by the transform for `CorrectAndTransform`.
pub fn resolve_orientation(hint: OrientationHint, intrinsic: u8) -> (r: u8)
    requires
        is_exif_orientation(intrinsic),
        hint_is_valid(hint),
    ensures
        r == spec_resolve_orientation(hint, intrinsic),
        is_exif_orientation(r),
{
    match hint {
        OrientationHint::Preserve => 1,
        OrientationHint::Correct => intrinsic,
        OrientationHint::ExactTransform(t) => t,
        OrientationHint::CorrectAndTransform(t) => orientation_compose(intrinsic, t),
    }
}

/// Width, height and orientation tag reported for an image of stored size
/// `width × height` and intrinsic orientation `intrinsic` under `hint`:
/// unchanged when preserving, else the resolved orientation's output size
/// and the upright tag.
pub open spec fn spec_report_for_hint(hint: OrientationHint, width: int, height: int, intrinsic: u8) -> (int, int, u8) {
    if hint is Preserve {
        (width, height, intrinsic)
    } else {
        let d = oriented_dims(spec_resolve_orientation(hint, intrinsic) as u16, width, height);
        (d.0, d.1, 1)
    }
}

/// What a probe reports for `hint`: the stored size and intrinsic tag when
/// preserving, otherwise the resolved orientation's output size and the
/// upright tag.
pub fn report_probe_for_hint(hint: OrientationHint, width: u32, height: u32, intrinsic: u8) -> (r: (
    u32,
    u32,
    u8,
))
    requires
        is_exif_orientation(intrinsic),
        hint_is_valid(hint),
    ensures
        (r.0 as int, r.1 as int, r.2) == spec_report_for_hint(hint, width as int, height as int, intrinsic),
{
    if !hint_bakes(hint) {
        return (width, height, intrinsic);
    }
    let resolved = resolve_orientation(hint, intrinsic);
    if 5 <= resolved && resolved <= 8 {
        (height, width, 1)
    } else {
        (width, height, 1)
    }
}

/// Bake `hint` into a tightly packed `width × height` buffer of `bpp`-byte
/// pixels in stored orientation: returns the pixels, their size and the
/// orientation tag that remains to be applied.
pub fn bake_orientation(
    bytes: &[u8],
    width: usize,
    height: usize,
    bpp: usize,
    hint: OrientationHint,
    intrinsic: u8,
) -> (r: (Vec<u8>, usize, usize, u8))
    requires
        bytes@.len() == width * height * bpp,
        is_exif_orientation(intrinsic),
        hint_is_valid(hint),
    ensures
        (r.1 as int, r.2 as int, r.3) == spec_report_for_hint(hint, width as int, height as int, intrinsic),
        hint is Preserve ==> r.0@ == bytes@,
        !(hint is Preserve) ==> is_oriented(
            r.0@,
            bytes@,
            width as int,
            height as int,
            bpp as int,
            spec_resolve_orientation(hint, intrinsic) as u16,
        ),
{
    if !hint_bakes(hint) {
        return (vstd::slice::slice_to_vec(bytes), width, height, intrinsic);
    }
    let resolved = resolve_orientation(hint, intrinsic);
    let (baked, nw, nh) = apply_orientation_bytes(bytes, width, height, bpp, resolved as u16);
    (baked, nw, nh, 1)
}

/// Baking only permutes pixels: the size reported for any hint holds as many
/// pixels as the stored image, and every hint that bakes reports the upright
/// tag.
pub proof fn law_report_keeps_pixel_count(hint: OrientationHint, width: int, height: int, intrinsic: u8)
    requires
        is_exif_orientation(intrinsic),
        hint_is_valid(hint),
    ensures
        ({
            let r = spec_report_for_hint(hint, width, height, intrinsic);
            &&& r.0 * r.1 == width * height
            &&& !(hint is Preserve) ==> r.2 == 1
            &&& hint is Preserve ==> r.2 == intrinsic
        }),
{
    let r = spec_report_for_hint(hint, width, height, intrinsic);
    if !(hint is Preserve) {
        assert(r.0 * r.1 == width * height) by (nonlinear_arith)
            requires
                (r.0 == width && r.1 == height) || (r.0 == height && r.1 == width),
        ;
    }
}

/// `ExactTransform` ignores the image's own orientation: two images with
/// different intrinsic tags resolve to the same bake.
pub proof fn law_exact_transform_ignores_intrinsic(t: u8, a: u8, b: u8)
    requires
        is_exif_orientation(t),
        is_exif_orientation(a),
        is_exif_orientation(b),
    ensures
        spec_resolve_orientation(OrientationHint::ExactTransform(t), a) == spec_resolve_orientation(
            OrientationHint::ExactTransform(t),
            b,
        ),
{
}

/// On an upright image, `Correct` bakes nothing and `CorrectAndTransform(t)`
/// bakes exactly `t`; composing with the upright orientation on either side
/// changes nothing.
pub proof fn law_upright_is_neutral(t: u8)
    requires
        is_exif_orientation(t),
    ensures
        spec_resolve_orientation(OrientationHint::Correct, 1) == 1,
        spec_resolve_orientation(OrientationHint::CorrectAndTransform(t), 1) == t,
        spec_orientation_compose(t, 1) == t,
{
}

/// An oriented image is determined by its source and orientation: two
/// buffers that both hold `data` with orientation `o` applied are equal. So
/// [`bake_orientation`] gives the very pixels that [`apply_orientation_bytes`]
/// gives under the resolved orientation, and [`apply_orientation`] those of
/// any other buffer oriented the same way.
pub proof fn law_oriented_output_is_unique<T>(
    a: Seq<T>,
    b: Seq<T>,
    data: Seq<T>,
    w: int,
    h: int,
    bpp: int,
    o: u16,
)
    requires
        0 <= w,
        0 <= h,
        0 <= bpp,
        is_oriented(a, data, w, h, bpp, o),
        is_oriented(b, data, w, h, bpp, o),
    ensures
        a == b,
{
    let nw = oriented_dims(o, w, h).0;
    let nh = oriented_dims(o, w, h).1;
    assert(a.len() == b.len());
    if nw > 0 && bpp > 0 {
        assert forall|i: int| 0 <= i < a.len() implies a[i] == b[i] by {
            let t = lemma_decompose(i, nw, bpp);
            let r = t.0;
            let c = t.1;
            let k = t.2;
            if r >= nh {
                assert((r * nw + c) * bpp + k >= nw * nh * bpp) by (nonlinear_arith)
                    requires
                        r >= nh,
                        0 <= c,
                        0 <= k,
                        nw > 0,
                        bpp > 0,
                ;
            }
            assert(px(a, nw, bpp, r, c, k) == px(b, nw, bpp, r, c, k));
        }
    } else {
        assert(nw * nh * bpp == 0) by (nonlinear_arith)
            requires
                nw == 0 || bpp == 0,
        ;
    }
    assert(a =~= b);
}

/// `CorrectAndTransform(t)` bakes exactly what `ExactTransform` of the
/// intrinsic orientation followed by `t` bakes: the same pixels, the same
/// size and the same tag.
pub proof fn law_correct_and_transform_is_exact_composition(
    bytes: Seq<u8>,
    w: int,
    h: int,
    bpp: int,
    t: u8,
    intrinsic: u8,
    a: Seq<u8>,
    b: Seq<u8>,
)
    requires
        0 <= w,
        0 <= h,
        0 <= bpp,
        is_exif_orientation(t),
        is_exif_orientation(intrinsic),
        is_oriented(
            a,
            bytes,
            w,
            h,
            bpp,
            spec_resolve_orientation(OrientationHint::CorrectAndTransform(t), intrinsic) as u16,
        ),
        is_oriented(
            b,
            bytes,
            w,
            h,
            bpp,
            spec_resolve_orientation(
                OrientationHint::ExactTransform(spec_orientation_compose(intrinsic, t)),
                intrinsic,
            ) as u16,
        ),
    ensures
        a == b,
        spec_report_for_hint(OrientationHint::CorrectAndTransform(t), w, h, intrinsic)
            == spec_report_for_hint(
            OrientationHint::ExactTransform(spec_orientation_compose(intrinsic, t)),
            w,
            h,
            intrinsic,
        ),
{
    law_oriented_output_is_unique(
        a,
        b,
        bytes,
        w,
        h,
        bpp,
        spec_resolve_orientation(OrientationHint::CorrectAndTransform(t), intrinsic) as u16,
    );
}

/// `bytes` holds the elements of `elems` in order, `size` bytes each:
/// byte `j` of element `i` is `enc(elems[i], j)`.
pub open spec fn is_encoded<T>(bytes: Seq<u8>, elems: Seq<T>, size: int, enc: spec_fn(T, int) -> u8) -> bool {
    &&& bytes.len() == elems.len() * size
    &&& forall|i: int, j: int|
        0 <= i < elems.len() && 0 <= j < size ==> #[trigger] bytes[i * size + j] == enc(elems[i], j)
}

/// Orienting encoded elements is encoding the oriented elements: when
/// `bytes` holds `elems` at `size` bytes each (little-endian `f32`s at four,
/// say), orienting `bytes` as pixels of `n * size` bytes gives the encoding
/// of `elems` oriented as pixels of `n` elements. So
/// [`apply_orientation_bytes`] on the bytes of RGB `f32` pixels gives the
/// bytes of what [`apply_orientation`] gives on the pixels.
pub proof fn law_orientation_commutes_with_encoding<T>(
    elems: Seq<T>,
    bytes: Seq<u8>,
    out_elems: Seq<T>,
    out_bytes: Seq<u8>,
    w: int,
    h: int,
    n: int,
    size: int,
    enc: spec_fn(T, int) -> u8,
    o: u16,
)
    requires
        0 <= w,
        0 <= h,
        0 < n,
        0 < size,
        elems.len() == w * h * n,
        is_encoded(bytes, elems, size, enc),
        is_oriented(out_elems, elems, w, h, n, o),
        is_oriented(out_bytes, bytes, w, h, n * size, o),
    ensures
        is_encoded(out_bytes, out_elems, size, enc),
{
    let nw = oriented_dims(o, w, h).0;
    let nh = oriented_dims(o, w, h).1;
    assert(nw * nh * (n * size) == (nw * nh * n) * size) by (nonlinear_arith);
    if nw > 0 {
        assert forall|i: int, j: int|
            0 <= i < out_elems.len() && 0 <= j < size implies #[trigger] out_bytes[i * size + j]
            == enc(out_elems[i], j) by {
            let t = lemma_decompose(i, nw, n);
            let r = t.0;
            let c = t.1;
            let k = t.2;
            if r >= nh {
                assert((r * nw + c) * n + k >= nw * nh * n) by (nonlinear_arith)
                    requires
                        r >= nh,
                        0 <= c,
                        0 <= k,
                        nw > 0,
                        n > 0,
                ;
            }
            lemma_source_in_bounds(o, w, h, r, c);
            let src = source_of(o, w, h, r, c);
            let sr = src.0;
            let sc = src.1;
            let kb = k * size + j;
            assert(0 <= kb < n * size) by (nonlinear_arith)
                requires
                    0 <= k < n,
                    0 <= j < size,
                    kb == k * size + j,
            ;
            assert(i * size + j == (r * nw + c) * (n * size) + kb) by (nonlinear_arith)
                requires
                    i == (r * nw + c) * n + k,
                    kb == k * size + j,
            ;
            let e = (sr * w + sc) * n + k;
            assert((sr * w + sc) * (n * size) + kb == e * size + j) by (nonlinear_arith)
                requires
                    e == (sr * w + sc) * n + k,
                    kb == k * size + j,
            ;
            lemma_index_in_bounds(sr, sc, k, w, h, n);
            assert(px(out_bytes, nw, n * size, r, c, kb) == px(bytes, w, n * size, sr, sc, kb));
            assert(px(out_elems, nw, n, r, c, k) == px(elems, w, n, sr, sc, k));
            assert(bytes[e * size + j] == enc(elems[e], j));
        }
    } else {
        assert(nw * nh * n == 0) by (nonlinear_arith)
            requires
                nw == 0,
        ;
    }
    assert(out_bytes.len() == out_elems.len() * size);
}

} // verus!
