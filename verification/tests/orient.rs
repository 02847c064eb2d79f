use zenraw::orient::{apply_orientation, apply_orientation_bytes};

fn make_test_image() -> (Vec<f32>, usize, usize) {
    // 3 wide, 2 tall; pixel (r, c) has value r * 10 + c in every channel.
    let (w, h) = (3usize, 2usize);
    let mut rgb = Vec::new();
    for r in 0..h {
        for c in 0..w {
            let v = (r * 10 + c) as f32;
            rgb.extend_from_slice(&[v, v, v]);
        }
    }
    (rgb, w, h)
}

fn pixel_at(rgb: &[f32], width: usize, row: usize, col: usize) -> f32 {
    rgb[(row * width + col) * 3]
}

#[test]
fn orient_1_identity() {
    let (rgb, w, h) = make_test_image();
    let (out, nw, nh) = apply_orientation(rgb, w, h, 1);
    assert_eq!((nw, nh), (3, 2));
    assert_eq!(pixel_at(&out, nw, 0, 0), 0.0);
    assert_eq!(pixel_at(&out, nw, 0, 2), 2.0);
    assert_eq!(pixel_at(&out, nw, 1, 0), 10.0);
}

#[test]
fn orient_2_flip_horizontal() {
    let (rgb, w, h) = make_test_image();
    let (out, nw, nh) = apply_orientation(rgb, w, h, 2);
    assert_eq!((nw, nh), (3, 2));
    assert_eq!(pixel_at(&out, nw, 0, 0), 2.0);
    assert_eq!(pixel_at(&out, nw, 0, 2), 0.0);
    assert_eq!(pixel_at(&out, nw, 1, 0), 12.0);
    assert_eq!(pixel_at(&out, nw, 1, 2), 10.0);
}

#[test]
fn orient_3_rotate_180() {
    let (rgb, w, h) = make_test_image();
    let (out, nw, nh) = apply_orientation(rgb, w, h, 3);
    assert_eq!((nw, nh), (3, 2));
    assert_eq!(pixel_at(&out, nw, 0, 0), 12.0);
    assert_eq!(pixel_at(&out, nw, 1, 2), 0.0);
}

#[test]
fn orient_4_flip_vertical() {
    let (rgb, w, h) = make_test_image();
    let (out, nw, nh) = apply_orientation(rgb, w, h, 4);
    assert_eq!((nw, nh), (3, 2));
    assert_eq!(pixel_at(&out, nw, 0, 0), 10.0);
    assert_eq!(pixel_at(&out, nw, 1, 0), 0.0);
}

#[test]
fn orient_5_transpose() {
    let (rgb, w, h) = make_test_image();
    let (out, nw, nh) = apply_orientation(rgb, w, h, 5);
    assert_eq!((nw, nh), (2, 3));
    assert_eq!(pixel_at(&out, nw, 0, 0), 0.0);
    assert_eq!(pixel_at(&out, nw, 0, 1), 10.0);
    assert_eq!(pixel_at(&out, nw, 1, 0), 1.0);
    assert_eq!(pixel_at(&out, nw, 2, 1), 12.0);
}

#[test]
fn orient_6_rotate_90_cw() {
    let (rgb, w, h) = make_test_image();
    let (out, nw, nh) = apply_orientation(rgb, w, h, 6);
    assert_eq!((nw, nh), (2, 3));
    assert_eq!(pixel_at(&out, nw, 0, 0), 10.0);
    assert_eq!(pixel_at(&out, nw, 0, 1), 0.0);
    assert_eq!(pixel_at(&out, nw, 2, 0), 12.0);
    assert_eq!(pixel_at(&out, nw, 2, 1), 2.0);
}

#[test]
fn orient_7_transverse() {
    let (rgb, w, h) = make_test_image();
    let (out, nw, nh) = apply_orientation(rgb, w, h, 7);
    assert_eq!((nw, nh), (2, 3));
    assert_eq!(pixel_at(&out, nw, 0, 0), 12.0);
    assert_eq!(pixel_at(&out, nw, 2, 1), 0.0);
}

#[test]
fn orient_8_rotate_270_cw() {
    let (rgb, w, h) = make_test_image();
    let (out, nw, nh) = apply_orientation(rgb, w, h, 8);
    assert_eq!((nw, nh), (2, 3));
    assert_eq!(pixel_at(&out, nw, 0, 0), 2.0);
    assert_eq!(pixel_at(&out, nw, 0, 0), 2.0);
    assert_eq!(pixel_at(&out, nw, 0, 1), 12.0);
    assert_eq!(pixel_at(&out, nw, 2, 0), 0.0);
    assert_eq!(pixel_at(&out, nw, 2, 1), 10.0);
}

#[test]
fn orient_roundtrips() {
    // 6 (90° CW) then 8 (270° CW) = identity
    let (rgb, w, h) = make_test_image();
    let before = rgb.clone();
    let (rotated, nw, nh) = apply_orientation(rgb, w, h, 6);
    let (back, fw, fh) = apply_orientation(rotated, nw, nh, 8);
    assert_eq!((fw, fh), (w, h));
    assert_eq!(before, back);
}

/// A 3×2 image with `bpp`-byte pixels; pixel (r, c) is `bpp` bytes all equal
/// to `r * 16 + c + 1`.
fn make_byte_image(bpp: usize) -> (Vec<u8>, usize, usize, usize) {
    let (w, h) = (3usize, 2usize);
    let mut data = Vec::with_capacity(w * h * bpp);
    for r in 0..h {
        for c in 0..w {
            let id = (r * 16 + c) as u8 + 1;
            for _ in 0..bpp {
                data.push(id);
            }
        }
    }
    (data, w, h, bpp)
}

fn byte_pixel_id(data: &[u8], width: usize, bpp: usize, row: usize, col: usize) -> u8 {
    let i = (row * width + col) * bpp;
    let id = data[i];
    for k in 0..bpp {
        assert_eq!(data[i + k], id, "pixel ({row},{col}) byte {k} mismatch");
    }
    id
}

#[test]
fn bytes_identity_copies_through() {
    for bpp in [6usize, 12] {
        let (data, w, h, _) = make_byte_image(bpp);
        let (out, nw, nh) = apply_orientation_bytes(&data, w, h, bpp, 1);
        assert_eq!((nw, nh), (w, h));
        assert_eq!(out, data, "bpp={bpp}: identity must be a verbatim copy");
    }
}

#[test]
fn bytes_flip_horizontal_oracle() {
    let (data, w, h, bpp) = make_byte_image(6);
    let (out, nw, nh) = apply_orientation_bytes(&data, w, h, bpp, 2);
    assert_eq!((nw, nh), (3, 2));
    assert_eq!(byte_pixel_id(&out, nw, bpp, 0, 0), 3);
    assert_eq!(byte_pixel_id(&out, nw, bpp, 0, 2), 1);
    assert_eq!(byte_pixel_id(&out, nw, bpp, 1, 0), 19);
    assert_eq!(byte_pixel_id(&out, nw, bpp, 1, 2), 17);
}

#[test]
fn bytes_rotate180_oracle() {
    let (data, w, h, bpp) = make_byte_image(6);
    let (out, nw, nh) = apply_orientation_bytes(&data, w, h, bpp, 3);
    assert_eq!((nw, nh), (3, 2));
    assert_eq!(byte_pixel_id(&out, nw, bpp, 0, 0), 19);
    assert_eq!(byte_pixel_id(&out, nw, bpp, 1, 2), 1);
}

#[test]
fn bytes_flip_vertical_oracle() {
    let (data, w, h, bpp) = make_byte_image(6);
    let (out, nw, nh) = apply_orientation_bytes(&data, w, h, bpp, 4);
    assert_eq!((nw, nh), (3, 2));
    assert_eq!(byte_pixel_id(&out, nw, bpp, 0, 0), 17);
    assert_eq!(byte_pixel_id(&out, nw, bpp, 1, 0), 1);
}

#[test]
fn bytes_transpose_oracle_rgb16() {
    let (data, w, h, bpp) = make_byte_image(6);
    let (out, nw, nh) = apply_orientation_bytes(&data, w, h, bpp, 5);
    assert_eq!((nw, nh), (2, 3));
    assert_eq!(byte_pixel_id(&out, nw, bpp, 0, 0), 1);
    assert_eq!(byte_pixel_id(&out, nw, bpp, 0, 1), 17);
    assert_eq!(byte_pixel_id(&out, nw, bpp, 1, 0), 2);
    assert_eq!(byte_pixel_id(&out, nw, bpp, 2, 1), 19);
}

#[test]
fn bytes_rotate90_oracle_rgbf32() {
    let (data, w, h, bpp) = make_byte_image(12);
    let (out, nw, nh) = apply_orientation_bytes(&data, w, h, bpp, 6);
    assert_eq!((nw, nh), (2, 3));
    assert_eq!(byte_pixel_id(&out, nw, bpp, 0, 0), 17);
    assert_eq!(byte_pixel_id(&out, nw, bpp, 0, 1), 1);
    assert_eq!(byte_pixel_id(&out, nw, bpp, 2, 0), 19);
    assert_eq!(byte_pixel_id(&out, nw, bpp, 2, 1), 3);
}

#[test]
fn bytes_transverse_oracle() {
    let (data, w, h, bpp) = make_byte_image(6);
    let (out, nw, nh) = apply_orientation_bytes(&data, w, h, bpp, 7);
    assert_eq!((nw, nh), (2, 3));
    assert_eq!(byte_pixel_id(&out, nw, bpp, 0, 0), 19);
    assert_eq!(byte_pixel_id(&out, nw, bpp, 2, 1), 1);
}

#[test]
fn bytes_rotate270_oracle() {
    let (data, w, h, bpp) = make_byte_image(6);
    let (out, nw, nh) = apply_orientation_bytes(&data, w, h, bpp, 8);
    assert_eq!((nw, nh), (2, 3));
    assert_eq!(byte_pixel_id(&out, nw, bpp, 0, 0), 3);
    assert_eq!(byte_pixel_id(&out, nw, bpp, 0, 1), 19);
    assert_eq!(byte_pixel_id(&out, nw, bpp, 2, 0), 1);
    assert_eq!(byte_pixel_id(&out, nw, bpp, 2, 1), 17);
}

#[test]
fn bytes_matches_f32_baker_for_all_orientations() {
    for orient in 1..=8u16 {
        let (rgb, w, h) = make_test_image();
        let bytes: Vec<u8> = rgb.iter().flat_map(|v| v.to_le_bytes()).collect();
        let bpp = 12;
        let (f_out, fw, fh) = apply_orientation(rgb, w, h, orient);
        let (b_out, bw, bh) = apply_orientation_bytes(&bytes, w, h, bpp, orient);
        assert_eq!((bw, bh), (fw, fh), "orient {orient}: dims differ");
        let f_bytes: Vec<u8> = f_out.iter().flat_map(|v| v.to_le_bytes()).collect();
        assert_eq!(b_out, f_bytes, "orient {orient}: byte baker diverges from f32 baker");
    }
}

#[test]
fn every_orientation_is_undone_by_its_inverse() {
    // 6 and 8 undo each other; every other orientation undoes itself.
    for orient in 1..=8u16 {
        let inverse = match orient {
            6 => 8,
            8 => 6,
            o => o,
        };
        let (data, w, h, bpp) = make_byte_image(6);
        let (once, nw, nh) = apply_orientation_bytes(&data, w, h, bpp, orient);
        let (back, bw, bh) = apply_orientation_bytes(&once, nw, nh, bpp, inverse);
        assert_eq!((bw, bh), (w, h), "orient {orient}");
        assert_eq!(back, data, "orient {orient}");
    }
}

#[test]
fn out_of_range_orientation_copies_through() {
    let (data, w, h, bpp) = make_byte_image(6);
    let (out, nw, nh) = apply_orientation_bytes(&data, w, h, bpp, 9);
    assert_eq!((nw, nh), (w, h));
    assert_eq!(out, data);
    let (rgb, w, h) = make_test_image();
    let (out, nw, nh) = apply_orientation(rgb.clone(), w, h, 0);
    assert_eq!((nw, nh), (w, h));
    assert_eq!(out, rgb);
}
