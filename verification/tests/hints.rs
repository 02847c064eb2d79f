use zenraw::adapter::{
    decode_resource_estimate, detect_format, estimated_output_bytes, exif_orientation_of,
    output_geometry, preferred_output_mode, RawContainer,
};
use zenraw::decode::OutputMode;
use zenraw::orient::{apply_orientation_bytes, bake_orientation, hint_bakes, report_probe_for_hint, resolve_orientation, OrientationHint};

// EXIF orientation values.
const IDENTITY: u8 = 1;
const FLIP_H: u8 = 2;
const ROTATE_180: u8 = 3;
const ROTATE_90: u8 = 6;
const ROTATE_270: u8 = 8;

/// A tight RGB16 `w×h` image whose pixel (r, c) holds three identical u16
/// channels of value `r * 16 + c + 1`.
fn synth_bytes(w: usize, h: usize) -> Vec<u8> {
    let mut bytes = Vec::with_capacity(w * h * 6);
    for r in 0..h {
        for c in 0..w {
            let id = ((r * 16 + c) as u16) + 1;
            for _ in 0..3 {
                bytes.extend_from_slice(&id.to_le_bytes());
            }
        }
    }
    bytes
}

/// The three-u16 pixel id at (row, col) in a tight RGB16 buffer.
fn id_at(bytes: &[u8], width: usize, row: usize, col: usize) -> u16 {
    let i = (row * width + col) * 6;
    let id = u16::from_le_bytes([bytes[i], bytes[i + 1]]);
    for ch in 0..3 {
        let v = u16::from_le_bytes([bytes[i + ch * 2], bytes[i + ch * 2 + 1]]);
        assert_eq!(v, id, "pixel ({row},{col}) channel {ch} mismatch");
    }
    id
}

#[test]
fn rotate90_then_flip_is_transpose() {
    assert_eq!(resolve_orientation(OrientationHint::CorrectAndTransform(FLIP_H), ROTATE_90), 5);
}

#[test]
fn hint_bakes_only_false_for_preserve() {
    assert!(!hint_bakes(OrientationHint::Preserve));
    assert!(hint_bakes(OrientationHint::Correct));
    assert!(hint_bakes(OrientationHint::ExactTransform(ROTATE_90)));
    assert!(hint_bakes(OrientationHint::CorrectAndTransform(ROTATE_180)));
}

#[test]
fn resolve_orientation_semantics() {
    let intrinsic = ROTATE_90;
    // Preserve → nothing to bake.
    assert_eq!(resolve_orientation(OrientationHint::Preserve, intrinsic), IDENTITY);
    // Correct → the intrinsic.
    assert_eq!(resolve_orientation(OrientationHint::Correct, intrinsic), ROTATE_90);
    // ExactTransform → literal, EXIF ignored.
    assert_eq!(resolve_orientation(OrientationHint::ExactTransform(FLIP_H), intrinsic), FLIP_H);
    // CorrectAndTransform → intrinsic then t: two quarter turns.
    assert_eq!(
        resolve_orientation(OrientationHint::CorrectAndTransform(ROTATE_90), intrinsic),
        ROTATE_180
    );
}

#[test]
fn preserve_returns_stored_dims_and_intrinsic_tag_unbaked() {
    let before = synth_bytes(3, 2);
    let (out, w, h, tag) = bake_orientation(&before, 3, 2, 6, OrientationHint::Preserve, ROTATE_90);
    assert_eq!((w, h), (3, 2), "stored dims");
    assert_eq!(tag, ROTATE_90, "intrinsic tag preserved");
    assert_eq!(out, before, "pixels unbaked");
}

#[test]
fn correct_bakes_intrinsic_reports_display_dims_and_identity() {
    let src = synth_bytes(3, 2);
    let (b, w, h, tag) = bake_orientation(&src, 3, 2, 6, OrientationHint::Correct, ROTATE_90);
    assert_eq!((w, h), (2, 3), "display dims");
    assert_eq!(tag, IDENTITY);
    // Rotate90 CW: display(dr,dc) ← src(h-1-dc, dr).
    assert_eq!(id_at(&b, w, 0, 0), 17);
    assert_eq!(id_at(&b, w, 0, 1), 1);
    assert_eq!(id_at(&b, w, 2, 0), 19);
    assert_eq!(id_at(&b, w, 2, 1), 3);
}

#[test]
fn exact_transform_ignores_intrinsic_exif() {
    let src = synth_bytes(3, 2);
    let a = bake_orientation(&src, 3, 2, 6, OrientationHint::ExactTransform(ROTATE_90), ROTATE_180);
    let b = bake_orientation(&src, 3, 2, 6, OrientationHint::ExactTransform(ROTATE_90), IDENTITY);
    assert_eq!((a.1, a.2), (2, 3));
    assert_eq!(a.3, IDENTITY);
    assert_eq!(a.0, b.0, "ExactTransform must ignore the intrinsic EXIF orientation");
}

#[test]
fn correct_and_transform_composes_intrinsic_then_extra() {
    let src = synth_bytes(3, 2);
    let intrinsic = FLIP_H;
    let extra = ROTATE_90;
    let net = resolve_orientation(OrientationHint::CorrectAndTransform(extra), intrinsic);
    let composed = bake_orientation(&src, 3, 2, 6, OrientationHint::CorrectAndTransform(extra), intrinsic);
    let direct = bake_orientation(&src, 3, 2, 6, OrientationHint::ExactTransform(net), IDENTITY);
    assert_eq!((composed.1, composed.2), (direct.1, direct.2), "composed dims match the net transform");
    assert_eq!(composed.3, IDENTITY);
    assert_eq!(composed.0, direct.0, "CorrectAndTransform must equal intrinsic then extra");
    // FlipH then Rotate90 is the transverse.
    assert_eq!(net, 7);
}

#[test]
fn correct_on_upright_image_is_noop_but_reports_identity() {
    let before = synth_bytes(3, 2);
    let (out, w, h, tag) = bake_orientation(&before, 3, 2, 6, OrientationHint::Correct, IDENTITY);
    assert_eq!((w, h), (3, 2));
    assert_eq!(tag, IDENTITY);
    assert_eq!(out, before);
}

#[test]
fn report_probe_matches_decode_dims_and_tag_for_every_hint() {
    let intrinsic = ROTATE_90;
    let hints = [
        OrientationHint::Preserve,
        OrientationHint::Correct,
        OrientationHint::ExactTransform(ROTATE_270),
        OrientationHint::CorrectAndTransform(FLIP_H),
    ];
    let src = synth_bytes(3, 2);
    for hint in hints {
        let probe = report_probe_for_hint(hint, 3, 2, intrinsic);
        let decoded = bake_orientation(&src, 3, 2, 6, hint, intrinsic);
        assert_eq!((probe.0 as usize, probe.1 as usize), (decoded.1, decoded.2), "hint {hint:?}: dims differ");
        assert_eq!(probe.2, decoded.3, "hint {hint:?}: orientation differs");
        let geometry = output_geometry(hint, 3, 2, intrinsic);
        assert_eq!((geometry.0, geometry.1), (probe.0, probe.1), "hint {hint:?}: output size differs");
    }
}

#[test]
fn output_geometry_records_the_baked_orientation() {
    assert_eq!(output_geometry(OrientationHint::Preserve, 3, 2, ROTATE_90), (3, 2, IDENTITY));
    assert_eq!(output_geometry(OrientationHint::Correct, 3, 2, ROTATE_90), (2, 3, ROTATE_90));
    assert_eq!(output_geometry(OrientationHint::Correct, 3, 2, ROTATE_180), (3, 2, ROTATE_180));
}

#[test]
fn decoder_orientation_tag_maps_to_exif() {
    assert_eq!(exif_orientation_of(6), 6);
    assert_eq!(exif_orientation_of(0), 1);
    assert_eq!(exif_orientation_of(9), 1);
    // Only the low byte is read.
    assert_eq!(exif_orientation_of(256 + 3), 3);
}

#[test]
fn resource_estimate_matches_the_heap_profile() {
    // 6.12 MP develops at about 245 MiB.
    let (peak, wall_ms) = decode_resource_estimate(6_120_000);
    assert_eq!(peak, 24 * 1024 * 1024 + 6_120_000 * 36);
    assert_eq!(wall_ms, 122);
    // Saturates rather than overflowing.
    assert_eq!(decode_resource_estimate(u64::MAX).0, u64::MAX);
    assert_eq!(decode_resource_estimate(0), (24 * 1024 * 1024, 0));
}

#[test]
fn output_bytes_and_mode() {
    assert_eq!(estimated_output_bytes(4000, 3000, OutputMode::Develop), 72_000_000);
    assert_eq!(estimated_output_bytes(4000, 3000, OutputMode::Linear), 144_000_000);
    assert_eq!(preferred_output_mode(OutputMode::Develop, true), OutputMode::Linear);
    assert_eq!(preferred_output_mode(OutputMode::CameraRaw, false), OutputMode::CameraRaw);
}

#[test]
fn container_detection() {
    let mut dng = vec![0u8; 64];
    dng[..4].copy_from_slice(b"II*\0");
    dng[4..8].copy_from_slice(&8u32.to_le_bytes());
    dng[20..22].copy_from_slice(&0xC612u16.to_le_bytes());
    assert_eq!(detect_format(&dng), RawContainer::Dng);
    let mut tiff = vec![0u8; 64];
    tiff[..4].copy_from_slice(b"II*\0");
    assert_eq!(detect_format(&tiff), RawContainer::Raw);
    assert_eq!(detect_format(b"not a raw file"), RawContainer::Raw);
}

#[test]
fn estimate_decode_resources_scales_and_is_serial() {
    // A 6 MP image: the modelled peak is dominated by the RGB-f32 working set
    // (about 3 × W·H·12 B) plus fixed overhead.
    let (peak6, wall6) = decode_resource_estimate(3000 * 2000);
    let pixels6 = 3000u64 * 2000;
    assert!(peak6 >= pixels6 * 12 * 3, "peak below the RGB-f32 working set");
    assert!(peak6 < pixels6 * 12 * 10, "peak implausibly large");
    assert!((200 << 20..=320 << 20).contains(&peak6), "6 MP peak {peak6} outside the measured-anchor band");
    // Larger image → strictly larger peak.
    let (peak24, _) = decode_resource_estimate(6000 * 4000);
    assert!(peak24 > peak6, "peak must grow with pixel count");
    // Serial decode: the estimate depends on the pixel count alone.
    assert_eq!(decode_resource_estimate(3000 * 2000).1, wall6);
}

#[test]
fn bake_is_apply_under_the_resolved_orientation() {
    let src = synth_bytes(3, 2);
    for intrinsic in 1..=8u8 {
        for hint in [
            OrientationHint::Correct,
            OrientationHint::CorrectAndTransform(ROTATE_90),
            OrientationHint::ExactTransform(ROTATE_270),
        ] {
            let net = resolve_orientation(hint, intrinsic);
            let baked = bake_orientation(&src, 3, 2, 6, hint, intrinsic);
            let applied = apply_orientation_bytes(&src, 3, 2, 6, net as u16);
            assert_eq!((baked.0, baked.1, baked.2), applied, "intrinsic {intrinsic}");
        }
    }
}
