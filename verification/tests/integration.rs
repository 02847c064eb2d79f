use zenraw::alloc_util::AllocPref;
use zenraw::cfa::{square_tile_side, CfaPattern};
use zenraw::decode::{
    apply_crop, bits_from_whitelevel, crop_area_choice, crop_margins, crop_rect_from, detect_dng,
    detect_raw, needs_generic_demosaic, reported_size,
    extract_rgb_from_cpp, extract_rgb_from_cpp_fallible, is_dng_data, is_dng_header,
    orientation_to_u16, sensor_layout_for, sensor_layout_of, within_pixel_limit, OutputMode,
    Photometric, RawOrientation, SensorLayout,
};
use zenraw::error::RawError;

#[test]
fn is_raw_file_detection() {
    // TIFF little-endian header
    let tiff_le = [b'I', b'I', 42, 0, 0, 0, 0, 0, 0, 0, 0, 0];
    assert!(zenraw::is_raw_file(&tiff_le));

    // TIFF big-endian header
    let tiff_be = [b'M', b'M', 0, 42, 0, 0, 0, 0, 0, 0, 0, 0];
    assert!(zenraw::is_raw_file(&tiff_be));

    // Fuji RAF
    let fuji = b"FUJIFILM1234";
    assert!(zenraw::is_raw_file(fuji));

    // Panasonic RW2
    let rw2 = [b'I', b'I', 0x55, 0x00, 0, 0, 0, 0, 0, 0, 0, 0];
    assert!(zenraw::is_raw_file(&rw2));

    // PNG (not RAW)
    let png = [0x89, 0x50, 0x4E, 0x47, 0x0D, 0x0A, 0x1A, 0x0A, 0, 0, 0, 0];
    assert!(!zenraw::is_raw_file(&png));

    // JPEG (not RAW)
    let jpeg = [0xFF, 0xD8, 0xFF, 0xE0, 0, 0, 0, 0, 0, 0, 0, 0];
    assert!(!zenraw::is_raw_file(&jpeg));

    // Too short
    assert!(!zenraw::is_raw_file(&[0, 1, 2]));
    assert!(!zenraw::is_raw_file(&[]));
}

#[test]
fn orf_and_cr3_are_raw_files() {
    assert!(zenraw::is_raw_file(b"IIRO00000000"));
    let cr3 = [0, 0, 0, 0x18, b'f', b't', b'y', b'p', b'c', b'r', b'x', b' '];
    assert!(zenraw::is_raw_file(&cr3));
    // The ORF "IIRS" variant is not accepted by this probe.
    assert!(!zenraw::is_raw_file(b"IIRS00000000"));
}

#[test]
fn dng_and_raw_detection_partition_raw_files() {
    let mut dng = vec![b'I', b'I', 42, 0, 8, 0, 0, 0, 0x12, 0xC6];
    dng.resize(64, 0);
    assert!(is_dng_data(&dng));
    assert!(is_dng_header(&dng));
    assert!(detect_dng(&dng));
    assert!(!detect_raw(&dng));
    let raw = [b'M', b'M', 0, 42, 0, 0, 0, 8, 0, 0, 0, 0];
    assert!(!detect_dng(&raw));
    assert!(detect_raw(&raw));
    let png = [0x89, 0x50, 0x4E, 0x47, 0x0D, 0x0A, 0x1A, 0x0A, 0, 0, 0, 0];
    assert!(!detect_dng(&png));
    assert!(!detect_raw(&png));
}

#[test]
fn bit_depth_from_white_level() {
    assert_eq!(bits_from_whitelevel(4095), 12);
    assert_eq!(bits_from_whitelevel(16383), 14);
    assert_eq!(bits_from_whitelevel(4096), 13);
    assert_eq!(bits_from_whitelevel(1), 1);
    assert_eq!(bits_from_whitelevel(u32::MAX), 32);
    assert_eq!(bits_from_whitelevel(0), 16);
}

#[test]
fn decode_decisions() {
    assert!(within_pixel_limit(100, 100, 10_000));
    assert!(!within_pixel_limit(100, 101, 10_000));
    assert!(!within_pixel_limit(u64::MAX, u64::MAX, u64::MAX));
    assert_eq!(sensor_layout_for(1), SensorLayout::Bayer);
    assert_eq!(sensor_layout_for(3), SensorLayout::LinearRaw);
    assert_eq!(crop_rect_from([0, 0, 0, 0]), None);
    assert_eq!(crop_rect_from([1, 2, 3, 4]), Some([1, 2, 3, 4]));
    assert_eq!(orientation_to_u16(RawOrientation::Rotate90), 6);
    assert_eq!(orientation_to_u16(RawOrientation::Transverse), 7);
    assert_eq!(orientation_to_u16(RawOrientation::Unknown), 1);
    assert_eq!(OutputMode::default(), OutputMode::Develop);
    assert_eq!(SensorLayout::default(), SensorLayout::Bayer);
}

#[test]
fn crop_takes_the_inner_region() {
    // 4×3 RGB image; pixel (r, c) has value r * 10 + c.
    let (w, h) = (4usize, 3usize);
    let mut rgb = Vec::new();
    for r in 0..h {
        for c in 0..w {
            let v = (r * 10 + c) as u16;
            rgb.extend_from_slice(&[v, v, v]);
        }
    }
    // [top, right, bottom, left]
    let (out, nw, nh) = apply_crop(&rgb, w, h, &[1, 1, 0, 1]);
    assert_eq!((nw, nh), (2, 2));
    let firsts: Vec<u16> = out.chunks(3).map(|p| p[0]).collect();
    assert_eq!(firsts, vec![11, 12, 21, 22]);
    // A crop that leaves nothing returns the image unchanged.
    let (same, sw, sh) = apply_crop(&rgb, w, h, &[2, 0, 1, 0]);
    assert_eq!((sw, sh), (w, h));
    assert_eq!(same, rgb);
}

#[test]
fn extract_rgb_cpp3() {
    let data: Vec<f32> = vec![1.0, 2.0, 3.0, 4.0, 5.0, 6.0];
    let result = extract_rgb_from_cpp(&data, 2, 3, 0.0);
    assert_eq!(result, vec![1.0, 2.0, 3.0, 4.0, 5.0, 6.0]);
}

#[test]
fn extract_rgb_cpp4_drops_alpha() {
    let data: Vec<f32> = vec![1.0, 2.0, 3.0, 99.0, 4.0, 5.0, 6.0, 88.0];
    let result = extract_rgb_from_cpp(&data, 2, 4, 0.0);
    assert_eq!(result, vec![1.0, 2.0, 3.0, 4.0, 5.0, 6.0]);
}

#[test]
fn extract_rgb_cpp6() {
    let data: Vec<f32> = vec![1.0, 2.0, 3.0, 4.0, 5.0, 6.0];
    let result = extract_rgb_from_cpp(&data, 1, 6, 0.0);
    assert_eq!(result, vec![1.0, 2.0, 3.0]);
}

#[test]
fn extract_rgb_short_data_pads_zeros() {
    let data: Vec<f32> = vec![1.0]; // only 1 element but expects cpp=3
    let result = extract_rgb_from_cpp(&data, 1, 3, 0.0);
    assert_eq!(result, vec![1.0, 0.0, 0.0]);
}

#[test]
fn fallible_rgb_extraction_matches_and_reports_overflow() {
    let data: Vec<f32> = vec![1.0, 2.0, 3.0, 99.0, 4.0, 5.0, 6.0, 88.0];
    let a = extract_rgb_from_cpp_fallible(&data, 2, 4, 0.0, AllocPref::Fallible).unwrap();
    let b = extract_rgb_from_cpp_fallible(&data, 2, 4, 0.0, AllocPref::Infallible).unwrap();
    assert_eq!(a, vec![1.0, 2.0, 3.0, 4.0, 5.0, 6.0]);
    assert_eq!(a, b);
    let c = extract_rgb_from_cpp_fallible(&data, 2, 3, 0.0, AllocPref::CodecDefault).unwrap();
    assert_eq!(c, vec![1.0, 2.0, 3.0, 99.0, 4.0, 5.0]);
    let e = extract_rgb_from_cpp_fallible(&data, usize::MAX / 2, 1, 0.0, AllocPref::Fallible);
    assert!(matches!(e, Err(RawError::OutOfMemory(_))));
}

#[test]
fn rawler_crop_margins_and_layout() {
    assert_eq!(crop_margins(100, 80, 10, 5, 60, 50), [5, 30, 25, 10]);
    // Areas past the sensor leave no margin.
    assert_eq!(crop_margins(100, 80, 50, 40, 60, 50), [40, 0, 0, 50]);
    assert_eq!(sensor_layout_of(Photometric::Cfa(4)), SensorLayout::Bayer);
    assert_eq!(sensor_layout_of(Photometric::Cfa(36)), SensorLayout::XTrans);
    assert_eq!(sensor_layout_of(Photometric::LinearRaw), SensorLayout::LinearRaw);
    assert_eq!(sensor_layout_of(Photometric::Other), SensorLayout::Unknown);
}

#[test]
fn cfa_tiles() {
    assert_eq!(square_tile_side(36), Some(6));
    assert_eq!(square_tile_side(4), Some(2));
    assert_eq!(square_tile_side(1), Some(1));
    assert_eq!(square_tile_side(0), None);
    assert_eq!(square_tile_side(12), None);
    let rggb = CfaPattern::new(vec![0, 1, 1, 2], 2, 2);
    assert_eq!(rggb.color_at(0, 0), 0);
    assert_eq!(rggb.color_at(0, 1), 1);
    assert_eq!(rggb.color_at(3, 3), 2);
    assert_eq!(rggb.color_at(4, 5), 1);
}

/// A 4×4, 16-bit, uncompressed little-endian DNG whose CFAPattern has the
/// four entries R, G, B, R. IFD0 at 8 with 13 entries ends at 8 + 2 + 156 +
/// 4 = 170; the Make and Model texts follow, then the strip at 196.
fn synthetic_dng() -> Vec<u8> {
    let entry = |d: &mut Vec<u8>, tag: u16, ty: u16, count: u32, field: [u8; 4]| {
        d.extend_from_slice(&tag.to_le_bytes());
        d.extend_from_slice(&ty.to_le_bytes());
        d.extend_from_slice(&count.to_le_bytes());
        d.extend_from_slice(&field);
    };
    let mut d = vec![b'I', b'I', 42, 0, 8, 0, 0, 0];
    d.extend_from_slice(&13u16.to_le_bytes());
    entry(&mut d, 0x0100, 3, 1, [4, 0, 0, 0]); // ImageWidth
    entry(&mut d, 0x0101, 3, 1, [4, 0, 0, 0]); // ImageLength
    entry(&mut d, 0x0102, 3, 1, [16, 0, 0, 0]); // BitsPerSample
    entry(&mut d, 0x0103, 3, 1, [1, 0, 0, 0]); // Compression
    entry(&mut d, 0x0106, 3, 1, 32803u32.to_le_bytes()); // CFA
    entry(&mut d, 0x010F, 2, 7, 170u32.to_le_bytes()); // Make
    entry(&mut d, 0x0110, 2, 13, 178u32.to_le_bytes()); // Model
    entry(&mut d, 0x0111, 4, 1, 196u32.to_le_bytes()); // StripOffsets
    entry(&mut d, 0x0115, 3, 1, [1, 0, 0, 0]); // SamplesPerPixel
    entry(&mut d, 0x0117, 4, 1, 32u32.to_le_bytes()); // StripByteCounts
    entry(&mut d, 0x828E, 1, 4, [0, 1, 2, 0]); // CFAPattern
    entry(&mut d, 0xC612, 1, 4, [1, 4, 0, 0]); // DNGVersion
    entry(&mut d, 0xC61D, 3, 1, [0xFF, 0xFF, 0, 0]); // WhiteLevel
    d.extend_from_slice(&[0, 0, 0, 0]);
    assert_eq!(d.len(), 170);
    d.extend_from_slice(b"ZenRaw\0\0");
    d.extend_from_slice(b"SyntheticDng\0");
    d.resize(196, 0);
    d.extend_from_slice(&[0x11; 32 + 64]);
    d
}

#[test]
fn synthetic_dng_is_recognised_as_raw() {
    let data = synthetic_dng();
    assert!(zenraw::is_raw_file(&data), "synthetic DNG should sniff as RAW");
    assert!(is_dng_data(&data));
    assert_eq!(zenraw::classify::classify(&data), zenraw::classify::FileFormat::Dng);
    let tiff = zenraw::tiff_ifd::TiffStructure::parse(&data).expect("valid TIFF");
    let value = |tag| {
        zenraw::tiff_ifd::read_u32_value(&data, tiff.ifd0_entry(tag).unwrap(), tiff.byte_order)
    };
    assert_eq!(value(0x0100), Some(4));
    assert_eq!(value(0x0101), Some(4));
    let cfa = tiff.ifd0_entry(0x828E).unwrap();
    let pattern = zenraw::tiff_ifd::read_entry_bytes(&data, cfa, tiff.byte_order).unwrap();
    // R, G, B, R.
    assert_eq!(pattern, &[0, 1, 2, 0]);
}

#[test]
fn crop_margins_with_edges_past_32_bits() {
    // x + w overflows u32: the area ends past the sensor, so no right margin.
    assert_eq!(crop_margins(100, 80, u32::MAX, 10, 10, u32::MAX), [10, 0, 0, u32::MAX]);
}

#[test]
fn probe_size_and_crop_choice() {
    assert_eq!(reported_size(Some((10, 20)), Some((30, 40)), (50, 60)), (10, 20));
    assert_eq!(reported_size(None, Some((30, 40)), (50, 60)), (30, 40));
    assert_eq!(reported_size(None, None, (50, 60)), (50, 60));
    let crop = Some((1, 2, 3, 4));
    let active = Some((5, 6, 7, 8));
    assert_eq!(crop_area_choice(crop, active), crop);
    assert_eq!(crop_area_choice(None, active), active);
    assert_eq!(crop_area_choice(None, None), None);
}

#[test]
fn generic_demosaic_only_past_bayer() {
    assert!(!needs_generic_demosaic(4));
    assert!(!needs_generic_demosaic(0));
    assert!(needs_generic_demosaic(5));
    assert!(needs_generic_demosaic(36));
}
