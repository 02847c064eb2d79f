use zenraw::apple::{
    extract_gain_map_jpeg, extract_gain_table_map_layout, extract_makernote_bytes,
    extract_semantic_mattes, parse_apple_makernote, parse_gain_table_map,
};
use zenraw::tiff_ifd::ByteOrder;

fn be_entry(t: &mut Vec<u8>, tag: u16, ty: u16, count: u32, field: [u8; 4]) {
    t.extend_from_slice(&tag.to_be_bytes());
    t.extend_from_slice(&ty.to_be_bytes());
    t.extend_from_slice(&count.to_be_bytes());
    t.extend_from_slice(&field);
}

/// An Apple MakerNote with the custom layout: `MM`, entry count, entries.
fn sample_makernote() -> Vec<u8> {
    let mut t = vec![b'M', b'M', 0, 7];
    be_entry(&mut t, 0x0014, 9, 1, 2u32.to_be_bytes()); // ImageCaptureType SLONG 2
    be_entry(&mut t, 0x0007, 4, 1, 3u32.to_be_bytes()); // HDRImageType LONG 3
    be_entry(&mut t, 0x0002, 7, 2, [1, 2, 0, 0]); // AEStable UNDEFINED
    be_entry(&mut t, 0x0005, 3, 1, [0, 1, 0, 0]); // AFStable SHORT 1
    be_entry(&mut t, 0x000B, 2, 5, 88u32.to_be_bytes()); // BurstUUID at 88
    be_entry(&mut t, 0x002D, 5, 1, 96u32.to_be_bytes()); // SNR at 96
    be_entry(&mut t, 0x0006, 10, 3, 104u32.to_be_bytes()); // AccelerationVector at 104
    assert_eq!(t.len(), 88);
    t.extend_from_slice(b"AB-1\0");
    t.resize(96, 0);
    t.extend_from_slice(&10u32.to_be_bytes());
    t.extend_from_slice(&4u32.to_be_bytes());
    for (n, d) in [(-1i32, 2i32), (3, 4), (5, -6)] {
        t.extend_from_slice(&n.to_be_bytes());
        t.extend_from_slice(&d.to_be_bytes());
    }
    let mut m = b"Apple iOS\0".to_vec();
    m.extend_from_slice(&[0, 14]);
    m.extend_from_slice(&t);
    m
}

#[test]
fn makernote_known_fields() {
    let mn = parse_apple_makernote(&sample_makernote()).expect("makernote");
    assert_eq!(mn.version, 14);
    assert_eq!(mn.byte_order, ByteOrder::BigEndian);
    assert_eq!(mn.tags.len(), 7);
    assert_eq!(mn.image_capture_type, Some(2));
    assert_eq!(mn.hdr_image_type, Some(3));
    assert_eq!(mn.ae_stable, Some(true));
    assert_eq!(mn.af_stable, Some(true));
    assert_eq!(mn.burst_uuid.as_deref(), Some("AB-1"));
    assert_eq!(mn.signal_to_noise_ratio, Some((10, 4)));
    assert_eq!(mn.acceleration_vector, Some(vec![(-1, 2), (3, 4), (5, -6)]));
    assert_eq!(mn.image_unique_id, None);
    assert_eq!(mn.tags[2].data, vec![1, 2]);
}

#[test]
fn makernote_rejects_wrong_prefix_and_short_input() {
    assert!(parse_apple_makernote(b"Apple iOS\0\0\x0eMM").is_none());
    let mut wrong = sample_makernote();
    wrong[0] = b'a';
    assert!(parse_apple_makernote(&wrong).is_none());
    let mut bad_order = sample_makernote();
    bad_order[12] = b'X';
    assert!(parse_apple_makernote(&bad_order).is_none());
}

#[test]
fn makernote_entries_stop_at_end_of_data() {
    let mut m = sample_makernote();
    // Cut inside the third entry: only two entries fit.
    m.truncate(12 + 4 + 2 * 12 + 5);
    let mn = parse_apple_makernote(&m).unwrap();
    assert_eq!(mn.tags.len(), 2);
    assert_eq!(mn.ae_stable, None);
}

#[test]
fn makernote_standard_tiff_header_layout() {
    // `MM` 42 and an IFD offset of 8, counted from the byte-order mark.
    let mut t = vec![b'M', b'M', 0, 42, 0, 0, 0, 8, 0, 1];
    be_entry(&mut t, 0x0015, 2, 3, [b'i', b'd', 0, 0]);
    let mut m = b"Apple iOS\0".to_vec();
    m.extend_from_slice(&[0, 1]);
    m.extend_from_slice(&t);
    let mn = parse_apple_makernote(&m).unwrap();
    assert_eq!(mn.version, 1);
    assert_eq!(mn.image_unique_id.as_deref(), Some("id"));
}

/// A JPEG with an MPF index whose second image is a small gain-map JPEG.
fn jpeg_with_gain_map() -> Vec<u8> {
    let mut d = vec![0xFF, 0xD8, 0xFF, 0xE2, 0, 64];
    d.extend_from_slice(b"MPF\0");
    // MPF TIFF structure (starts at offset 10)
    d.extend_from_slice(&[b'M', b'M', 0, 42, 0, 0, 0, 8, 0, 1]);
    d.extend_from_slice(&[0xB0, 0x02, 0, 7, 0, 0, 0, 32, 0, 0, 0, 26]);
    d.extend_from_slice(&[0, 0, 0, 0]);
    // MP entries: image 0 (the primary), image 1 (20 bytes at MPF + 60)
    d.extend_from_slice(&[0; 16]);
    d.extend_from_slice(&[0, 0, 0, 0, 0, 0, 0, 20, 0, 0, 0, 60, 0, 0, 0, 0]);
    assert_eq!(d.len(), 68);
    d.extend_from_slice(&[0, 0]);
    // Gain map JPEG at 70: SOI, SOF0 with height 32 and width 48.
    d.extend_from_slice(&[0xFF, 0xD8, 0xFF, 0xC0, 0, 17, 8, 0, 32, 0, 48, 1]);
    d.resize(90, 0);
    d
}

#[test]
fn gain_map_is_second_mpf_image() {
    let data = jpeg_with_gain_map();
    let gm = extract_gain_map_jpeg(&data).expect("gain map");
    assert_eq!(gm.jpeg_data, data[70..90].to_vec());
    assert_eq!((gm.width, gm.height), (48, 32));
}

#[test]
fn gain_map_absent_without_mpf_or_out_of_range() {
    assert!(extract_gain_map_jpeg(&[0xFF, 0xD8, 0xFF, 0xDA, 0, 0, 0, 0]).is_none());
    let mut data = jpeg_with_gain_map();
    data.truncate(85); // the gain map no longer fits
    assert!(extract_gain_map_jpeg(&data).is_none());
    let mut not_jpeg = jpeg_with_gain_map();
    not_jpeg[70] = 0;
    assert!(extract_gain_map_jpeg(&not_jpeg).is_none());
}

fn le_entry(d: &mut Vec<u8>, tag: u16, ty: u16, count: u32, field: [u8; 4]) {
    d.extend_from_slice(&tag.to_le_bytes());
    d.extend_from_slice(&ty.to_le_bytes());
    d.extend_from_slice(&count.to_le_bytes());
    d.extend_from_slice(&field);
}

/// IFD0 at 8 with a SubIFDs pointer and a MakerNote; the SubIFD holds a
/// semantic sky matte with one strip.
fn appledng_like() -> Vec<u8> {
    let urn = b"urn:com:apple:photo:2020:aux:semanticskymatte\0";
    let mut d = vec![b'I', b'I', 42, 0, 8, 0, 0, 0];
    d.extend_from_slice(&2u16.to_le_bytes());
    le_entry(&mut d, 0x014A, 4, 1, 40u32.to_le_bytes());
    le_entry(&mut d, 0x927C, 7, 3, [7, 8, 9, 0]);
    d.extend_from_slice(&[0, 0, 0, 0]);
    assert_eq!(d.len(), 38);
    d.resize(40, 0);
    // SubIFD at 40 with 7 entries: ends at 40 + 2 + 84 + 4 = 130.
    d.extend_from_slice(&7u16.to_le_bytes());
    le_entry(&mut d, 0x0100, 3, 1, [4, 0, 0, 0]);
    le_entry(&mut d, 0x0101, 4, 1, [2, 0, 0, 0]);
    le_entry(&mut d, 0x0103, 3, 1, [7, 0, 0, 0]);
    le_entry(&mut d, 0x0106, 3, 1, [0x2F, 0xCD, 0, 0]);
    le_entry(&mut d, 0x0111, 4, 1, 180u32.to_le_bytes());
    le_entry(&mut d, 0x0117, 4, 1, 5u32.to_le_bytes());
    le_entry(&mut d, 0xCD2E, 2, urn.len() as u32, 130u32.to_le_bytes());
    d.extend_from_slice(&[0, 0, 0, 0]);
    assert_eq!(d.len(), 130);
    d.extend_from_slice(urn);
    d.resize(180, 0);
    d.extend_from_slice(&[1, 2, 3, 4, 5]);
    d
}

#[test]
fn semantic_matte_from_sub_ifd() {
    let data = appledng_like();
    let mattes = extract_semantic_mattes(&data);
    assert_eq!(mattes.len(), 1);
    let m = &mattes[0];
    assert_eq!(m.matte_type, "urn:com:apple:photo:2020:aux:semanticskymatte");
    assert_eq!(m.short_type, "semanticskymatte");
    assert_eq!((m.width, m.height), (4, 2));
    assert_eq!(m.compression, 7);
    assert_eq!(m.photometric, 0xCD2F);
    assert_eq!(m.data, vec![1, 2, 3, 4, 5]);
    assert!(extract_semantic_mattes(b"not a tiff").is_empty());
}

#[test]
fn makernote_bytes_from_tiff() {
    let data = appledng_like();
    assert_eq!(extract_makernote_bytes(&data), Some(vec![7, 8, 9]));
    assert_eq!(extract_makernote_bytes(b"II"), None);
    assert_eq!(extract_makernote_bytes(b"PNG-not-raw"), None);
}

fn gain_table_raw() -> Vec<u8> {
    let mut raw = Vec::new();
    raw.extend_from_slice(&1u32.to_be_bytes()); // rows
    raw.extend_from_slice(&2u32.to_be_bytes()); // cols
    raw.extend_from_slice(&0.5f64.to_be_bytes());
    raw.extend_from_slice(&0.25f64.to_be_bytes());
    raw.extend_from_slice(&0.0f64.to_be_bytes());
    raw.extend_from_slice(&1.0f64.to_be_bytes());
    raw.extend_from_slice(&2u32.to_be_bytes()); // tonal points
    for w in [1.0f32, 0.0, 0.0, 0.0, 0.0] {
        raw.extend_from_slice(&w.to_be_bytes());
    }
    for g in [1.0f32, 1.5, 2.0, 2.5] {
        raw.extend_from_slice(&g.to_be_bytes());
    }
    raw
}

#[test]
fn gain_table_map_layout() {
    let raw = gain_table_raw();
    let m = parse_gain_table_map(&raw).expect("layout");
    assert_eq!((m.grid_rows, m.grid_cols, m.tonal_points), (1, 2, 2));
    assert_eq!(f64::from_bits(m.spacing_v_bits), 0.5);
    assert_eq!(f64::from_bits(m.origin_h_bits), 1.0);
    assert_eq!(f32::from_bits(m.input_weight_bits[0]), 1.0);
    let table: Vec<f32> = m.table_bits.iter().map(|&b| f32::from_bits(b)).collect();
    assert_eq!(table, vec![1.0, 1.5, 2.0, 2.5]);
    assert!(parse_gain_table_map(&raw[..79]).is_none());
    assert!(parse_gain_table_map(&raw[..40]).is_none());
}

#[test]
fn gain_table_map_from_tiff_tag() {
    let raw = gain_table_raw();
    let mut d = vec![b'I', b'I', 42, 0, 8, 0, 0, 0, 1, 0];
    le_entry(&mut d, 0xCD2D, 7, raw.len() as u32, 26u32.to_le_bytes());
    d.extend_from_slice(&[0, 0, 0, 0]);
    d.extend_from_slice(&raw);
    let m = extract_gain_table_map_layout(&d).expect("layout");
    assert_eq!(m.table_bits.len(), 4);
    assert!(extract_gain_table_map_layout(&d[..60]).is_none());
}

/// A JPEG whose EXIF segment holds a 4-byte MakerNote in the EXIF IFD.
fn jpeg_with_makernote() -> Vec<u8> {
    let mut tiff = vec![b'I', b'I', 42, 0, 8, 0, 0, 0, 1, 0];
    le_entry(&mut tiff, 0x8769, 4, 1, 26u32.to_le_bytes()); // ExifIFD -> 26
    tiff.extend_from_slice(&[0, 0, 0, 0]);
    tiff.extend_from_slice(&[1, 0]);
    le_entry(&mut tiff, 0x927C, 7, 4, [1, 2, 3, 4]); // MakerNote, inline
    tiff.extend_from_slice(&[0, 0, 0, 0]);
    assert_eq!(tiff.len(), 44);
    let mut d = vec![0xFF, 0xD8, 0xFF, 0xE1, 0, 52];
    d.extend_from_slice(b"Exif\0\0");
    d.extend_from_slice(&tiff);
    d.extend_from_slice(&[0xFF, 0xD9]);
    d
}

#[test]
fn makernote_bytes_from_jpeg_exif() {
    assert_eq!(extract_makernote_bytes(&jpeg_with_makernote()), Some(vec![1, 2, 3, 4]));
    // A JPEG without an EXIF segment has none.
    assert_eq!(extract_makernote_bytes(&[0xFF, 0xD8, 0xFF, 0xD9]), None);
}
