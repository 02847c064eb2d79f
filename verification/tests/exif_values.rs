use zenraw::exif::{
    gps_coord, value_first_srational, value_rational, value_rational_pair, value_rationals,
    value_srationals, value_u16, value_u32, ExifValue,
};

#[test]
fn single_values() {
    assert_eq!(value_u32(&ExifValue::Short(vec![7, 8])), Some(7));
    assert_eq!(value_u32(&ExifValue::Long(vec![70_000])), Some(70_000));
    assert_eq!(value_u16(&ExifValue::Long(vec![70_000])), Some(70_000u32 as u16));
    assert_eq!(value_u32(&ExifValue::Byte(vec![1])), None);
    assert_eq!(value_rational(&ExifValue::Rational(vec![(1, 250)])), Some((1, 250)));
    assert_eq!(value_rational(&ExifValue::Rational(vec![])), None);
}

#[test]
fn multi_values() {
    let m = ExifValue::SRational(vec![(-1, 2), (3, 4)]);
    assert_eq!(value_srationals(&m), Some(vec![(-1, 2), (3, 4)]));
    assert_eq!(value_first_srational(&m), Some((-1, 2)));
    assert_eq!(value_rationals(&m), None);
    assert_eq!(value_srationals(&ExifValue::SRational(vec![])), None);
    let r = ExifValue::Rational(vec![(3127, 10000), (3290, 10000)]);
    assert_eq!(value_rationals(&r), Some(vec![(3127, 10000), (3290, 10000)]));
    assert_eq!(value_rational_pair(&r), Some(((3127, 10000), (3290, 10000))));
    assert_eq!(value_rational_pair(&ExifValue::Rational(vec![(1, 1)])), None);
}

#[test]
fn gps_coordinates_and_reference() {
    let v = ExifValue::Rational(vec![(48, 1), (51, 1), (2400, 100)]);
    let north = gps_coord(&v, Some("N".to_string())).unwrap();
    assert_eq!((north.degrees, north.minutes, north.seconds), ((48, 1), (51, 1), (2400, 100)));
    assert!(!north.negative);
    assert!(gps_coord(&v, Some("\"S\"".to_string())).unwrap().negative);
    assert!(gps_coord(&v, Some("W".to_string())).unwrap().negative);
    assert!(!gps_coord(&v, None).unwrap().negative);
    assert!(gps_coord(&ExifValue::Rational(vec![(1, 1), (2, 1)]), None).is_none());
}

fn le_entry(d: &mut Vec<u8>, tag: u16, ty: u16, count: u32, field: [u8; 4]) {
    d.extend_from_slice(&tag.to_le_bytes());
    d.extend_from_slice(&ty.to_le_bytes());
    d.extend_from_slice(&count.to_le_bytes());
    d.extend_from_slice(&field);
}

/// IFD0 at 8 with 6 entries (ends at 8 + 2 + 72 + 4 = 86), values after.
fn exif_tiff() -> Vec<u8> {
    let mut d = vec![b'I', b'I', 42, 0, 8, 0, 0, 0];
    d.extend_from_slice(&6u16.to_le_bytes());
    le_entry(&mut d, 0x0100, 3, 1, [0x40, 0x01, 0, 0]); // ImageWidth 320
    le_entry(&mut d, 0x010F, 2, 6, 86u32.to_le_bytes()); // Make "Canon"
    le_entry(&mut d, 0x0112, 3, 1, [6, 0, 0, 0]); // Orientation 6
    le_entry(&mut d, 0xC612, 1, 4, [1, 4, 0, 0]); // DNGVersion
    le_entry(&mut d, 0xC621, 10, 1, 92u32.to_le_bytes()); // ColorMatrix1
    le_entry(&mut d, 0xC62A, 10, 1, 100u32.to_le_bytes()); // BaselineExposure
    d.extend_from_slice(&[0, 0, 0, 0]);
    assert_eq!(d.len(), 86);
    d.extend_from_slice(b"Canon\0");
    d.extend_from_slice(&(-3i32).to_le_bytes());
    d.extend_from_slice(&4i32.to_le_bytes());
    d.extend_from_slice(&1i32.to_le_bytes());
    d.extend_from_slice(&2i32.to_le_bytes());
    d
}

#[test]
fn metadata_words_from_tiff() {
    let m = zenraw::exif::read_metadata_words(&exif_tiff()).expect("EXIF attributes");
    assert_eq!(m.make.as_deref(), Some("Canon"));
    assert_eq!(m.width, Some(320));
    assert_eq!(m.orientation, Some(6));
    assert_eq!(m.dng_version, Some([1, 4, 0, 0]));
    assert_eq!(m.color_matrix_1, Some(vec![(-3, 4)]));
    assert_eq!(m.baseline_exposure, Some((1, 2)));
    assert_eq!(m.height, None);
    assert!(zenraw::exif::read_metadata_words(b"not exif").is_none());
}
