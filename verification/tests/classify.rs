use zenraw::classify::{classify, FileFormat};

#[test]
fn classify_jpeg() {
    // JPEG SOI without AMPF
    let data = [0xFF, 0xD8, 0xFF, 0xE1, 0x00, 0x10, b'E', b'x', b'i', b'f'];
    assert_eq!(classify(&data), FileFormat::Jpeg);
}

#[test]
fn classify_unknown() {
    assert_eq!(classify(b"hello"), FileFormat::Unknown);
    assert_eq!(classify(&[]), FileFormat::Unknown);
}

#[test]
fn format_display() {
    assert_eq!(FileFormat::AppleDng.to_string(), "Apple DNG (ProRAW)");
    assert_eq!(
        FileFormat::AppleAmpf.to_string(),
        "Apple AMPF (processed JPEG + gain map)"
    );
}

/// A little-endian TIFF whose IFD0 holds the given tags (no values needed).
fn tiff_le_with_tags(tags: &[u16]) -> Vec<u8> {
    let mut d = vec![b'I', b'I', 42, 0, 8, 0, 0, 0];
    d.extend_from_slice(&(tags.len() as u16).to_le_bytes());
    for &t in tags {
        d.extend_from_slice(&t.to_le_bytes());
        d.extend_from_slice(&[1, 0, 1, 0, 0, 0, 0, 0, 0, 0]);
    }
    d.extend_from_slice(&[0, 0, 0, 0]);
    d
}

#[test]
fn classify_ampf_marker_in_jpeg_header() {
    let mut data = vec![0xFF, 0xD8, 0xFF, 0xE2, 0x00, 0x20];
    data.extend_from_slice(b"AMPF");
    data.resize(80, 0);
    assert_eq!(classify(&data), FileFormat::AppleAmpf);
    // Beyond the first 64 bytes the marker does not count.
    let mut late = vec![0xFF, 0xD8];
    late.resize(70, 0);
    late.extend_from_slice(b"AMPF");
    assert_eq!(classify(&late), FileFormat::Jpeg);
}

#[test]
fn classify_appledng_signature() {
    let mut data = vec![b'M', b'M', 0, 42, 0, 0, 0, 16];
    data.extend_from_slice(b"APPLEDNG");
    data.resize(64, 0);
    assert_eq!(classify(&data), FileFormat::AppleDng);
    assert!(classify(&data).is_apple());
    assert!(classify(&data).has_gain_map());
    assert!(classify(&data).is_raw());
}

#[test]
fn classify_dng_by_ifd0_tag() {
    let data = tiff_le_with_tags(&[0x0100, 0xC612]);
    assert_eq!(classify(&data), FileFormat::Dng);
    let plain = tiff_le_with_tags(&[0x0100, 0x0101]);
    assert_eq!(classify(&plain), FileFormat::TiffRaw);
    // Tags are sorted: a larger tag before 0xC612 ends the scan.
    let unsorted = tiff_le_with_tags(&[0xD000, 0xC612]);
    assert_eq!(classify(&unsorted), FileFormat::TiffRaw);
}

#[test]
fn classify_other_raw_signatures() {
    assert_eq!(classify(b"IIRO\0\0\0\0"), FileFormat::Orf);
    assert_eq!(classify(b"IIRS\0\0\0\0"), FileFormat::Orf);
    assert_eq!(classify(b"FUJIFILMCCD-RAW"), FileFormat::Raf);
    assert_eq!(classify(&[b'I', b'I', 0x55, 0, 0, 0, 0, 0]), FileFormat::Rw2);
    let cr3 = [0, 0, 0, 0x18, b'f', b't', b'y', b'p', b'c', b'r', b'x', b' '];
    assert_eq!(classify(&cr3), FileFormat::Cr3);
    for f in [FileFormat::Orf, FileFormat::Raf, FileFormat::Rw2, FileFormat::Cr3] {
        assert!(f.is_raw());
        assert!(!f.is_apple());
        assert!(!f.has_gain_map());
    }
    assert!(!FileFormat::Jpeg.is_raw());
    assert!(!FileFormat::AppleAmpf.is_raw());
    assert!(FileFormat::AppleAmpf.has_gain_map());
}

#[test]
fn format_names() {
    assert_eq!(FileFormat::Dng.to_string(), "DNG");
    assert_eq!(FileFormat::TiffRaw.to_string(), "TIFF-based RAW");
    assert_eq!(FileFormat::Unknown.to_string(), "Unknown");
    assert_eq!(FileFormat::default(), FileFormat::Unknown);
}
