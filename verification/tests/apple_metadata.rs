use zenraw::apple::metadata::{
    extract_apple_metadata, extract_gain_map, extract_gain_map_from_jpeg, parse_gain_map_xmp,
};
use zenraw::apple::{extract_dng_preview, extract_dng_profile_words};
use zenraw::classify::FileFormat;
use zenraw::tiff_ifd::{read_double_words, read_float_words, read_rational_words, ByteOrder, TiffStructure};

fn le_entry(d: &mut Vec<u8>, tag: u16, ty: u16, count: u32, field: [u8; 4]) {
    d.extend_from_slice(&tag.to_le_bytes());
    d.extend_from_slice(&ty.to_le_bytes());
    d.extend_from_slice(&count.to_le_bytes());
    d.extend_from_slice(&field);
}

/// A little-endian DNG-like TIFF whose IFD0 holds the profile tags.
/// IFD0 at 8 with 7 entries ends at 8 + 2 + 84 + 4 = 98; values follow.
fn profile_tiff() -> Vec<u8> {
    let mut d = vec![b'I', b'I', 42, 0, 8, 0, 0, 0];
    d.extend_from_slice(&7u16.to_le_bytes());
    le_entry(&mut d, 0xC62B, 5, 1, 98u32.to_le_bytes()); // BaselineNoise RATIONAL
    le_entry(&mut d, 0xC62E, 10, 1, 106u32.to_le_bytes()); // LinearResponseLimit SRATIONAL
    le_entry(&mut d, 0xC6F8, 2, 4, *b"Std\0"); // ProfileName
    le_entry(&mut d, 0xC6FC, 11, 2, 114u32.to_le_bytes()); // ProfileToneCurve FLOAT x2
    le_entry(&mut d, 0xC761, 12, 1, 122u32.to_le_bytes()); // NoiseProfile DOUBLE
    le_entry(&mut d, 0xC7B5, 5, 4, 130u32.to_le_bytes()); // DefaultUserCrop RATIONAL x4
    le_entry(&mut d, 0xC6F7, 4, 1, [1, 0, 0, 0]); // HueSatMapEncoding as LONG
    d.extend_from_slice(&[0, 0, 0, 0]);
    assert_eq!(d.len(), 98);
    d.extend_from_slice(&3u32.to_le_bytes());
    d.extend_from_slice(&4u32.to_le_bytes());
    d.extend_from_slice(&(-1i32).to_le_bytes());
    d.extend_from_slice(&2i32.to_le_bytes());
    d.extend_from_slice(&0.5f32.to_le_bytes());
    d.extend_from_slice(&1.0f32.to_le_bytes());
    d.extend_from_slice(&0.125f64.to_le_bytes());
    for (n, den) in [(0u32, 1u32), (1, 10), (1, 1), (9, 10)] {
        d.extend_from_slice(&n.to_le_bytes());
        d.extend_from_slice(&den.to_le_bytes());
    }
    assert_eq!(d.len(), 162);
    d
}

#[test]
fn value_words_of_profile_tags() {
    let data = profile_tiff();
    let tiff = TiffStructure::parse(&data).unwrap();
    let e = |tag| tiff.ifd0_entry(tag).unwrap();
    assert_eq!(read_rational_words(&data, e(0xC62B), ByteOrder::LittleEndian), vec![(3, 4)]);
    let floats = read_float_words(&data, e(0xC6FC), ByteOrder::LittleEndian);
    assert_eq!(floats, vec![0.5f32.to_bits(), 1.0f32.to_bits()]);
    let doubles = read_double_words(&data, e(0xC761), ByteOrder::LittleEndian);
    assert_eq!(doubles, vec![0.125f64.to_bits()]);
    // Wrong types give nothing.
    assert!(read_float_words(&data, e(0xC62B), ByteOrder::LittleEndian).is_empty());
    assert!(read_double_words(&data, e(0xC6FC), ByteOrder::LittleEndian).is_empty());
    assert!(read_rational_words(&data, e(0xC6F7), ByteOrder::LittleEndian).is_empty());
}

#[test]
fn big_endian_double_words_join_high_word_first() {
    // MM header, IFD0 at 8 with one DOUBLE entry whose value sits at 26.
    let mut d = vec![b'M', b'M', 0, 42, 0, 0, 0, 8, 0, 1];
    d.extend_from_slice(&0xC761u16.to_be_bytes());
    d.extend_from_slice(&12u16.to_be_bytes());
    d.extend_from_slice(&1u32.to_be_bytes());
    d.extend_from_slice(&26u32.to_be_bytes());
    d.extend_from_slice(&[0, 0, 0, 0]);
    d.extend_from_slice(&2.5f64.to_be_bytes());
    let tiff = TiffStructure::parse(&d).unwrap();
    let entry = tiff.ifd0_entry(0xC761).unwrap();
    assert_eq!(read_double_words(&d, entry, ByteOrder::BigEndian), vec![2.5f64.to_bits()]);
}

#[test]
fn dng_profile_words() {
    let data = profile_tiff();
    let p = extract_dng_profile_words(&data).expect("profile");
    assert_eq!(p.name.as_deref(), Some("Std"));
    assert_eq!(p.tone_curve_bits, Some(vec![0.5f32.to_bits(), 1.0f32.to_bits()]));
    assert_eq!(p.noise_profile_bits, Some(vec![0.125f64.to_bits()]));
    assert_eq!(p.noise_profile_rationals, None);
    assert_eq!(p.baseline_noise, Some((3, 4, false)));
    assert_eq!(p.linear_response_limit, Some(((-1i32) as u32, 2, true)));
    assert_eq!(p.default_user_crop, Some([(0, 1, false), (1, 10, false), (1, 1, false), (9, 10, false)]));
    // Stored as LONG, not RATIONAL: not read.
    assert_eq!(p.hue_sat_map_encoding, None);
    assert_eq!(p.baseline_sharpness, None);
    assert!(extract_dng_profile_words(b"not a tiff at all").is_none());
}

/// A JPEG with an MPF index whose second image is a gain-map JPEG holding
/// an XMP packet with HDR properties.
fn ampf_with_gain_map() -> Vec<u8> {
    let xmp = b"<x:xmpmeta><rdf:Description HDRGainMap:HDRGainMapVersion=\"65536\" \
HDRGainMap:HDRGainMapHeadroom=\"3.5\" HDRToneMap:BaseRenditionIsHDR=\"True\" \
apdi:NativeFormat=\"RGB\"/></x:xmpmeta>";
    let mut gm = vec![0xFF, 0xD8, 0xFF, 0xC0, 0, 17, 8, 0, 32, 0, 48, 1];
    gm.resize(20, 0);
    gm.extend_from_slice(xmp);
    // SOI, then an APP1 segment holding the AMPF marker, then the MPF APP2
    // segment whose TIFF structure starts at 18.
    let mut d = vec![0xFF, 0xD8, 0xFF, 0xE1, 0, 6, b'A', b'M', b'P', b'F'];
    d.extend_from_slice(&[0xFF, 0xE2, 0, 64]);
    d.extend_from_slice(b"MPF\0");
    d.extend_from_slice(&[b'M', b'M', 0, 42, 0, 0, 0, 8, 0, 1]);
    d.extend_from_slice(&[0xB0, 0x02, 0, 7, 0, 0, 0, 32, 0, 0, 0, 26]);
    d.extend_from_slice(&[0, 0, 0, 0]);
    d.extend_from_slice(&[0; 16]);
    d.extend_from_slice(&[0, 0, 0, 0]);
    d.extend_from_slice(&(gm.len() as u32).to_be_bytes());
    d.extend_from_slice(&[0, 0, 0, 60, 0, 0, 0, 0]);
    assert_eq!(d.len(), 76);
    d.extend_from_slice(&[0, 0]);
    // The gain map JPEG at 18 + 60 = 78.
    d.extend_from_slice(&gm);
    d
}

#[test]
fn gain_map_xmp_properties() {
    let x = parse_gain_map_xmp(
        "<rdf:Description HDRGainMap:HDRGainMapVersion=\"2\" HDRToneMap:Gamma=\"1.0\" \
HDRToneMap:BaseRenditionIsHDR=\"false\"/>",
    );
    assert_eq!(x.version, Some(2));
    assert_eq!(x.gamma.as_deref(), Some("1.0"));
    assert_eq!(x.base_rendition_is_hdr, Some(false));
    assert_eq!(x.headroom, None);
    let y = parse_gain_map_xmp("<a HDRToneMap:BaseRenditionIsHDR=\"1\" HDRGainMap:HDRGainMapVersion=\"x\"/>");
    assert_eq!(y.base_rendition_is_hdr, Some(true));
    assert_eq!(y.version, None);
}

#[test]
fn gain_map_with_hdr_metadata() {
    let data = ampf_with_gain_map();
    let g = extract_gain_map_from_jpeg(&data).expect("gain map");
    assert_eq!((g.image.width, g.image.height), (48, 32));
    assert_eq!(g.hdr.version, Some(65536));
    assert_eq!(g.hdr.headroom.as_deref(), Some("3.5"));
    assert_eq!(g.hdr.base_rendition_is_hdr, Some(true));
    assert!(extract_gain_map(&data).is_some());
    // A TIFF without a preview JPEG, and short data, give none.
    assert!(extract_gain_map(b"II*\0\x08\0\0\0").is_none());
    assert!(extract_gain_map(&[0xFF, 0xD8]).is_none());
}

/// A little-endian TIFF whose IFD0 (NewSubfileType `kind`) has one strip:
/// the AMPF JPEG above, stored at 50.
fn dng_with_preview(kind: u32) -> Vec<u8> {
    let jpeg = ampf_with_gain_map();
    let mut d = vec![b'I', b'I', 42, 0, 8, 0, 0, 0];
    d.extend_from_slice(&3u16.to_le_bytes());
    le_entry(&mut d, 0x00FE, 4, 1, kind.to_le_bytes());
    le_entry(&mut d, 0x0111, 4, 1, 50u32.to_le_bytes());
    le_entry(&mut d, 0x0117, 4, 1, (jpeg.len() as u32).to_le_bytes());
    d.extend_from_slice(&[0, 0, 0, 0]);
    assert_eq!(d.len(), 50);
    d.extend_from_slice(&jpeg);
    d
}

#[test]
fn dng_gain_map_comes_from_the_preview_jpeg() {
    let data = dng_with_preview(1);
    assert_eq!(extract_dng_preview(&data), Some(ampf_with_gain_map()));
    let g = extract_gain_map(&data).expect("gain map in the preview");
    assert_eq!((g.image.width, g.image.height), (48, 32));
    assert_eq!(g.hdr.version, Some(65536));
    // The main image (NewSubfileType 0) is no preview.
    let main = dng_with_preview(0);
    assert_eq!(extract_dng_preview(&main), None);
    assert!(extract_gain_map(&main).is_none());
    // A preview whose data is no JPEG is skipped.
    let mut broken = dng_with_preview(1);
    broken[50] = 0;
    assert_eq!(extract_dng_preview(&broken), None);
}

#[test]
fn apple_metadata_of_ampf() {
    let data = ampf_with_gain_map();
    let m = extract_apple_metadata(&data).expect("apple file");
    assert_eq!(m.format, FileFormat::AppleAmpf);
    assert!(m.dng_profile.is_none());
    assert!(m.semantic_mattes.is_empty());
    assert!(m.gain_map.is_some());
    // apdi properties are found in the gain map's XMP.
    assert_eq!(m.native_format.as_deref(), Some("RGB"));
    assert_eq!(m.auxiliary_image_type, None);
    // Not an Apple file.
    assert!(extract_apple_metadata(&profile_tiff()).is_none());
}
