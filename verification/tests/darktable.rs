use zenraw::darktable::{
    detect_extension, is_dng_extension, next_wait_action, parse_pfm_header, pfm_pixel_words,
    DtColorProfile, DtConfig, WaitAction, WaitEvent,
};
use zenraw::error::{RawError, RawLimitKind};

/// Parse a PFM the way the darktable backend does: header, scale sign, then
/// the samples as f32 bit patterns.
fn parse_pfm(data: &[u8]) -> Result<(Vec<f32>, u32, u32), RawError> {
    let header = parse_pfm_header(data)?;
    let scale_text: String = header.scale_text.iter().map(|&b| b as char).collect();
    let scale: f64 = scale_text
        .parse()
        .map_err(|_| RawError::Malformed("invalid PFM scale".into()))?;
    let words = pfm_pixel_words(data, &header, scale < 0.0)?;
    Ok((words.into_iter().map(f32::from_bits).collect(), header.width, header.height))
}

#[test]
fn pfm_round_trip() {
    // Build a minimal 2×2 PFM (little-endian, bottom-to-top)
    let width = 2u32;
    let height = 2u32;
    let mut pfm = Vec::new();
    pfm.extend_from_slice(b"PF\n");
    pfm.extend_from_slice(format!("{width} {height}\n").as_bytes());
    pfm.extend_from_slice(b"-1.0\n"); // negative scale = little-endian

    let bottom_row: [f32; 6] = [0.1, 0.2, 0.3, 0.4, 0.5, 0.6];
    let top_row: [f32; 6] = [0.7, 0.8, 0.9, 1.0, 1.1, 1.2];
    for v in &bottom_row {
        pfm.extend_from_slice(&v.to_le_bytes());
    }
    for v in &top_row {
        pfm.extend_from_slice(&v.to_le_bytes());
    }

    let (pixels, w, h) = parse_pfm(&pfm).unwrap();
    assert_eq!(w, 2);
    assert_eq!(h, 2);
    assert_eq!(pixels.len(), 12);
    // After flipping, top row comes first in our output
    assert!((pixels[0] - 0.7).abs() < 1e-6); // top-left R
    assert!((pixels[6] - 0.1).abs() < 1e-6); // bottom-left R
}

#[test]
fn pfm_big_endian() {
    let mut pfm = Vec::new();
    pfm.extend_from_slice(b"PF\n1 1\n1.0\n"); // positive = big-endian
    let val: f32 = 0.42;
    pfm.extend_from_slice(&val.to_be_bytes());
    pfm.extend_from_slice(&val.to_be_bytes());
    pfm.extend_from_slice(&val.to_be_bytes());

    let (pixels, w, h) = parse_pfm(&pfm).unwrap();
    assert_eq!(w, 1);
    assert_eq!(h, 1);
    assert!((pixels[0] - 0.42).abs() < 1e-6);
}

#[test]
fn detect_extension_dng() {
    let mut data = vec![b'I', b'I', 42, 0, 8, 0, 0, 0];
    data.extend_from_slice(&[0x12, 0xC6]); // DNGVersion tag LE
    data.resize(4096, 0);
    assert_eq!(detect_extension(&data), "dng");
}

#[test]
fn detect_extension_raf() {
    let data = b"FUJIFILM0000000000000000";
    assert_eq!(detect_extension(data), "raf");
}

#[test]
fn detect_extension_tiff_raw() {
    let data = [b'M', b'M', 0, 42, 0, 0, 0, 0, 0, 0, 0, 0];
    assert_eq!(detect_extension(&data), "tiff");
}

#[test]
fn detect_extension_other_inputs() {
    assert_eq!(detect_extension(b"short"), "raw");
    assert_eq!(detect_extension(&[b'I', b'I', 0x55, 0, 0, 0, 0, 0, 0, 0, 0, 0]), "rw2");
    assert_eq!(detect_extension(&[0u8; 16]), "raw");
    // A big-endian DNG tag is searched for in big-endian byte order.
    let mut be = vec![b'M', b'M', 0, 42, 0, 0, 0, 8, 0xC6, 0x12];
    be.resize(20, 0);
    assert_eq!(detect_extension(&be), "dng");
    // Past the first 4 KiB the tag does not count.
    let mut late = vec![b'I', b'I', 42, 0, 8, 0, 0, 0];
    late.resize(4096, 0);
    late.extend_from_slice(&[0x12, 0xC6]);
    assert_eq!(detect_extension(&late), "tiff");
}

#[test]
fn pfm_header_errors() {
    assert!(matches!(parse_pfm_header(b"PF"), Err(RawError::UnexpectedEof(_))));
    assert!(matches!(parse_pfm_header(b"Pf\n1 1\n1\n"), Err(RawError::Malformed(_))));
    assert!(matches!(parse_pfm_header(b"PF\n1\n1\n"), Err(RawError::Malformed(_))));
    assert!(matches!(parse_pfm_header(b"PF\n1 x\n1\n"), Err(RawError::Malformed(_))));
    assert!(matches!(parse_pfm_header(b"PF\n1 1 1\n1\n"), Err(RawError::Malformed(_))));
    assert!(matches!(parse_pfm_header(b"PF\n1 1\n"), Err(RawError::UnexpectedEof(_))));
    // Whitespace around the magic and the numbers is allowed; "+2" parses.
    let h = parse_pfm_header(b"  PF \t\n +2\t 3 \n -1.5 \nDATA").unwrap();
    assert_eq!((h.width, h.height), (2, 3));
    assert_eq!(h.scale_text, b"-1.5".to_vec());
    assert_eq!(h.data_offset, 22);
}

#[test]
fn pfm_data_errors() {
    let short = b"PF\n1 1\n1.0\n\0\0\0\0";
    let h = parse_pfm_header(short).unwrap();
    assert!(matches!(pfm_pixel_words(short, &h, false), Err(RawError::UnexpectedEof(_))));
    let huge = b"PF\n20000 20000\n1.0\n";
    let h = parse_pfm_header(huge).unwrap();
    assert!(matches!(
        pfm_pixel_words(huge, &h, false),
        Err(RawError::LimitExceeded(RawLimitKind::Pixels, _))
    ));
    let overflow = b"PF\n4294967295 4294967295\n1.0\n";
    let h = parse_pfm_header(overflow).unwrap();
    assert!(matches!(pfm_pixel_words(overflow, &h, false), Err(RawError::OutOfMemory(_))));
    let empty = b"PF\n0 7\n-1\n";
    let h = parse_pfm_header(empty).unwrap();
    assert_eq!(pfm_pixel_words(empty, &h, true).unwrap(), Vec::<u32>::new());
}

#[test]
fn config_builders_set_one_field_each() {
    let c = DtConfig::new();
    assert_eq!(c.cli_path, None);
    assert_eq!(c.xmp, None);
    assert_eq!(c.max_pixels, 200_000_000);
    assert_eq!(c.timeout_secs, 120);
    assert_eq!(c.color_profile.icc_type_arg(), "LIN_REC709");
    let c = c
        .with_cli_path("/opt/dt/bin/darktable-cli")
        .with_color_profile(DtColorProfile::Srgb)
        .with_xmp("<x:xmpmeta/>")
        .with_max_pixels(10)
        .with_timeout_secs(5);
    assert_eq!(c.cli_path.as_deref(), Some("/opt/dt/bin/darktable-cli"));
    assert_eq!(c.color_profile.icc_type_arg(), "SRGB");
    assert_eq!(c.xmp.as_deref(), Some("<x:xmpmeta/>"));
    assert_eq!(c.max_pixels, 10);
    assert_eq!(c.timeout_secs, 5);
    assert_eq!(DtColorProfile::LinearRec2020.icc_type_arg(), "LIN_REC2020");
    assert_eq!(DtConfig::default().max_pixels, 200_000_000);
}

#[test]
fn wait_actions() {
    assert_eq!(next_wait_action(WaitEvent::Exited { success: true }, 120), WaitAction::ReadOutput);
    assert_eq!(next_wait_action(WaitEvent::Exited { success: false }, 120), WaitAction::ExitFailed);
    assert_eq!(next_wait_action(WaitEvent::Running { elapsed_secs: 119 }, 120), WaitAction::SleepAndPoll);
    assert_eq!(next_wait_action(WaitEvent::Running { elapsed_secs: 120 }, 120), WaitAction::KillTimedOut);
    assert_eq!(next_wait_action(WaitEvent::WaitFailed, 120), WaitAction::WaitFailed);
}

#[test]
fn dng_extension_ignores_ascii_case() {
    assert!(is_dng_extension("dng"));
    assert!(is_dng_extension("DnG"));
    assert!(!is_dng_extension("dngx"));
    assert!(!is_dng_extension("nef"));
    assert!(!is_dng_extension(""));
}
