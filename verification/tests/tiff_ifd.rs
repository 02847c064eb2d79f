use zenraw::tiff_ifd::{
    read_ascii_value, read_entry_bytes, read_long_values, read_u16_value, read_u32_value,
    ByteOrder, TiffStructure,
};

/// Little-endian TIFF writer for tests: IFDs are laid out in order, each
/// entry given as (tag, type, count, 4-byte field).
fn le_ifd(d: &mut Vec<u8>, entries: &[(u16, u16, u32, [u8; 4])], next: u32) {
    d.extend_from_slice(&(entries.len() as u16).to_le_bytes());
    for (tag, ty, count, field) in entries {
        d.extend_from_slice(&tag.to_le_bytes());
        d.extend_from_slice(&ty.to_le_bytes());
        d.extend_from_slice(&count.to_le_bytes());
        d.extend_from_slice(field);
    }
    d.extend_from_slice(&next.to_le_bytes());
}

/// IFD0 at 8 (4 entries, ends at 8 + 2 + 48 + 4 = 62), ASCII text at 62,
/// IFD1 at 80 (1 entry, ends at 98), SubIFD at 100 (2 entries).
fn sample_tiff() -> Vec<u8> {
    let mut d = vec![b'I', b'I', 42, 0, 8, 0, 0, 0];
    le_ifd(
        &mut d,
        &[
            (0x0100, 3, 1, [0x40, 0x01, 0, 0]),      // ImageWidth SHORT 320
            (0x0101, 4, 1, [0xF0, 0, 0, 0]),         // ImageLength LONG 240
            (0x010F, 2, 6, [62, 0, 0, 0]),           // Make ASCII at 62
            (0x014A, 4, 1, [100, 0, 0, 0]),          // SubIFDs -> 100
        ],
        80,
    );
    assert_eq!(d.len(), 62);
    d.extend_from_slice(b"Canon\0");
    d.resize(80, 0);
    le_ifd(&mut d, &[(0x0100, 3, 1, [0x10, 0, 0, 0])], 0);
    d.resize(100, 0);
    le_ifd(
        &mut d,
        &[(0x0100, 3, 2, [1, 0, 2, 0]), (0xCD2E, 7, 3, [9, 8, 7, 0])],
        0,
    );
    d
}

#[test]
fn parse_walks_chain_and_sub_ifds() {
    let data = sample_tiff();
    let tiff = TiffStructure::parse(&data).expect("valid TIFF");
    assert_eq!(tiff.byte_order, ByteOrder::LittleEndian);
    assert_eq!(tiff.ifds.len(), 2);
    assert_eq!(tiff.ifds[0].offset, 8);
    assert_eq!(tiff.ifds[0].entries.len(), 4);
    assert_eq!(tiff.ifds[0].next_ifd_offset, 80);
    assert_eq!(tiff.ifds[1].offset, 80);
    assert_eq!(tiff.sub_ifds.len(), 1);
    assert_eq!(tiff.sub_ifds[0].offset, 100);
}

#[test]
fn parse_rejects_bad_headers() {
    assert!(TiffStructure::parse(b"II*").is_none());
    assert!(TiffStructure::parse(b"XX*\0\x08\0\0\0").is_none());
    assert!(TiffStructure::parse(b"II\x2B\0\x08\0\0\0").is_none());
    // A header whose IFD0 lies outside the file gives an empty chain.
    let t = TiffStructure::parse(b"MM\0*\0\0\x10\0").unwrap();
    assert_eq!(t.byte_order, ByteOrder::BigEndian);
    assert!(t.ifds.is_empty());
}

#[test]
fn chain_stops_after_twenty_ifds() {
    // An IFD that points at itself would loop forever without a cap.
    let mut d = vec![b'I', b'I', 42, 0, 8, 0, 0, 0];
    le_ifd(&mut d, &[], 8);
    let t = TiffStructure::parse(&d).unwrap();
    assert_eq!(t.ifds.len(), 20);
}

#[test]
fn lookups_and_value_reads() {
    let data = sample_tiff();
    let tiff = TiffStructure::parse(&data).unwrap();
    let bo = tiff.byte_order;
    let w = tiff.ifd0_entry(0x0100).unwrap();
    assert_eq!(read_u16_value(&data, w, bo), Some(320));
    assert_eq!(read_u32_value(&data, w, bo), Some(320));
    let h = tiff.ifd0_entry(0x0101).unwrap();
    assert_eq!(read_u32_value(&data, h, bo), Some(240));
    assert_eq!(read_u16_value(&data, h, bo), None);
    let make = tiff.ifd0_entry(0x010F).unwrap();
    assert_eq!(make.data_size(), 6);
    assert!(!make.is_inline());
    assert_eq!(read_ascii_value(&data, make, bo).as_deref(), Some("Canon"));
    assert_eq!(read_entry_bytes(&data, make, bo), Some(&b"Canon\0"[..]));
    assert!(tiff.ifd0_entry(0x9999).is_none());

    let (ifd, e) = tiff.find_entry(0xCD2E).unwrap();
    assert_eq!(ifd.offset, 100);
    assert_eq!(read_entry_bytes(&data, e, bo), Some(&[9u8, 8, 7][..]));
    assert!(e.is_inline());

    let all = tiff.find_all_entries(0x0100);
    assert_eq!(all.len(), 3);
    assert_eq!(all[0].0.offset, 8);
    assert_eq!(all[1].0.offset, 80);
    assert_eq!(all[2].0.offset, 100);
    assert_eq!(read_long_values(&data, all[2].1, bo), vec![1, 2]);
    // find_entry gives the first of find_all_entries.
    let (first_ifd, first) = tiff.find_entry(0x0100).unwrap();
    assert_eq!(first_ifd.offset, all[0].0.offset);
    assert_eq!(first.value_offset, all[0].1.value_offset);
}

#[test]
fn out_of_range_values_are_unavailable() {
    let mut data = sample_tiff();
    // Point the Make string past the end of the file.
    data[8 + 2 + 2 * 12 + 8] = 0xFF;
    let tiff = TiffStructure::parse(&data).unwrap();
    let make = tiff.ifd0_entry(0x010F).unwrap();
    assert_eq!(read_entry_bytes(&data, make, tiff.byte_order), None);
    assert_eq!(read_ascii_value(&data, make, tiff.byte_order), None);
}

#[test]
fn parsed_ifds_lie_within_the_data() {
    let data = sample_tiff();
    let t = TiffStructure::parse(&data).unwrap();
    assert!(t.ifds.len() <= 20);
    assert_eq!(t.ifds[0].offset, 8);
    for k in 0..t.ifds.len() - 1 {
        assert_eq!(t.ifds[k + 1].offset, t.ifds[k].next_ifd_offset as usize);
    }
    for ifd in t.ifds.iter().chain(t.sub_ifds.iter()) {
        assert!(ifd.offset > 0);
        assert!(ifd.offset + 2 + 12 * ifd.entries.len() + 4 <= data.len());
        let n = u16::from_le_bytes([data[ifd.offset], data[ifd.offset + 1]]) as usize;
        assert_eq!(ifd.entries.len(), n);
    }
}

#[test]
fn long_values_read_every_counted_element() {
    let data = sample_tiff();
    let t = TiffStructure::parse(&data).unwrap();
    // Two SHORTs inline: [1, 2].
    let e = &t.sub_ifds[0].entries[0];
    assert_eq!(read_long_values(&data, e, ByteOrder::LittleEndian), vec![1, 2]);
    // UNDEFINED reads as nothing.
    let u = &t.sub_ifds[0].entries[1];
    assert!(read_long_values(&data, u, ByteOrder::LittleEndian).is_empty());
}
