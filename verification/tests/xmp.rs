use zenraw::xmp::{extract_xmp, extract_xmp_packets, get_xmp_property, read_xmp_metadata};

#[test]
fn extract_xmp_property_attribute_form() {
    let xmp = r#"<?xpacket begin="..." ?><x:xmpmeta><rdf:RDF>
        <rdf:Description xmp:Rating="5" xmp:Label="Red" tiff:Make="Nikon" />
    </rdf:RDF></x:xmpmeta><?xpacket end="w"?>"#;

    assert_eq!(get_xmp_property(xmp, "xmp", "Rating"), Some("5".into()));
    assert_eq!(get_xmp_property(xmp, "xmp", "Label"), Some("Red".into()));
    assert_eq!(get_xmp_property(xmp, "tiff", "Make"), Some("Nikon".into()));
    assert_eq!(get_xmp_property(xmp, "xmp", "Missing"), None);
}

#[test]
fn extract_xmp_property_element_form() {
    let xmp = r#"<?xpacket begin="..." ?>
    <x:xmpmeta>
      <rdf:RDF>
        <rdf:Description>
          <xmp:CreatorTool>Adobe Camera Raw 9.0</xmp:CreatorTool>
          <dc:description>Test photo</dc:description>
        </rdf:Description>
      </rdf:RDF>
    </x:xmpmeta>
    <?xpacket end="w"?>"#;

    assert_eq!(
        get_xmp_property(xmp, "xmp", "CreatorTool"),
        Some("Adobe Camera Raw 9.0".into())
    );
    assert_eq!(
        get_xmp_property(xmp, "dc", "description"),
        Some("Test photo".into())
    );
}

#[test]
fn no_xmp_returns_none() {
    let data = b"This is not a RAW file";
    assert!(extract_xmp(data).is_none());
    assert!(extract_xmp_packets(data).is_empty());
}

#[test]
fn element_with_nested_markup_is_not_a_value() {
    let xmp = "<dc:creator><rdf:Seq><rdf:li>Ann</rdf:li></rdf:Seq></dc:creator>";
    assert_eq!(get_xmp_property(xmp, "dc", "creator"), None);
    let unicode = "<dc:title>  Café  </dc:title>";
    assert_eq!(get_xmp_property(unicode, "dc", "title"), Some("Café".into()));
    // An attribute without its closing quote falls back to the element form.
    let open = "<x xmp:Label=\"Blue<xmp:Label>Green</xmp:Label>";
    assert_eq!(get_xmp_property(open, "xmp", "Label"), Some("Green".into()));
}

#[test]
fn packets_are_found_in_order_with_offsets() {
    let mut data = b"junk".to_vec();
    let first = b"<?xpacket begin=\"\"?><a/><?xpacket end=\"w\"?>";
    let second = b"<?xpacket begin=\"x\"?><b/><?xpacket end=\"r\"?>";
    data.extend_from_slice(first);
    data.extend_from_slice(b"--");
    data.extend_from_slice(second);
    let packets = extract_xmp_packets(&data);
    assert_eq!(packets.len(), 2);
    assert_eq!(packets[0].offset, 4);
    assert_eq!(packets[0].xml.as_bytes(), &first[..]);
    assert_eq!(packets[1].offset, 4 + first.len() + 2);
    assert_eq!(packets[1].xml.as_bytes(), &second[..]);
    assert_eq!(extract_xmp(&data).unwrap().as_bytes(), &first[..]);
}

#[test]
fn packet_without_end_is_skipped_and_xmpmeta_fallback_used() {
    let data = b"..<x:xmpmeta a=\"1\"><r/></x:xmpmeta>..<?xpacket begin";
    assert!(extract_xmp_packets(data).is_empty());
    assert_eq!(
        extract_xmp(data).as_deref(),
        Some("<x:xmpmeta a=\"1\"><r/></x:xmpmeta>")
    );
}

#[test]
fn invalid_utf8_packet_is_dropped() {
    let mut data = b"<?xpacket begin".to_vec();
    data.push(0xFF);
    data.extend_from_slice(b"<?xpacket end?>");
    assert!(extract_xmp_packets(&data).is_empty());
}

#[test]
fn metadata_reads_common_properties() {
    let xmp = br#"<?xpacket begin="" ?><x:xmpmeta><rdf:RDF><rdf:Description
        xmp:Rating="-1" crs:Temperature="5500" crs:Exposure="+0.50" crs:Exposure2012="+1.00"
        crs:Contrast="+10" exif:PixelXDimension="4032" exif:PixelYDimension="3024"
        tiff:Orientation="6" tiff:Model="iPhone"/></rdf:RDF></x:xmpmeta><?xpacket end="w"?>"#;
    let m = read_xmp_metadata(xmp).expect("metadata");
    assert_eq!(m.raw_xml.as_deref().map(|s| s.as_bytes()), Some(&xmp[..]));
    assert_eq!(m.rating, Some(-1));
    assert_eq!(m.temperature, Some(5500));
    assert_eq!(m.tint, None);
    assert_eq!(m.exposure.as_deref(), Some("+1.00"));
    assert_eq!(m.contrast.as_deref(), Some("+10"));
    assert_eq!(m.exif_image_width, Some(4032));
    assert_eq!(m.exif_image_height, Some(3024));
    assert_eq!(m.tiff_orientation, Some(6));
    assert_eq!(m.tiff_model.as_deref(), Some("iPhone"));
    assert_eq!(m.tiff_make, None);
    assert!(read_xmp_metadata(b"no metadata here").is_none());
}

#[test]
fn every_packet_holds_its_end_marker() {
    let mut data = b"xx".to_vec();
    data.extend_from_slice(b"<?xpacket begin=\"\"?><a/><?xpacket end=\"w\"?>");
    data.extend_from_slice(b"<?xpacket begin?><?xpacket end?>");
    let packets = extract_xmp_packets(&data);
    assert_eq!(packets.len(), 2);
    for p in &packets {
        assert!(p.xml.starts_with("<?xpacket begin"));
        assert!(p.xml.contains("<?xpacket end"));
        assert!(p.xml.ends_with("?>"));
        assert_eq!(&data[p.offset..p.offset + p.xml.len()], p.xml.as_bytes());
    }
    assert!(packets[0].offset + packets[0].xml.len() <= packets[1].offset);
    assert!(extract_xmp_packets(b"This is not a RAW file").is_empty());
}

#[test]
fn metadata_agrees_with_extract_xmp() {
    let data = b"..<x:xmpmeta xmp:Label=\"Blue\" tiff:Make=\"Sony\"></x:xmpmeta>";
    let xml = extract_xmp(data).expect("xmpmeta block");
    let m = read_xmp_metadata(data).expect("metadata");
    assert_eq!(m.raw_xml.as_deref(), Some(xml.as_str()));
    assert_eq!(m.label, get_xmp_property(&xml, "xmp", "Label"));
    assert_eq!(m.tiff_make, get_xmp_property(&xml, "tiff", "Make"));
    assert_eq!(m.label.as_deref(), Some("Blue"));
    assert!(extract_xmp(b"This is not a RAW file").is_none());
    assert!(read_xmp_metadata(b"This is not a RAW file").is_none());
}
