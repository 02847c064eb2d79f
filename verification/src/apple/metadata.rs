//! Everything Apple-specific that a file carries, gathered in one pass: the
//! MakerNote, the DNG profile, the Smart HDR gain table, the semantic
//! mattes, the HDR gain map with its XMP, and the `apdi:` XMP properties.
use vstd::prelude::*;

use crate::apple::{
    extract_dng_profile_words, extract_gain_map_jpeg, extract_gain_table_map_layout,
    extract_makernote_bytes, extract_semantic_mattes, matte_view, parse_apple_makernote,
    spec_gain_map_jpeg, spec_dng_preview, extract_dng_preview, spec_jpeg_makernote_bytes, spec_makernote, spec_tiff_makernote_bytes, tag_views, AppleMakerNote, DngProfileWords, GainMapImage, GainTableMapLayout,
    SemanticMatte,
};
use crate::classify::{classify, spec_classify, FileFormat};
use crate::text::{opt_int, opt_text};
use crate::xmp::{
    extract_xmp, extract_xmp_packets, get_xmp_property, packet_views, spec_extract_xmp,
    spec_packets, xmp_int_property, xmp_property,
};

verus! {

// ── Gain map XMP ─────────────────────────────────────────────────────

/// `"True"`, `"true"` or `"1"`: the texts read as a true flag.
pub open spec fn is_true_text(s: Seq<char>) -> bool {
    s == "True"@ || s == "true"@ || s == "1"@
}

/// A flag property: present, and whether its text reads as true.
pub open spec fn xmp_flag_property(x: Seq<char>, ns: Seq<char>, name: Seq<char>) -> Option<bool> {
    match xmp_property(x, ns, name) {
        Some(v) => Some(is_true_text(v)),
        None => None,
    }
}

/// HDR metadata of a gain map, read from its XMP. Decimal values are kept
/// as the property text.
#[derive(Clone, Debug)]
pub struct GainMapXmp {
    /// `HDRGainMap:HDRGainMapHeadroom` — max brightness in stops.
    pub headroom: Option<String>,
    /// `HDRGainMap:HDRGainMapVersion`.
    pub version: Option<u32>,
    /// `HDRToneMap:GainMapMax`.
    pub gain_map_max: Option<String>,
    /// `HDRToneMap:GainMapMin`.
    pub gain_map_min: Option<String>,
    /// `HDRToneMap:Gamma`.
    pub gamma: Option<String>,
    /// `HDRToneMap:OffsetHDR`.
    pub offset_hdr: Option<String>,
    /// `HDRToneMap:OffsetSDR`.
    pub offset_sdr: Option<String>,
    /// `HDRToneMap:BaseRenditionIsHDR`.
    pub base_rendition_is_hdr: Option<bool>,
    /// `HDRToneMap:BaseHeadroom`.
    pub base_headroom: Option<String>,
    /// `HDRToneMap:AlternateHeadroom`.
    pub alternate_headroom: Option<String>,
}

impl GainMapXmp {
    /// No property present.
    pub open spec fn is_empty(self) -> bool {
        &&& self.headroom is None
        &&& self.version is None
        &&& self.gain_map_max is None
        &&& self.gain_map_min is None
        &&& self.gamma is None
        &&& self.offset_hdr is None
        &&& self.offset_sdr is None
        &&& self.base_rendition_is_hdr is None
        &&& self.base_headroom is None
        &&& self.alternate_headroom is None
    }

    /// Every field holds its property in the XMP text `x`.
    pub open spec fn describes(self, x: Seq<char>) -> bool {
        &&& opt_text(self.headroom) == xmp_property(x, "HDRGainMap"@, "HDRGainMapHeadroom"@)
        &&& opt_int(self.version) == xmp_int_property(
            x,
            "HDRGainMap"@,
            "HDRGainMapVersion"@,
            false,
            0,
            u32::MAX as int,
        )
        &&& opt_text(self.gain_map_max) == xmp_property(x, "HDRToneMap"@, "GainMapMax"@)
        &&& opt_text(self.gain_map_min) == xmp_property(x, "HDRToneMap"@, "GainMapMin"@)
        &&& opt_text(self.gamma) == xmp_property(x, "HDRToneMap"@, "Gamma"@)
        &&& opt_text(self.offset_hdr) == xmp_property(x, "HDRToneMap"@, "OffsetHDR"@)
        &&& opt_text(self.offset_sdr) == xmp_property(x, "HDRToneMap"@, "OffsetSDR"@)
        &&& self.base_rendition_is_hdr == xmp_flag_property(x, "HDRToneMap"@, "BaseRenditionIsHDR"@)
        &&& opt_text(self.base_headroom) == xmp_property(x, "HDRToneMap"@, "BaseHeadroom"@)
        &&& opt_text(self.alternate_headroom) == xmp_property(x, "HDRToneMap"@, "AlternateHeadroom"@)
    }

    /// No property present.
    pub fn empty() -> (r: Self)
        ensures
            r.is_empty(),
    {
        GainMapXmp {
            headroom: None,
            version: None,
            gain_map_max: None,
            gain_map_min: None,
            gamma: None,
            offset_hdr: None,
            offset_sdr: None,
            base_rendition_is_hdr: None,
            base_headroom: None,
            alternate_headroom: None,
        }
    }
}

/// Whether `s` is one of the texts read as a true flag.
fn text_is_true(s: &String) -> (r: bool)
    ensures
        r == is_true_text(s@),
{
    let upper = String::from_str("True");
    let lower = String::from_str("true");
    let one = String::from_str("1");
    proof {
        reveal_strlit("True");
        reveal_strlit("true");
        reveal_strlit("1");
    }
    s.eq(&upper) || s.eq(&lower) || s.eq(&one)
}

/// Read the HDR gain map properties from the gain map's XMP text.
pub fn parse_gain_map_xmp(xmp: &str) -> (r: GainMapXmp)
    ensures
        r.describes(xmp@),
{
    // Apple HDR Gain Map namespace
    let headroom = get_xmp_property(xmp, "HDRGainMap", "HDRGainMapHeadroom");
    let version = match get_xmp_property(xmp, "HDRGainMap", "HDRGainMapVersion") {
        Some(s) => crate::text::parse_u32(s.as_str()),
        None => None,
    };
    // Adobe/ISO 21496 HDR Tone Map namespace
    let gain_map_max = get_xmp_property(xmp, "HDRToneMap", "GainMapMax");
    let gain_map_min = get_xmp_property(xmp, "HDRToneMap", "GainMapMin");
    let gamma = get_xmp_property(xmp, "HDRToneMap", "Gamma");
    let offset_hdr = get_xmp_property(xmp, "HDRToneMap", "OffsetHDR");
    let offset_sdr = get_xmp_property(xmp, "HDRToneMap", "OffsetSDR");
    let base_rendition_is_hdr = match get_xmp_property(xmp, "HDRToneMap", "BaseRenditionIsHDR") {
        Some(s) => Some(text_is_true(&s)),
        None => None,
    };
    let base_headroom = get_xmp_property(xmp, "HDRToneMap", "BaseHeadroom");
    let alternate_headroom = get_xmp_property(xmp, "HDRToneMap", "AlternateHeadroom");
    GainMapXmp {
        headroom,
        version,
        gain_map_max,
        gain_map_min,
        gamma,
        offset_hdr,
        offset_sdr,
        base_rendition_is_hdr,
        base_headroom,
        alternate_headroom,
    }
}

// ── Gain map ─────────────────────────────────────────────────────────

/// An HDR gain map: its JPEG image and the HDR metadata of its XMP.
#[derive(Clone, Debug)]
pub struct GainMapInfoWords {
    /// The gain map image and its dimensions.
    pub image: GainMapImage,
    /// HDR metadata from the gain map JPEG's XMP (all absent without XMP).
    pub hdr: GainMapXmp,
}

impl GainMapInfoWords {
    /// The gain map of the JPEG `d`, with the metadata of its own XMP.
    pub open spec fn is_gain_map_of(self, d: Seq<u8>) -> bool {
        &&& spec_gain_map_jpeg(d) == Some((self.image.jpeg_data@, self.image.width, self.image.height))
        &&& match spec_extract_xmp(self.image.jpeg_data@) {
            Some(x) => self.hdr.describes(x),
            None => self.hdr.is_empty(),
        }
    }
}

/// The gain map in a JPEG with an MPF index, with its XMP metadata.
pub fn extract_gain_map_from_jpeg(jpeg_data: &[u8]) -> (r: Option<GainMapInfoWords>)
    ensures
        r is Some <==> spec_gain_map_jpeg(jpeg_data@) is Some,
        r matches Some(g) ==> g.is_gain_map_of(jpeg_data@),
{
    let image = extract_gain_map_jpeg(jpeg_data)?;
    // Parse XMP in the gain map JPEG
    let hdr = match extract_xmp(image.jpeg_data.as_slice()) {
        Some(xmp) => parse_gain_map_xmp(xmp.as_str()),
        None => GainMapXmp::empty(),
    };
    Some(GainMapInfoWords { image, hdr })
}

/// The JPEG that carries a file's gain map: the file itself when it is a
/// JPEG, its embedded preview when it is a TIFF; none for anything else or
/// for fewer than 4 bytes.
pub open spec fn spec_gain_map_source(d: Seq<u8>) -> Option<Seq<u8>> {
    if d.len() < 4 {
        None
    } else if d[0] == 0xFF && d[1] == 0xD8 {
        Some(d)
    } else if (d[0] == 0x4D && d[1] == 0x4D) || (d[0] == 0x49 && d[1] == 0x49) {
        spec_dng_preview(d)
    } else {
        None
    }
}

/// The file carries a gain map: its gain map JPEG has an MPF gain map.
pub open spec fn has_gain_map(d: Seq<u8>) -> bool {
    spec_gain_map_source(d) matches Some(s) && spec_gain_map_jpeg(s) is Some
}

/// Extract the HDR gain map from an Apple AMPF or APPLEDNG file.
///
/// For AMPF the MPF index of the JPEG itself is read; for APPLEDNG that of
/// the embedded preview JPEG.
pub fn extract_gain_map(data: &[u8]) -> (r: Option<GainMapInfoWords>)
    ensures
        r is Some <==> has_gain_map(data@),
        r matches Some(g) ==> (spec_gain_map_source(data@) matches Some(s) && g.is_gain_map_of(s)),
{
    if data.len() < 4 {
        return None;
    }
    if data[0] == 0xFF && data[1] == 0xD8 {
        // JPEG-based (AMPF or embedded preview)
        extract_gain_map_from_jpeg(data)
    } else if (data[0] == 0x4D && data[1] == 0x4D) || (data[0] == 0x49 && data[1] == 0x49) {
        // TIFF-based (APPLEDNG): the gain map sits in the preview JPEG
        let preview = extract_dng_preview(data)?;
        extract_gain_map_from_jpeg(preview.as_slice())
    } else {
        None
    }
}

// ── Apple metadata ───────────────────────────────────────────────────

/// The first of the XMP texts `xs` that holds `ns:name`, with its value.
pub open spec fn first_property(xs: Seq<Seq<char>>, ns: Seq<char>, name: Seq<char>) -> Option<Seq<char>>
    decreases xs.len(),
{
    if xs.len() == 0 {
        None
    } else {
        match xmp_property(xs[0], ns, name) {
            Some(v) => Some(v),
            None => first_property(xs.drop_first(), ns, name),
        }
    }
}

/// The XMP texts searched for `apdi:` properties: each packet of the file in
/// order, then the gain map JPEG's XMP.
pub open spec fn apdi_sources(d: Seq<u8>, gain_map: Option<Seq<u8>>) -> Seq<Seq<char>> {
    let packets = spec_packets(d, 0).map_values(|p: (Seq<char>, int)| p.0);
    match gain_map {
        None => packets,
        Some(g) => match spec_extract_xmp(g) {
            Some(x) => packets.push(x),
            None => packets,
        },
    }
}

/// Complete Apple-specific metadata extracted from an APPLEDNG or AMPF file.
#[derive(Clone, Debug)]
pub struct AppleMetadataWords {
    /// Apple MakerNote data.
    pub makernote: Option<AppleMakerNote>,
    /// DNG profile data (APPLEDNG only).
    pub dng_profile: Option<DngProfileWords>,
    /// ProfileGainTableMap — Smart HDR spatially-varying gain (APPLEDNG only).
    pub gain_table_map: Option<GainTableMapLayout>,
    /// HDR gain map info: from the JPEG itself (AMPF) or from the embedded
    /// preview JPEG (APPLEDNG).
    pub gain_map: Option<GainMapInfoWords>,
    /// Semantic segmentation mattes (APPLEDNG only).
    pub semantic_mattes: Vec<SemanticMatte>,
    /// File format detected.
    pub format: FileFormat,
    /// `apdi:AuxiliaryImageType` — type of auxiliary image.
    pub auxiliary_image_type: Option<String>,
    /// `apdi:NativeFormat` — native pixel format.
    pub native_format: Option<String>,
    /// `apdi:StoredFormat` — stored pixel format.
    pub stored_format: Option<String>,
}

/// `m` is the MakerNote parsed from `bytes`: none without bytes, else
/// what the MakerNote parser gives for them.
pub open spec fn makernote_of(m: Option<AppleMakerNote>, bytes: Option<Seq<u8>>) -> bool {
    match bytes {
        None => m is None,
        Some(b) => match m {
            None => spec_makernote(b) is None,
            Some(mn) => {
                &&& spec_makernote(b) == Some((mn.version, mn.byte_order, tag_views(mn.tags@)))
                &&& mn.known_fields_from(tag_views(mn.tags@), mn.byte_order)
            },
        },
    }
}

impl AppleMetadataWords {
    /// The fields read from the file `d` as its format calls for: the
    /// DNG-only parts only for APPLEDNG, and each `apdi:` property from the
    /// first XMP source that holds it.
    pub open spec fn describes(self, d: Seq<u8>) -> bool {
        let gm = match self.gain_map {
            Some(g) => Some(g.image.jpeg_data@),
            None => None,
        };
        let xs = apdi_sources(d, gm);
        &&& self.format == spec_classify(d)
        &&& (self.format is AppleDng) ==> makernote_of(self.makernote, spec_tiff_makernote_bytes(d))
        &&& (self.format is AppleAmpf) ==> makernote_of(self.makernote, spec_jpeg_makernote_bytes(d))
        &&& (self.format is AppleDng) ==> self.dng_profile is Some == (crate::tiff_ifd::spec_parse(d) is Some)
        &&& (self.format is AppleDng) ==> (self.dng_profile matches Some(p) ==> p.describes(d))
        &&& !(self.format is AppleDng) ==> self.dng_profile is None
        &&& !(self.format is AppleDng) ==> self.gain_table_map is None
        &&& !(self.format is AppleDng) ==> self.semantic_mattes@.len() == 0
        &&& (self.format is AppleDng) ==> self.semantic_mattes@.map_values(|m: SemanticMatte| matte_view(m))
            == crate::apple::spec_semantic_mattes(d)
        &&& (self.gain_map is Some <==> has_gain_map(d))
        &&& (self.gain_map matches Some(g) ==> (spec_gain_map_source(d) matches Some(s) && g.is_gain_map_of(s)))
        &&& opt_text(self.auxiliary_image_type) == first_property(xs, "apdi"@, "AuxiliaryImageType"@)
        &&& opt_text(self.native_format) == first_property(xs, "apdi"@, "NativeFormat"@)
        &&& opt_text(self.stored_format) == first_property(xs, "apdi"@, "StoredFormat"@)
    }
}

/// `current`, or else `ns:name` read from the XMP text `xmp`.
fn fill_property(current: Option<String>, xmp: &str, ns: &str, name: &str) -> (r: Option<String>)
    ensures
        opt_text(r) == (match current {
            Some(c) => Some(c@),
            None => xmp_property(xmp@, ns@, name@),
        }),
{
    match current {
        Some(c) => Some(c),
        None => get_xmp_property(xmp, ns, name),
    }
}

proof fn lemma_first_property_push(xs: Seq<Seq<char>>, x: Seq<char>, ns: Seq<char>, name: Seq<char>)
    ensures
        first_property(xs.push(x), ns, name) == (match first_property(xs, ns, name) {
            Some(v) => Some(v),
            None => xmp_property(x, ns, name),
        }),
    decreases xs.len(),
{
    if xs.len() > 0 {
        assert(xs.push(x)[0] == xs[0]);
        assert(xs.push(x).drop_first() =~= xs.drop_first().push(x));
        lemma_first_property_push(xs.drop_first(), x, ns, name);
    } else {
        let ys = xs.push(x);
        assert(ys[0] == x);
        assert(ys.drop_first() =~= Seq::<Seq<char>>::empty());
        assert(first_property(ys.drop_first(), ns, name) is None);
        assert(first_property(xs, ns, name) is None);
    }
}

/// The `apdi:` properties: each from the first of the XMP texts `xs` that
/// holds it.
fn apdi_properties(
    packets: &Vec<crate::xmp::XmpPacket>,
    gain_map_xmp: Option<String>,
) -> (r: (Option<String>, Option<String>, Option<String>))
    ensures
        ({
            let ps = packet_views(packets@).map_values(|p: (Seq<char>, int)| p.0);
            let xs = match gain_map_xmp {
                Some(x) => ps.push(x@),
                None => ps,
            };
            &&& opt_text(r.0) == first_property(xs, "apdi"@, "AuxiliaryImageType"@)
            &&& opt_text(r.1) == first_property(xs, "apdi"@, "NativeFormat"@)
            &&& opt_text(r.2) == first_property(xs, "apdi"@, "StoredFormat"@)
        }),
{
    let ghost ps = packet_views(packets@).map_values(|p: (Seq<char>, int)| p.0);
    let mut aux: Option<String> = None;
    let mut native: Option<String> = None;
    let mut stored: Option<String> = None;
    let mut i: usize = 0;
    while i < packets.len()
        invariant
            i <= packets@.len(),
            ps == packet_views(packets@).map_values(|p: (Seq<char>, int)| p.0),
            opt_text(aux) == first_property(ps.take(i as int), "apdi"@, "AuxiliaryImageType"@),
            opt_text(native) == first_property(ps.take(i as int), "apdi"@, "NativeFormat"@),
            opt_text(stored) == first_property(ps.take(i as int), "apdi"@, "StoredFormat"@),
        decreases packets@.len() - i,
    {
        let xml = packets[i].xml.as_str();
        proof {
            assert(ps.take(i + 1) =~= ps.take(i as int).push(packets@[i as int].xml@));
            lemma_first_property_push(ps.take(i as int), packets@[i as int].xml@, "apdi"@, "AuxiliaryImageType"@);
            lemma_first_property_push(ps.take(i as int), packets@[i as int].xml@, "apdi"@, "NativeFormat"@);
            lemma_first_property_push(ps.take(i as int), packets@[i as int].xml@, "apdi"@, "StoredFormat"@);
            reveal_strlit("apdi");
            reveal_strlit("AuxiliaryImageType");
            reveal_strlit("NativeFormat");
            reveal_strlit("StoredFormat");
        }
        aux = fill_property(aux, xml, "apdi", "AuxiliaryImageType");
        native = fill_property(native, xml, "apdi", "NativeFormat");
        stored = fill_property(stored, xml, "apdi", "StoredFormat");
        i = i + 1;
    }
    assert(ps.take(packets@.len() as int) =~= ps);
    // Also check gain map XMP for apdi properties (APPLEDNG stores apdi there)
    if let Some(x) = gain_map_xmp {
        proof {
            lemma_first_property_push(ps, x@, "apdi"@, "AuxiliaryImageType"@);
            lemma_first_property_push(ps, x@, "apdi"@, "NativeFormat"@);
            lemma_first_property_push(ps, x@, "apdi"@, "StoredFormat"@);
        }
        aux = fill_property(aux, x.as_str(), "apdi", "AuxiliaryImageType");
        native = fill_property(native, x.as_str(), "apdi", "NativeFormat");
        stored = fill_property(stored, x.as_str(), "apdi", "StoredFormat");
    }
    (aux, native, stored)
}

/// Extract all Apple-specific metadata from a file.
///
/// Handles both APPLEDNG (TIFF-based) and AMPF (JPEG-based) files. Returns
/// `None` if the file is not an Apple format. The MakerNote is read from
/// the EXIF IFD through the TIFF parser for APPLEDNG, through the EXIF
/// reader for AMPF.
pub fn extract_apple_metadata(data: &[u8]) -> (r: Option<AppleMetadataWords>)
    ensures
        r is Some <==> spec_classify(data@).spec_is_apple(),
        r matches Some(m) ==> m.describes(data@),
{
    let format = classify(data);
    if !format.is_apple() {
        return None;
    }
    let makernote = match extract_makernote_bytes(data) {
        Some(bytes) => parse_apple_makernote(bytes.as_slice()),
        None => None,
    };
    let mut dng_profile: Option<DngProfileWords> = None;
    let mut gain_table_map: Option<GainTableMapLayout> = None;
    let mut semantic_mattes: Vec<SemanticMatte> = Vec::new();
    if let FileFormat::AppleDng = format {
        dng_profile = extract_dng_profile_words(data);
        gain_table_map = extract_gain_table_map_layout(data);
        semantic_mattes = extract_semantic_mattes(data);
    } else {
        assert(semantic_mattes@.len() == 0);
    }
    let gain_map = extract_gain_map(data);

    // Apple XMP namespaces: the file's XMP packets, then the gain map's XMP
    let packets = extract_xmp_packets(data);
    let gain_map_xmp = match &gain_map {
        Some(gm) => extract_xmp(gm.image.jpeg_data.as_slice()),
        None => None,
    };
    let (auxiliary_image_type, native_format, stored_format) = apdi_properties(&packets, gain_map_xmp);
    Some(AppleMetadataWords {
        makernote,
        dng_profile,
        gain_table_map,
        gain_map,
        semantic_mattes,
        format,
        auxiliary_image_type,
        native_format,
        stored_format,
    })
}

/// Each HDR field of a gain map's metadata is the XMP property it is named
/// after, and no other: `gain_map_max` is `HDRToneMap:GainMapMax`,
/// `gain_map_min` is `HDRToneMap:GainMapMin`, and so on; so an XMP holding
/// distinct values for two properties gives them to their own fields.
pub proof fn law_gain_map_fields_are_their_named_properties(g: GainMapXmp, x: Seq<char>)
    requires
        g.describes(x),
    ensures
        opt_text(g.headroom) == xmp_property(x, "HDRGainMap"@, "HDRGainMapHeadroom"@),
        opt_text(g.gain_map_max) == xmp_property(x, "HDRToneMap"@, "GainMapMax"@),
        opt_text(g.gain_map_min) == xmp_property(x, "HDRToneMap"@, "GainMapMin"@),
        opt_text(g.gamma) == xmp_property(x, "HDRToneMap"@, "Gamma"@),
        opt_text(g.offset_hdr) == xmp_property(x, "HDRToneMap"@, "OffsetHDR"@),
        opt_text(g.offset_sdr) == xmp_property(x, "HDRToneMap"@, "OffsetSDR"@),
        opt_text(g.base_headroom) == xmp_property(x, "HDRToneMap"@, "BaseHeadroom"@),
        opt_text(g.alternate_headroom) == xmp_property(x, "HDRToneMap"@, "AlternateHeadroom"@),
        xmp_property(x, "HDRToneMap"@, "GainMapMax"@) != xmp_property(x, "HDRToneMap"@, "GainMapMin"@)
            ==> g.gain_map_max != g.gain_map_min,
{
}

} // verus!
