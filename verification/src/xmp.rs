//! XMP (Extensible Metadata Platform) extraction.
//!
//! Extracts embedded XMP packets from RAW/DNG files by scanning for the
//! standard `<?xpacket begin` / `<?xpacket end` markers. This works across
//! all file formats since XMP packets are self-identifying.
use vstd::prelude::*;
use vstd::utf8::{decode_utf8, encode_utf8, valid_utf8};

use crate::text::{
    opt_int, opt_text,
    lemma_valid_between_ascii, parse_i32, parse_integer, parse_u16, parse_u32, str_trim, trim_ws,
};
use crate::bytes::{
    first_match, lemma_first_match, lemma_first_match_is_least, lemma_first_match_none, matches_at, occurs_before,
};

verus! {

/// Raw XMP packet extracted from a file.
#[derive(Clone, Debug)]
pub struct XmpPacket {
    /// The raw XMP XML string (everything between xpacket markers, inclusive).
    pub xml: String,
    /// Byte offset where the packet was found in the file.
    pub offset: usize,
}

/// The text and offset of each packet.
pub open spec fn packet_views(s: Seq<XmpPacket>) -> Seq<(Seq<char>, int)> {
    s.map_values(|p: XmpPacket| (p.xml@, p.offset as int))
}

// ── Markers ──────────────────────────────────────────────────────────

/// `<?xpacket begin`
pub open spec fn begin_marker() -> Seq<u8> {
    seq![0x3Cu8, 0x3F, 0x78, 0x70, 0x61, 0x63, 0x6B, 0x65, 0x74, 0x20, 0x62, 0x65, 0x67, 0x69, 0x6E]
}

/// `<?xpacket end`
pub open spec fn end_marker() -> Seq<u8> {
    seq![0x3Cu8, 0x3F, 0x78, 0x70, 0x61, 0x63, 0x6B, 0x65, 0x74, 0x20, 0x65, 0x6E, 0x64]
}

/// `?>`
pub open spec fn close_pi() -> Seq<u8> {
    seq![0x3Fu8, 0x3E]
}

/// `<x:xmpmeta`
pub open spec fn xmpmeta_open() -> Seq<u8> {
    seq![0x3Cu8, 0x78, 0x3A, 0x78, 0x6D, 0x70, 0x6D, 0x65, 0x74, 0x61]
}

/// `</x:xmpmeta>`
pub open spec fn xmpmeta_close() -> Seq<u8> {
    seq![0x3Cu8, 0x2F, 0x78, 0x3A, 0x78, 0x6D, 0x70, 0x6D, 0x65, 0x74, 0x61, 0x3E]
}

/// `d` from byte `from` on.
pub open spec fn tail(d: Seq<u8>, from: int) -> Seq<u8> {
    d.subrange(from, d.len() as int)
}

// ── Searching ────────────────────────────────────────────────────────

/// Find a byte pattern in a slice, returning the offset.
pub(crate) fn find_bytes(haystack: &[u8], needle: &[u8]) -> (r: Option<usize>)
    ensures
        match r {
            Some(i) => first_match(haystack@, needle@) == Some(i as int),
            None => first_match(haystack@, needle@) is None,
        },
{
    if needle.len() == 0 || needle.len() > haystack.len() {
        proof {
            lemma_first_match(haystack@, needle@);
            if needle@.len() > 0 {
                assert forall|q: int| !#[trigger] matches_at(haystack@, q, needle@) by {}
                lemma_first_match_none(haystack@, needle@);
            }
        }
        return None;
    }
    let last = haystack.len() - needle.len();
    let mut p: usize = 0;
    while p <= last
        invariant
            last + needle@.len() == haystack@.len(),
            haystack@.len() == haystack.len(),
            needle@.len() > 0,
            p <= last + 1,
            forall|q: int| 0 <= q < p ==> !#[trigger] matches_at(haystack@, q, needle@),
        decreases last + 1 - p,
    {
        if crate::bytes::bytes_match_at(haystack, p, needle) {
            proof {
                lemma_first_match_is_least(haystack@, needle@, p as int);
            }
            return Some(p);
        }
        p = p + 1;
    }
    proof {
        assert forall|q: int| !#[trigger] matches_at(haystack@, q, needle@) by {
            if q > last {
                assert(q + needle@.len() > haystack@.len());
            }
        }
        lemma_first_match_none(haystack@, needle@);
    }
    None
}

// ── Packets ──────────────────────────────────────────────────────────

/// Where the packet search from `from` finds the next packet: its start and
/// the end just past the `?>` that closes its `<?xpacket end` instruction.
pub open spec fn next_packet_span(d: Seq<u8>, from: int) -> Option<(int, int)> {
    match first_match(tail(d, from), begin_marker()) {
        None => None,
        Some(s) => {
            let start = from + s;
            match first_match(tail(d, start), end_marker()) {
                None => None,
                Some(e) => {
                    let em = start + e;
                    match first_match(tail(d, em), close_pi()) {
                        None => None,
                        Some(c) => Some((start, em + c + 2)),
                    }
                },
            }
        },
    }
}

/// A `?>` cannot start inside the first 11 bytes of `<?xpacket end`.
proof fn lemma_close_after_end_marker(t: Seq<u8>, c: int)
    requires
        matches_at(t, 0, end_marker()),
        matches_at(t, c, close_pi()),
    ensures
        c >= 11,
{
    let m = t.subrange(0, 13);
    assert(m == end_marker());
    assert(t[c] == t.subrange(c, c + 2)[0]);
    assert(t[c + 1] == t.subrange(c, c + 2)[1]);
    if c < 11 {
        assert(t[0] == m[0] && t[1] == m[1] && t[2] == m[2] && t[3] == m[3] && t[4] == m[4]);
        assert(t[5] == m[5] && t[6] == m[6] && t[7] == m[7] && t[8] == m[8] && t[9] == m[9]);
        assert(t[10] == m[10] && t[11] == m[11]);
        assert(c == 0 || c == 1 || c == 2 || c == 3 || c == 4 || c == 5 || c == 6 || c == 7
            || c == 8 || c == 9 || c == 10);
    }
}

pub proof fn lemma_next_packet_span(d: Seq<u8>, from: int)
    requires
        0 <= from <= d.len(),
    ensures
        next_packet_span(d, from) matches Some((s, e)) ==> from <= s && s + 2 <= e <= d.len()
            && matches_at(d, s, begin_marker()) && matches_at(d, e - 2, close_pi())
            && exists|m: int| s <= m && m + 13 <= e && #[trigger] matches_at(d, m, end_marker()),
{
    lemma_first_match(tail(d, from), begin_marker());
    if let Some(s) = first_match(tail(d, from), begin_marker()) {
        let start = from + s;
        assert(tail(d, from).subrange(s, s + 15) =~= d.subrange(start, start + 15));
        lemma_first_match(tail(d, start), end_marker());
        if let Some(e) = first_match(tail(d, start), end_marker()) {
            let em = start + e;
            lemma_first_match(tail(d, em), close_pi());
            if let Some(c) = first_match(tail(d, em), close_pi()) {
                assert(tail(d, em).subrange(c, c + 2) =~= d.subrange(em + c, em + c + 2));
                assert(tail(d, start).subrange(e, e + 13) =~= d.subrange(em, em + 13));
                assert(tail(d, em).subrange(0, 13) =~= d.subrange(em, em + 13));
                lemma_close_after_end_marker(tail(d, em), c);
                assert(matches_at(d, em, end_marker()));
            }
        }
    }
}

/// The packets found scanning from byte `from`: each span from a
/// `<?xpacket begin` to the `?>` after the following `<?xpacket end`, kept
/// when it is valid UTF-8; the scan resumes after each span.
pub open spec fn spec_packets(d: Seq<u8>, from: int) -> Seq<(Seq<char>, int)>
    decreases d.len() - from,
{
    if from < 0 || from >= d.len() {
        Seq::empty()
    } else {
        match next_packet_span(d, from) {
            None => Seq::empty(),
            Some((s, e)) => {
                proof {
                    lemma_next_packet_span(d, from);
                }
                let rest = spec_packets(d, e);
                let t = d.subrange(s, e);
                if valid_utf8(t) {
                    seq![(decode_utf8(t), s)] + rest
                } else {
                    rest
                }
            },
        }
    }
}

/// Extract all XMP packets from file data.
///
/// Scans for `<?xpacket begin` markers and extracts the complete XML
/// including the xpacket processing instructions. Most files contain
/// exactly one XMP packet, but some (like PDFs) may contain multiple.
#[verifier::rlimit(50)]
pub fn extract_xmp_packets(data: &[u8]) -> (r: Vec<XmpPacket>)
    ensures
        packet_views(r@) == spec_packets(data@, 0),
{
    let mut packets: Vec<XmpPacket> = Vec::new();
    let begin: [u8; 15] = [
        0x3C, 0x3F, 0x78, 0x70, 0x61, 0x63, 0x6B, 0x65, 0x74, 0x20, 0x62, 0x65, 0x67, 0x69, 0x6E,
    ];
    let end: [u8; 13] = [0x3C, 0x3F, 0x78, 0x70, 0x61, 0x63, 0x6B, 0x65, 0x74, 0x20, 0x65, 0x6E, 0x64];
    let close: [u8; 2] = [0x3F, 0x3E];
    assert(begin@ =~= begin_marker());
    assert(end@ =~= end_marker());
    assert(close@ =~= close_pi());
    let mut search_from: usize = 0;
    loop
        invariant
            begin@ == begin_marker(),
            end@ == end_marker(),
            close@ == close_pi(),
            search_from <= data@.len(),
            packet_views(packets@) + spec_packets(data@, search_from as int) == spec_packets(
                data@,
                0,
            ),
        ensures
            packet_views(packets@) == spec_packets(data@, 0),
        decreases data@.len() - search_from,
    {
        proof {
            lemma_next_packet_span(data@, search_from as int);
        }
        if search_from >= data.len() {
            assert(packet_views(packets@) + Seq::<(Seq<char>, int)>::empty() =~= packet_views(packets@));
            break;
        }
        let from_here = vstd::slice::slice_subrange(data, search_from, data.len());
        let start = match find_bytes(from_here, begin.as_slice()) {
            Some(s) => s,
            None => {
                assert(packet_views(packets@) + Seq::<(Seq<char>, int)>::empty() =~= packet_views(packets@));
                break;
            },
        };
        proof {
            lemma_first_match(from_here@, begin@);
        }
        let abs_start = search_from + start;
        let from_start = vstd::slice::slice_subrange(data, abs_start, data.len());
        let end_marker_pos = match find_bytes(from_start, end.as_slice()) {
            Some(e) => e,
            None => {
                assert(packet_views(packets@) + Seq::<(Seq<char>, int)>::empty() =~= packet_views(packets@));
                break;
            },
        };
        proof {
            lemma_first_match(from_start@, end@);
        }
        let abs_end_marker = abs_start + end_marker_pos;
        let remaining = vstd::slice::slice_subrange(data, abs_end_marker, data.len());
        let close_pos = match find_bytes(remaining, close.as_slice()) {
            Some(c) => c,
            None => {
                assert(packet_views(packets@) + Seq::<(Seq<char>, int)>::empty() =~= packet_views(packets@));
                break;
            },
        };
        proof {
            lemma_first_match(remaining@, close@);
        }
        let abs_end = abs_end_marker + close_pos + 2;
        let ghost prev = packet_views(packets@);
        let span = vstd::slice::slice_subrange(data, abs_start, abs_end);
        if let Some(xml) = crate::text::utf8_to_string(span) {
            packets.push(XmpPacket { xml, offset: abs_start });
            assert(packet_views(packets@) =~= prev.push((xml@, abs_start as int)));
            assert(prev.push((xml@, abs_start as int)) + spec_packets(data@, abs_end as int)
                =~= prev + (seq![(xml@, abs_start as int)] + spec_packets(data@, abs_end as int)));
        }
        search_from = abs_end;
    }
    packets
}

// ── First packet ─────────────────────────────────────────────────────

/// The first `<x:xmpmeta ...>...</x:xmpmeta>` block, when valid UTF-8.
pub open spec fn spec_xmpmeta_block(d: Seq<u8>) -> Option<Seq<char>> {
    match first_match(d, xmpmeta_open()) {
        None => None,
        Some(s) => match first_match(tail(d, s), xmpmeta_close()) {
            None => None,
            Some(e) => {
                let t = d.subrange(s, s + e + 12);
                if valid_utf8(t) {
                    Some(decode_utf8(t))
                } else {
                    None
                }
            },
        },
    }
}

/// The first XMP packet's text, or else the first `x:xmpmeta` block.
pub open spec fn spec_extract_xmp(d: Seq<u8>) -> Option<Seq<char>> {
    let ps = spec_packets(d, 0);
    if ps.len() > 0 {
        Some(ps[0].0)
    } else {
        spec_xmpmeta_block(d)
    }
}

/// Extract the first XMP packet as a string, or None if not found.
///
/// Tries `<?xpacket>` markers first, then falls back to `<x:xmpmeta>` blocks
/// (some embedded XMP, like Apple gain map metadata, omits xpacket wrappers).
pub fn extract_xmp(data: &[u8]) -> (r: Option<String>)
    ensures
        match r {
            Some(s) => spec_extract_xmp(data@) == Some(s@),
            None => spec_extract_xmp(data@) is None,
        },
{
    let mut packets = extract_xmp_packets(data);
    if packets.len() > 0 {
        let ghost views = packet_views(packets@);
        let first = packets.swap_remove(0);
        assert(views[0] == (first.xml@, first.offset as int));
        return Some(first.xml);
    }
    // Fallback: look for <x:xmpmeta> ... </x:xmpmeta> blocks
    extract_xmpmeta_block(data)
}

/// Extract XMP from `<x:xmpmeta>` blocks (without xpacket wrappers).
fn extract_xmpmeta_block(data: &[u8]) -> (r: Option<String>)
    ensures
        match r {
            Some(s) => spec_xmpmeta_block(data@) == Some(s@),
            None => spec_xmpmeta_block(data@) is None,
        },
{
    let open: [u8; 10] = [0x3C, 0x78, 0x3A, 0x78, 0x6D, 0x70, 0x6D, 0x65, 0x74, 0x61];
    let close: [u8; 12] = [0x3C, 0x2F, 0x78, 0x3A, 0x78, 0x6D, 0x70, 0x6D, 0x65, 0x74, 0x61, 0x3E];
    assert(open@ =~= xmpmeta_open());
    assert(close@ =~= xmpmeta_close());
    let start = find_bytes(data, open.as_slice())?;
    proof {
        lemma_first_match(data@, open@);
    }
    let after_open = start;
    let from_open = vstd::slice::slice_subrange(data, after_open, data.len());
    let end_pos = find_bytes(from_open, close.as_slice())?;
    proof {
        lemma_first_match(from_open@, close@);
    }
    let abs_end = after_open + end_pos + close.len();
    crate::text::utf8_to_string(vstd::slice::slice_subrange(data, start, abs_end))
}

// ── Properties ───────────────────────────────────────────────────────

/// `ns:name="` as bytes.
pub open spec fn attr_pattern(ns: Seq<u8>, name: Seq<u8>) -> Seq<u8> {
    ns + seq![0x3Au8] + name + seq![0x3Du8, 0x22]
}

/// `<ns:name>` as bytes.
pub open spec fn open_tag(ns: Seq<u8>, name: Seq<u8>) -> Seq<u8> {
    seq![0x3Cu8] + ns + seq![0x3Au8] + name + seq![0x3Eu8]
}

/// `</ns:name>` as bytes.
pub open spec fn close_tag(ns: Seq<u8>, name: Seq<u8>) -> Seq<u8> {
    seq![0x3Cu8, 0x2F] + ns + seq![0x3Au8] + name + seq![0x3Eu8]
}

/// Attribute form: the bytes after the first `ns:name="` up to the next `"`.
pub open spec fn attr_value(x: Seq<u8>, ns: Seq<u8>, name: Seq<u8>) -> Option<Seq<u8>> {
    let pat = attr_pattern(ns, name);
    match first_match(x, pat) {
        None => None,
        Some(p) => {
            let vs = p + pat.len();
            match first_match(tail(x, vs), seq![0x22u8]) {
                None => None,
                Some(e) => Some(x.subrange(vs, vs + e)),
            }
        },
    }
}

/// Element form: the text between the first `<ns:name>` and the next
/// `</ns:name>`, trimmed, when it holds no `<` (no nested markup).
pub open spec fn element_value(x: Seq<u8>, ns: Seq<u8>, name: Seq<u8>) -> Option<Seq<char>> {
    let open = open_tag(ns, name);
    match first_match(x, open) {
        None => None,
        Some(p) => {
            let vs = p + open.len();
            match first_match(tail(x, vs), close_tag(ns, name)) {
                None => None,
                Some(c) => {
                    let t = trim_ws(decode_utf8(x.subrange(vs, vs + c)));
                    if t.contains('<') {
                        None
                    } else {
                        Some(t)
                    }
                },
            }
        },
    }
}

/// The value of property `ns:name` in XMP text: the attribute form when
/// present, otherwise the element form.
pub open spec fn xmp_property(xml: Seq<char>, ns: Seq<char>, name: Seq<char>) -> Option<Seq<char>> {
    let x = encode_utf8(xml);
    match attr_value(x, encode_utf8(ns), encode_utf8(name)) {
        Some(v) => Some(decode_utf8(v)),
        None => element_value(x, encode_utf8(ns), encode_utf8(name)),
    }
}

pub(crate) fn contains_char(s: &str, c: char) -> (r: bool)
    ensures
        r == s@.contains(c),
{
    let n = s.unicode_len();
    let mut i: usize = 0;
    while i < n
        invariant
            n == s@.len(),
            i <= n,
            forall|k: int| 0 <= k < i ==> s@[k] != c,
        decreases n - i,
    {
        if s.get_char(i) == c {
            return true;
        }
        i = i + 1;
    }
    false
}

/// Extract a specific XMP property value by namespace prefix and name.
///
/// This is a simple text-based extraction that works for common simple
/// properties without requiring a full XML parser. For complex XMP
/// structures, use the raw XML from [`extract_xmp`].
pub fn get_xmp_property(xmp_xml: &str, ns_prefix: &str, name: &str) -> (r: Option<String>)
    ensures
        match r {
            Some(v) => xmp_property(xmp_xml@, ns_prefix@, name@) == Some(v@),
            None => xmp_property(xmp_xml@, ns_prefix@, name@) is None,
        },
{
    let x = xmp_xml.as_bytes();
    let xlen = x.len();
    assert(x@.len() == xlen);
    let ns = ns_prefix.as_bytes();
    let nm = name.as_bytes();
    proof {
        vstd::utf8::encode_utf8_valid_utf8(xmp_xml@);
    }
    // Try attribute form: ns:Name="value"
    let mut attr: Vec<u8> = Vec::new();
    crate::bytes::append_bytes(&mut attr, ns);
    attr.push(0x3A);
    crate::bytes::append_bytes(&mut attr, nm);
    attr.push(0x3D);
    attr.push(0x22);
    assert(attr@ =~= attr_pattern(ns@, nm@));
    let quote: [u8; 1] = [0x22];
    assert(quote@ =~= seq![0x22u8]);
    if let Some(pos) = find_bytes(x, attr.as_slice()) {
        proof {
            lemma_first_match(x@, attr@);
            assert(pos + attr@.len() <= x@.len());
        }
        let value_start = pos + attr.len();
        let rest = vstd::slice::slice_subrange(x, value_start, x.len());
        if let Some(end) = find_bytes(rest, quote.as_slice()) {
            proof {
                lemma_first_match(rest@, quote@);
                assert(x@.subrange(pos as int, value_start as int)[attr@.len() - 1] == attr@[attr@.len() - 1]);
                assert(rest@.subrange(end as int, end + 1)[0] == quote@[0]);
                assert(x@[value_start + end] == rest@[end as int]);
                lemma_valid_between_ascii(x@, value_start - 1, value_start + end);
            }
            let v = vstd::slice::slice_subrange(x, value_start, value_start + end);
            return crate::text::utf8_to_string(v);
        }
    }
    // Try element form: <ns:Name>value</ns:Name>
    let mut open: Vec<u8> = Vec::new();
    open.push(0x3C);
    crate::bytes::append_bytes(&mut open, ns);
    open.push(0x3A);
    crate::bytes::append_bytes(&mut open, nm);
    open.push(0x3E);
    assert(open@ =~= open_tag(ns@, nm@));
    let mut close: Vec<u8> = Vec::new();
    close.push(0x3C);
    close.push(0x2F);
    crate::bytes::append_bytes(&mut close, ns);
    close.push(0x3A);
    crate::bytes::append_bytes(&mut close, nm);
    close.push(0x3E);
    assert(close@ =~= close_tag(ns@, nm@));
    if let Some(open_pos) = find_bytes(x, open.as_slice()) {
        proof {
            lemma_first_match(x@, open@);
        }
        let value_start = open_pos + open.len();
        let rest = vstd::slice::slice_subrange(x, value_start, x.len());
        if let Some(close_pos) = find_bytes(rest, close.as_slice()) {
            proof {
                lemma_first_match(rest@, close@);
                assert(x@.subrange(open_pos as int, value_start as int)[open@.len() - 1] == open@[open@.len() - 1]);
                assert(rest@.subrange(close_pos as int, close_pos + close@.len())[0] == close@[0]);
                assert(x@[value_start + close_pos] == rest@[close_pos as int]);
                lemma_valid_between_ascii(x@, value_start - 1, value_start + close_pos);
            }
            let vb = vstd::slice::slice_subrange(x, value_start, value_start + close_pos);
            let value = match crate::text::utf8_to_string(vb) {
                Some(v) => v,
                None => return None,
            };
            // Trim whitespace and nested tags for simple values
            let trimmed = str_trim(value.as_str());
            if !contains_char(trimmed, '<') {
                return Some(String::from_str(trimmed));
            }
        }
    }
    None
}

// ── Common metadata ──────────────────────────────────────────────────

/// Common XMP properties extracted from a RAW/DNG file.
#[derive(Clone, Debug)]
#[non_exhaustive]
pub struct XmpMetadata {
    /// Raw XMP XML packet.
    pub raw_xml: Option<String>,
    // ── Dublin Core (dc:) ──
    pub creator: Option<String>,
    pub description: Option<String>,
    pub rights: Option<String>,
    pub title: Option<String>,
    // ── XMP Basic (xmp:) ──
    pub rating: Option<i32>,
    pub label: Option<String>,
    pub create_date: Option<String>,
    pub modify_date: Option<String>,
    pub creator_tool: Option<String>,
    // ── Photoshop (photoshop:) ──
    pub color_mode: Option<String>,
    // ── Camera Raw (crs:) ──
    pub white_balance: Option<String>,
    pub temperature: Option<i32>,
    pub tint: Option<i32>,
    pub exposure: Option<String>,
    pub contrast: Option<String>,
    pub shadows: Option<String>,
    pub highlights: Option<String>,
    pub saturation: Option<String>,
    pub sharpness: Option<String>,
    // ── EXIF (exif:) ──
    pub exif_image_width: Option<u32>,
    pub exif_image_height: Option<u32>,
    // ── TIFF (tiff:) ──
    pub tiff_make: Option<String>,
    pub tiff_model: Option<String>,
    pub tiff_orientation: Option<u16>,
}

/// The first of two optional values that is present.
pub open spec fn or_else<T>(a: Option<T>, b: Option<T>) -> Option<T> {
    match a {
        Some(v) => Some(v),
        None => b,
    }
}

/// Property `ns:name` read as a decimal integer within `[min, max]`.
pub open spec fn xmp_int_property(
    xml: Seq<char>,
    ns: Seq<char>,
    name: Seq<char>,
    signed: bool,
    min: int,
    max: int,
) -> Option<int> {
    match xmp_property(xml, ns, name) {
        Some(v) => parse_integer(v, signed, min, max),
        None => None,
    }
}

impl XmpMetadata {
    /// Every field empty.
    pub open spec fn is_empty(self) -> bool {
        &&& self.raw_xml is None
        &&& self.creator is None
        &&& self.description is None
        &&& self.rights is None
        &&& self.title is None
        &&& self.rating is None
        &&& self.label is None
        &&& self.create_date is None
        &&& self.modify_date is None
        &&& self.creator_tool is None
        &&& self.color_mode is None
        &&& self.white_balance is None
        &&& self.temperature is None
        &&& self.tint is None
        &&& self.exposure is None
        &&& self.contrast is None
        &&& self.shadows is None
        &&& self.highlights is None
        &&& self.saturation is None
        &&& self.sharpness is None
        &&& self.exif_image_width is None
        &&& self.exif_image_height is None
        &&& self.tiff_make is None
        &&& self.tiff_model is None
        &&& self.tiff_orientation is None
    }

    /// The fields hold what XMP text `x` says: `raw_xml` is `x` itself and
    /// each other field is the property that it names, integers parsed as
    /// decimal, and the Camera Raw tone settings preferring their `2012`
    /// names.
    pub open spec fn describes(self, x: Seq<char>) -> bool {
        &&& opt_text(self.raw_xml) == Some(x)
        &&& opt_text(self.creator) == xmp_property(x, "dc"@, "creator"@)
        &&& opt_text(self.description) == xmp_property(x, "dc"@, "description"@)
        &&& opt_text(self.rights) == xmp_property(x, "dc"@, "rights"@)
        &&& opt_text(self.title) == xmp_property(x, "dc"@, "title"@)
        &&& opt_int(self.rating) == xmp_int_property(x, "xmp"@, "Rating"@, true, i32::MIN as int, i32::MAX as int)
        &&& opt_text(self.label) == xmp_property(x, "xmp"@, "Label"@)
        &&& opt_text(self.create_date) == xmp_property(x, "xmp"@, "CreateDate"@)
        &&& opt_text(self.modify_date) == xmp_property(x, "xmp"@, "ModifyDate"@)
        &&& opt_text(self.creator_tool) == xmp_property(x, "xmp"@, "CreatorTool"@)
        &&& opt_text(self.color_mode) == xmp_property(x, "photoshop"@, "ColorMode"@)
        &&& opt_text(self.white_balance) == xmp_property(x, "crs"@, "WhiteBalance"@)
        &&& opt_int(self.temperature) == xmp_int_property(x, "crs"@, "Temperature"@, true, i32::MIN as int, i32::MAX as int)
        &&& opt_int(self.tint) == xmp_int_property(x, "crs"@, "Tint"@, true, i32::MIN as int, i32::MAX as int)
        &&& opt_text(self.exposure) == or_else(xmp_property(x, "crs"@, "Exposure2012"@), xmp_property(x, "crs"@, "Exposure"@))
        &&& opt_text(self.contrast) == or_else(xmp_property(x, "crs"@, "Contrast2012"@), xmp_property(x, "crs"@, "Contrast"@))
        &&& opt_text(self.shadows) == or_else(xmp_property(x, "crs"@, "Shadows2012"@), xmp_property(x, "crs"@, "Shadows"@))
        &&& opt_text(self.highlights) == or_else(xmp_property(x, "crs"@, "Highlights2012"@), xmp_property(x, "crs"@, "Highlights"@))
        &&& opt_text(self.saturation) == xmp_property(x, "crs"@, "Saturation"@)
        &&& opt_text(self.sharpness) == xmp_property(x, "crs"@, "Sharpness"@)
        &&& opt_int(self.exif_image_width) == xmp_int_property(x, "exif"@, "PixelXDimension"@, false, 0, u32::MAX as int)
        &&& opt_int(self.exif_image_height) == xmp_int_property(x, "exif"@, "PixelYDimension"@, false, 0, u32::MAX as int)
        &&& opt_text(self.tiff_make) == xmp_property(x, "tiff"@, "Make"@)
        &&& opt_text(self.tiff_model) == xmp_property(x, "tiff"@, "Model"@)
        &&& opt_int(self.tiff_orientation) == xmp_int_property(x, "tiff"@, "Orientation"@, false, 0, u16::MAX as int)
    }
}

impl Default for XmpMetadata {
    fn default() -> (r: Self)
        ensures
            r.is_empty(),
    {
        XmpMetadata {
            raw_xml: None,
            creator: None,
            description: None,
            rights: None,
            title: None,
            rating: None,
            label: None,
            create_date: None,
            modify_date: None,
            creator_tool: None,
            color_mode: None,
            white_balance: None,
            temperature: None,
            tint: None,
            exposure: None,
            contrast: None,
            shadows: None,
            highlights: None,
            saturation: None,
            sharpness: None,
            exif_image_width: None,
            exif_image_height: None,
            tiff_make: None,
            tiff_model: None,
            tiff_orientation: None,
        }
    }
}

fn get_i32_property(xml: &str, ns: &str, name: &str) -> (r: Option<i32>)
    ensures
        opt_int(r) == xmp_int_property(xml@, ns@, name@, true, i32::MIN as int, i32::MAX as int),
{
    match get_xmp_property(xml, ns, name) {
        Some(s) => parse_i32(s.as_str()),
        None => None,
    }
}

fn get_u32_property(xml: &str, ns: &str, name: &str) -> (r: Option<u32>)
    ensures
        opt_int(r) == xmp_int_property(xml@, ns@, name@, false, 0, u32::MAX as int),
{
    match get_xmp_property(xml, ns, name) {
        Some(s) => parse_u32(s.as_str()),
        None => None,
    }
}

fn get_u16_property(xml: &str, ns: &str, name: &str) -> (r: Option<u16>)
    ensures
        opt_int(r) == xmp_int_property(xml@, ns@, name@, false, 0, u16::MAX as int),
{
    match get_xmp_property(xml, ns, name) {
        Some(s) => parse_u16(s.as_str()),
        None => None,
    }
}

fn get_property_or(xml: &str, ns: &str, name: &str, fallback: &str) -> (r: Option<String>)
    ensures
        opt_text(r) == or_else(xmp_property(xml@, ns@, name@), xmp_property(xml@, ns@, fallback@)),
{
    match get_xmp_property(xml, ns, name) {
        Some(s) => Some(s),
        None => get_xmp_property(xml, ns, fallback),
    }
}

/// Extract common XMP metadata properties from file data.
pub fn read_xmp_metadata(data: &[u8]) -> (r: Option<XmpMetadata>)
    ensures
        match r {
            Some(m) => spec_extract_xmp(data@) matches Some(x) && m.describes(x),
            None => spec_extract_xmp(data@) is None,
        },
{
    let xml = extract_xmp(data)?;
    let x: &str = xml.as_str();
    let m = XmpMetadata {
        raw_xml: Some(xml.clone()),
        // Dublin Core
        creator: get_xmp_property(x, "dc", "creator"),
        description: get_xmp_property(x, "dc", "description"),
        rights: get_xmp_property(x, "dc", "rights"),
        title: get_xmp_property(x, "dc", "title"),
        // XMP Basic
        rating: get_i32_property(x, "xmp", "Rating"),
        label: get_xmp_property(x, "xmp", "Label"),
        create_date: get_xmp_property(x, "xmp", "CreateDate"),
        modify_date: get_xmp_property(x, "xmp", "ModifyDate"),
        creator_tool: get_xmp_property(x, "xmp", "CreatorTool"),
        // Photoshop
        color_mode: get_xmp_property(x, "photoshop", "ColorMode"),
        // Camera Raw
        white_balance: get_xmp_property(x, "crs", "WhiteBalance"),
        temperature: get_i32_property(x, "crs", "Temperature"),
        tint: get_i32_property(x, "crs", "Tint"),
        exposure: get_property_or(x, "crs", "Exposure2012", "Exposure"),
        contrast: get_property_or(x, "crs", "Contrast2012", "Contrast"),
        shadows: get_property_or(x, "crs", "Shadows2012", "Shadows"),
        highlights: get_property_or(x, "crs", "Highlights2012", "Highlights"),
        saturation: get_xmp_property(x, "crs", "Saturation"),
        sharpness: get_xmp_property(x, "crs", "Sharpness"),
        // EXIF namespace
        exif_image_width: get_u32_property(x, "exif", "PixelXDimension"),
        exif_image_height: get_u32_property(x, "exif", "PixelYDimension"),
        // TIFF namespace
        tiff_make: get_xmp_property(x, "tiff", "Make"),
        tiff_model: get_xmp_property(x, "tiff", "Model"),
        tiff_orientation: get_u16_property(x, "tiff", "Orientation"),
    };
    Some(m)
}

// ── Laws ─────────────────────────────────────────────────────────────

/// Packet `p` is the file's bytes at its offset, from `<?xpacket begin` to a
/// closing `?>`, lying at or after byte `from`.
pub open spec fn is_file_span(d: Seq<u8>, p: (Seq<char>, int), from: int) -> bool {
    let b = encode_utf8(p.0);
    &&& from <= p.1
    &&& p.1 + b.len() <= d.len()
    &&& d.subrange(p.1, p.1 + b.len()) == b
    &&& matches_at(b, 0, begin_marker())
    &&& occurs_before(b, end_marker(), b.len() as int)
    &&& matches_at(b, b.len() - 2, close_pi())
}

proof fn lemma_packet_spans(d: Seq<u8>, from: int)
    requires
        0 <= from,
    ensures
        forall|i: int|
            0 <= i < spec_packets(d, from).len() ==> is_file_span(
                d,
                #[trigger] spec_packets(d, from)[i],
                from,
            ),
        forall|i: int, j: int|
            #![trigger spec_packets(d, from)[i], spec_packets(d, from)[j]]
            0 <= i < j < spec_packets(d, from).len() ==> spec_packets(d, from)[i].1 + encode_utf8(
                spec_packets(d, from)[i].0,
            ).len() <= spec_packets(d, from)[j].1,
    decreases d.len() - from,
{
    if from < d.len() {
        lemma_next_packet_span(d, from);
        if let Some((s, e)) = next_packet_span(d, from) {
            lemma_packet_spans(d, e);
            let t = d.subrange(s, e);
            if valid_utf8(t) {
                vstd::utf8::decode_utf8_encode_utf8(t);
                let ps = spec_packets(d, from);
                let rest = spec_packets(d, e);
                assert(ps == seq![(decode_utf8(t), s)] + rest);
                assert(t.subrange(0, 15) =~= d.subrange(s, s + 15));
                assert(t.subrange(t.len() - 2, t.len() as int) =~= d.subrange(e - 2, e));
                let m = choose|m: int| s <= m && m + 13 <= e && #[trigger] matches_at(d, m, end_marker());
                assert(t.subrange(m - s, m - s + 13) =~= d.subrange(m, m + 13));
                assert(matches_at(t, m - s, end_marker()));
                assert forall|i: int| 0 <= i < ps.len() implies is_file_span(d, #[trigger] ps[i], from) by {
                    if i > 0 {
                        assert(ps[i] == rest[i - 1]);
                    }
                }
                assert forall|i: int, j: int| #![trigger ps[i], ps[j]] 0 <= i < j < ps.len() implies ps[i].1 + encode_utf8(
                    ps[i].0,
                ).len() <= ps[j].1 by {
                    assert(ps[j] == rest[j - 1]);
                    if i > 0 {
                        assert(ps[i] == rest[i - 1]);
                    } else {
                        assert(is_file_span(d, rest[j - 1], e));
                    }
                }
            } else {
                let ps = spec_packets(d, from);
                let rest = spec_packets(d, e);
                assert(ps == rest);
                assert forall|i: int| 0 <= i < ps.len() implies is_file_span(d, #[trigger] ps[i], from) by {
                    assert(is_file_span(d, rest[i], e));
                }
            }
        }
    }
}

/// Every packet that [`extract_xmp_packets`] returns is the file's own bytes
/// at its offset, running from `<?xpacket begin` through the `?>` that ends
/// the packet, inclusive, and holding `<?xpacket end`; packets come in file
/// order and do not overlap.
pub proof fn law_packets_are_file_spans(d: Seq<u8>)
    ensures
        forall|i: int|
            0 <= i < spec_packets(d, 0).len() ==> is_file_span(
                d,
                #[trigger] spec_packets(d, 0)[i],
                0,
            ),
        forall|i: int, j: int|
            #![trigger spec_packets(d, 0)[i], spec_packets(d, 0)[j]]
            0 <= i < j < spec_packets(d, 0).len() ==> spec_packets(d, 0)[i].1 + encode_utf8(
                spec_packets(d, 0)[i].0,
            ).len() <= spec_packets(d, 0)[j].1,
{
    lemma_packet_spans(d, 0);
}

/// What [`read_xmp_metadata`] returns agrees with [`extract_xmp`] and
/// [`get_xmp_property`]: metadata is found exactly when XMP is, its
/// `raw_xml` is the extracted XMP, and every other field is the property
/// that it names, read from that same text.
pub proof fn law_metadata_is_read_from_the_extracted_xmp(d: Seq<u8>, m: Option<XmpMetadata>)
    requires
        match m {
            Some(mm) => spec_extract_xmp(d) matches Some(x) && mm.describes(x),
            None => spec_extract_xmp(d) is None,
        },
    ensures
        m is Some <==> spec_extract_xmp(d) is Some,
        m matches Some(mm) ==> opt_text(mm.raw_xml) == spec_extract_xmp(d) && mm.describes(
            opt_text(mm.raw_xml)->0,
        ),
{
}

/// Data without a `<?xpacket begin` marker holds no packet.
pub proof fn law_no_begin_marker_no_packets(d: Seq<u8>)
    requires
        forall|q: int| !#[trigger] matches_at(d, q, begin_marker()),
    ensures
        spec_packets(d, 0).len() == 0,
{
    assert(tail(d, 0) =~= d);
    lemma_first_match_none(d, begin_marker());
}

/// Each metadata field is the XMP property it is named after, in its own
/// namespace (`dc:creator`, `xmp:Label`, `tiff:Make`, `exif:PixelXDimension`
/// and so on); the Camera Raw tone settings take their `2012` property when
/// present and the older one otherwise.
pub proof fn law_metadata_fields_are_their_named_properties(m: XmpMetadata, x: Seq<char>)
    requires
        m.describes(x),
    ensures
        opt_text(m.creator) == xmp_property(x, "dc"@, "creator"@),
        opt_text(m.description) == xmp_property(x, "dc"@, "description"@),
        opt_text(m.rights) == xmp_property(x, "dc"@, "rights"@),
        opt_text(m.title) == xmp_property(x, "dc"@, "title"@),
        opt_text(m.label) == xmp_property(x, "xmp"@, "Label"@),
        opt_text(m.create_date) == xmp_property(x, "xmp"@, "CreateDate"@),
        opt_text(m.modify_date) == xmp_property(x, "xmp"@, "ModifyDate"@),
        opt_text(m.creator_tool) == xmp_property(x, "xmp"@, "CreatorTool"@),
        opt_text(m.color_mode) == xmp_property(x, "photoshop"@, "ColorMode"@),
        opt_text(m.white_balance) == xmp_property(x, "crs"@, "WhiteBalance"@),
        opt_text(m.saturation) == xmp_property(x, "crs"@, "Saturation"@),
        opt_text(m.sharpness) == xmp_property(x, "crs"@, "Sharpness"@),
        opt_text(m.tiff_make) == xmp_property(x, "tiff"@, "Make"@),
        opt_text(m.tiff_model) == xmp_property(x, "tiff"@, "Model"@),
        xmp_property(x, "crs"@, "Exposure2012"@) is Some ==> opt_text(m.exposure) == xmp_property(x, "crs"@, "Exposure2012"@),
        xmp_property(x, "crs"@, "Exposure2012"@) is None ==> opt_text(m.exposure) == xmp_property(x, "crs"@, "Exposure"@),
        xmp_property(x, "crs"@, "Contrast2012"@) is Some ==> opt_text(m.contrast) == xmp_property(x, "crs"@, "Contrast2012"@),
        xmp_property(x, "crs"@, "Contrast2012"@) is None ==> opt_text(m.contrast) == xmp_property(x, "crs"@, "Contrast"@),
        xmp_property(x, "crs"@, "Shadows2012"@) is Some ==> opt_text(m.shadows) == xmp_property(x, "crs"@, "Shadows2012"@),
        xmp_property(x, "crs"@, "Shadows2012"@) is None ==> opt_text(m.shadows) == xmp_property(x, "crs"@, "Shadows"@),
        xmp_property(x, "crs"@, "Highlights2012"@) is Some ==> opt_text(m.highlights) == xmp_property(x, "crs"@, "Highlights2012"@),
        xmp_property(x, "crs"@, "Highlights2012"@) is None ==> opt_text(m.highlights) == xmp_property(x, "crs"@, "Highlights"@),
        opt_int(m.rating) == xmp_int_property(x, "xmp"@, "Rating"@, true, i32::MIN as int, i32::MAX as int),
        opt_int(m.temperature) == xmp_int_property(x, "crs"@, "Temperature"@, true, i32::MIN as int, i32::MAX as int),
        opt_int(m.tint) == xmp_int_property(x, "crs"@, "Tint"@, true, i32::MIN as int, i32::MAX as int),
        opt_int(m.exif_image_width) == xmp_int_property(x, "exif"@, "PixelXDimension"@, false, 0, u32::MAX as int),
        opt_int(m.exif_image_height) == xmp_int_property(x, "exif"@, "PixelYDimension"@, false, 0, u32::MAX as int),
        opt_int(m.tiff_orientation) == xmp_int_property(x, "tiff"@, "Orientation"@, false, 0, u16::MAX as int),
{
}

} // verus!
