# zenraw

Camera RAW and DNG container handling, verified with Verus.

`src/` is the verified library:

- `classify`, `decode`: format detection (TIFF/DNG, RAF, RW2, ORF, CR3,
  APPLEDNG, AMPF), pixel limits, crop and bit-depth decisions, RGB
  extraction from multi-channel sensor data.
- `tiff_ifd`: bounds-checked TIFF IFD walking (IFD chain, SubIFDs, EXIF IFD)
  and typed value readers.
- `xmp`: XMP packet and property extraction.
- `exif`: EXIF field readers on top of kamadak-exif.
- `apple`: Apple MakerNote, MPF gain map (of an AMPF JPEG or of a DNG's
  embedded preview JPEG), semantic mattes, DNG profile,
  Smart HDR gain table layout, and everything Apple-specific gathered in
  `apple::metadata`.
- `orient`: EXIF orientation transforms and the orientation a decode bakes
  for a requested hint.
- `adapter`: the decisions of the generic codec adapter (format reported,
  output geometry, resource estimate).
- `darktable`: darktable-cli configuration, PFM parsing and the wait loop's
  decisions.
- `error`, `alloc_util`, `cfa`, `bytes`, `text`: shared pieces.

`app/` is the ordinary Rust around it: the floating-point pixel pipeline
(normalization, demosaicing, colour), the rawloader and rawler backends,
darktable-cli process and file I/O, and the zencodec trait implementations.

`tests/` exercises the library on concrete inputs.
