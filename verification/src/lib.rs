//! Camera RAW and DNG container parsing: format classification, TIFF IFD
//! walking, XMP and Apple metadata extraction, and orientation transforms.
use vstd::prelude::*;

pub mod adapter;
pub mod alloc_util;
pub mod apple;
pub mod bytes;
pub mod cfa;
pub mod classify;
pub mod darktable;
pub mod decode;
pub mod error;
pub mod exif;
pub mod orient;
pub mod text;
pub mod tiff_ifd;
pub mod xmp;

verus! {

/// Detect whether a byte slice looks like a supported RAW/DNG file.
pub fn is_raw_file(data: &[u8]) -> (r: bool)
    ensures
        r == decode::spec_is_raw_file(data@),
{
    decode::is_raw_file(data)
}

} // verus!
