//! Known Apple MakerNote tag IDs.
//!
//! These are embedded inside the MakerNote blob, which has its own IFD
//! structure prefixed by `Apple iOS\0` + version + byte order.
use vstd::prelude::*;

verus! {

pub const MAKERNOTE_VERSION: u16 = 0x0001;
pub const AE_STABLE: u16 = 0x0002;
pub const AE_TARGET: u16 = 0x0003;
pub const AE_AVERAGE: u16 = 0x0004;
pub const AF_STABLE: u16 = 0x0005;
pub const ACCELERATION_VECTOR: u16 = 0x0006;
pub const HDR_IMAGE_TYPE: u16 = 0x0007;
pub const BURST_UUID: u16 = 0x000B;
pub const SEMANTIC_COMPONENTS: u16 = 0x000C;
pub const MEDIA_GROUP_UUID: u16 = 0x0011;
pub const IMAGE_CAPTURE_TYPE: u16 = 0x0014;
pub const IMAGE_UNIQUE_ID: u16 = 0x0015;
pub const LIVE_PHOTO_ID: u16 = 0x0017;
pub const OIS_MODE: u16 = 0x0020;
pub const SIGNAL_TO_NOISE_RATIO: u16 = 0x002D;
pub const LENS_ID: u16 = 0x002E;
pub const PHOTO_TRANSCODING_GAIN: u16 = 0x002F;
pub const AF_PERFORMANCE: u16 = 0x0038;
pub const AF_MEASURED_DEPTH: u16 = 0x003D;
pub const AF_CONFIDENCE: u16 = 0x003F;

} // verus!
