//! Standard TIFF/DNG/Apple tag IDs.
use vstd::prelude::*;

verus! {

pub const NEW_SUBFILE_TYPE: u16 = 0x00FE;
pub const IMAGE_WIDTH: u16 = 0x0100;
pub const IMAGE_LENGTH: u16 = 0x0101;
pub const BITS_PER_SAMPLE: u16 = 0x0102;
pub const COMPRESSION: u16 = 0x0103;
pub const PHOTOMETRIC: u16 = 0x0106;
pub const STRIP_OFFSETS: u16 = 0x0111;
pub const SAMPLES_PER_PIXEL: u16 = 0x0115;
pub const ROWS_PER_STRIP: u16 = 0x0116;
pub const STRIP_BYTE_COUNTS: u16 = 0x0117;
pub const TILE_WIDTH: u16 = 0x0142;
pub const TILE_LENGTH: u16 = 0x0143;
pub const TILE_OFFSETS: u16 = 0x0144;
pub const TILE_BYTE_COUNTS: u16 = 0x0145;
pub const SUB_IFDS: u16 = 0x014A;
pub const EXIF_IFD: u16 = 0x8769;
pub const GPS_IFD: u16 = 0x8825;
pub const MAKER_NOTE: u16 = 0x927C;
pub const DNG_VERSION: u16 = 0xC612;
pub const DNG_BACKWARD_VERSION: u16 = 0xC613;
pub const UNIQUE_CAMERA_MODEL: u16 = 0xC614;
pub const COLOR_MATRIX_1: u16 = 0xC621;
pub const COLOR_MATRIX_2: u16 = 0xC622;
pub const ANALOG_BALANCE: u16 = 0xC627;
pub const AS_SHOT_NEUTRAL: u16 = 0xC628;
pub const AS_SHOT_WHITE_XY: u16 = 0xC629;
pub const BASELINE_EXPOSURE: u16 = 0xC62A;
pub const BASELINE_NOISE: u16 = 0xC62B;
pub const BASELINE_SHARPNESS: u16 = 0xC62C;
pub const LINEAR_RESPONSE_LIMIT: u16 = 0xC62E;
pub const CALIBRATION_ILLUMINANT_1: u16 = 0xC65A;
pub const CALIBRATION_ILLUMINANT_2: u16 = 0xC65B;
pub const FORWARD_MATRIX_1: u16 = 0xC714;
pub const FORWARD_MATRIX_2: u16 = 0xC715;
pub const PROFILE_HUE_SAT_MAP_ENCODING: u16 = 0xC6F7;
pub const PROFILE_NAME: u16 = 0xC6F8;
pub const PROFILE_TONE_CURVE: u16 = 0xC6FC;
pub const NOISE_PROFILE: u16 = 0xC761;
pub const DEFAULT_USER_CROP: u16 = 0xC7B5;
/// DNG 1.6 ProfileGainTableMap.
pub const PROFILE_GAIN_TABLE_MAP: u16 = 0xCD2D;
/// DNG 1.7 ProfileGainTableMap2.
pub const PROFILE_GAIN_TABLE_MAP2: u16 = 0xCD40;
pub const APPLE_UNKNOWN_C7A6: u16 = 0xC7A6;
/// Apple semantic mask type URN.
pub const APPLE_AUX_TYPE: u16 = 0xCD2E;
/// Custom PhotometricInterpretation value used by Apple for semantic data.
pub const APPLE_SEMANTIC_PHOTOMETRIC: u16 = 0xCD2F;
pub const PHOTOMETRIC_LINEAR_RAW: u16 = 34892;

} // verus!
