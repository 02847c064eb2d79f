//! Error types for RAW/DNG decoding.
//!
//! Each variant names the kind of fault: malformed or unsupported image
//! bytes, an invalid request, an exceeded resource limit, I/O, a missing
//! dependency, cancellation, or a pixel buffer that could not be built.
use vstd::prelude::*;

verus! {

/// Why an operation was stopped.
#[verifier::external_type_specification]
#[verifier::external_body]
pub struct ExStopReason(enough::StopReason);

/// An API operation a codec does not support.
#[verifier::external_type_specification]
#[verifier::external_body]
pub struct ExUnsupportedOperation(zencodec::UnsupportedOperation);

/// Which resource ceiling a [`RawError::LimitExceeded`] refers to.
#[non_exhaustive]
#[derive(Clone, Copy, Debug, PartialEq, Eq, Hash, Structural)]
pub enum RawLimitKind {
    /// Image width exceeded a configured or built-in ceiling.
    Width,
    /// Image height exceeded a configured or built-in ceiling.
    Height,
    /// Pixel count (width × height) exceeded a configured or built-in
    /// ceiling.
    Pixels,
    /// A decode working-set / output byte budget was exceeded.
    Memory,
    /// Input data size exceeded a configured ceiling.
    InputSize,
}

impl RawLimitKind {
    /// The name shown for each limit.
    pub open spec fn spec_name(self) -> Seq<char> {
        match self {
            RawLimitKind::Width => "width"@,
            RawLimitKind::Height => "height"@,
            RawLimitKind::Pixels => "pixels"@,
            RawLimitKind::Memory => "memory"@,
            RawLimitKind::InputSize => "input size"@,
        }
    }

    /// The name shown for this limit.
    pub fn to_string(&self) -> (r: String)
        ensures
            r@ == self.spec_name(),
    {
        let s: &str = match self {
            RawLimitKind::Width => "width",
            RawLimitKind::Height => "height",
            RawLimitKind::Pixels => "pixels",
            RawLimitKind::Memory => "memory",
            RawLimitKind::InputSize => "input size",
        };
        String::from_str(s)
    }
}

/// Errors from RAW/DNG decode operations.
#[derive(Debug)]
#[non_exhaustive]
pub enum RawError {
    /// The RAW/DNG bytes are corrupt or structurally invalid.
    Malformed(String),
    /// The input ended before a complete image could be read.
    UnexpectedEof(String),
    /// A recognized-but-unsupported RAW dialect.
    UnsupportedType(String),
    /// A sensor/CFA feature the demosaic pipeline does not implement.
    UnsupportedFeature(String),
    /// A well-formed API operation this codec does not support.
    UnsupportedOperation(zencodec::UnsupportedOperation),
    /// Caller-supplied parameters are invalid.
    InvalidParameters(String),
    /// A caller-supplied data buffer has the wrong size.
    InvalidBuffer(String),
    /// A configured resource ceiling was exceeded.
    LimitExceeded(RawLimitKind, String),
    /// A memory allocation failed, or a size overflowed the address space.
    OutOfMemory(String),
    /// An I/O or external-process failure.
    Io(String),
    /// An external dependency is missing or misbehaved.
    Dependency(String),
    /// Operation stopped by cooperative cancellation.
    Stopped(enough::StopReason),
    /// Pixel buffer construction failed. Only an allocation failure is a
    /// resource fault; every other buffer error means the sizes handed to
    /// the buffer were wrong, an internal defect.
    Buffer(BufferFault),
}

/// Why a pixel buffer could not be built (the faults of
/// `zenpixels::BufferError`, one for one).
#[derive(Clone, Copy, Debug, PartialEq, Eq, Structural)]
pub enum BufferFault {
    /// Data pointer is not aligned for the channel type.
    AlignmentViolation,
    /// Data slice is too small for the given dimensions and stride.
    InsufficientData,
    /// Stride is smaller than `width * bytes_per_pixel`.
    StrideTooSmall,
    /// Stride is not a multiple of `bytes_per_pixel`.
    StrideNotPixelAligned,
    /// Width or height is zero or causes overflow.
    InvalidDimensions,
    /// Descriptor `bytes_per_pixel` mismatch on reinterpretation.
    IncompatibleDescriptor,
    /// Buffer allocation failed (out of memory or overflow).
    AllocationFailed,
    /// A buffer fault of another kind.
    Other,
}

/// The coarse category of a [`RawError`]: where the fault originates
/// (the image bytes, the caller's request, a resource, I/O, an internal
/// defect or dependency, or cancellation) and its kind within that origin.
#[derive(Clone, Copy, Debug, PartialEq, Eq, Structural)]
pub enum ErrorCategory {
    /// Image bytes: malformed content.
    ImageMalformed,
    /// Image bytes: incomplete input.
    ImageUnexpectedEof,
    /// Image bytes: unsupported type.
    ImageUnsupportedType,
    /// Image bytes: unsupported feature.
    ImageUnsupportedFeature,
    /// Caller request: an unsupported operation, categorized by the
    /// operation itself.
    RequestUnsupportedOperation,
    /// Caller request: invalid parameters.
    RequestInvalidParameters,
    /// Caller request: invalid buffer.
    RequestInvalidBuffer,
    /// Resource: a configured limit of the given kind.
    ResourceLimit(RawLimitKind),
    /// Resource: out of memory.
    ResourceOutOfMemory,
    /// I/O.
    Io,
    /// Internal: an external dependency fault.
    InternalDependency,
    /// Internal: a defect in this crate's own size arithmetic.
    InternalBug,
    /// Cancelled or timed out, categorized by the stop reason itself.
    Stopped,
}

impl RawError {
    /// The category of each error.
    pub open spec fn spec_category(self) -> ErrorCategory {
        match self {
            RawError::Malformed(_) => ErrorCategory::ImageMalformed,
            RawError::UnexpectedEof(_) => ErrorCategory::ImageUnexpectedEof,
            RawError::UnsupportedType(_) => ErrorCategory::ImageUnsupportedType,
            RawError::UnsupportedFeature(_) => ErrorCategory::ImageUnsupportedFeature,
            RawError::UnsupportedOperation(_) => ErrorCategory::RequestUnsupportedOperation,
            RawError::InvalidParameters(_) => ErrorCategory::RequestInvalidParameters,
            RawError::InvalidBuffer(_) => ErrorCategory::RequestInvalidBuffer,
            RawError::LimitExceeded(kind, _) => ErrorCategory::ResourceLimit(kind),
            RawError::OutOfMemory(_) => ErrorCategory::ResourceOutOfMemory,
            RawError::Io(_) => ErrorCategory::Io,
            RawError::Dependency(_) => ErrorCategory::InternalDependency,
            RawError::Stopped(_) => ErrorCategory::Stopped,
            RawError::Buffer(BufferFault::AllocationFailed) => ErrorCategory::ResourceOutOfMemory,
            RawError::Buffer(_) => ErrorCategory::InternalBug,
        }
    }

    /// The category this error belongs to. Every variant maps to exactly one
    /// category; a buffer error is an out-of-memory fault when it is an
    /// allocation failure and an internal defect otherwise.
    pub fn category(&self) -> (r: ErrorCategory)
        ensures
            r == self.spec_category(),
    {
        match self {
            RawError::Malformed(_) => ErrorCategory::ImageMalformed,
            RawError::UnexpectedEof(_) => ErrorCategory::ImageUnexpectedEof,
            RawError::UnsupportedType(_) => ErrorCategory::ImageUnsupportedType,
            RawError::UnsupportedFeature(_) => ErrorCategory::ImageUnsupportedFeature,
            RawError::UnsupportedOperation(_) => ErrorCategory::RequestUnsupportedOperation,
            RawError::InvalidParameters(_) => ErrorCategory::RequestInvalidParameters,
            RawError::InvalidBuffer(_) => ErrorCategory::RequestInvalidBuffer,
            RawError::LimitExceeded(kind, _) => ErrorCategory::ResourceLimit(*kind),
            RawError::OutOfMemory(_) => ErrorCategory::ResourceOutOfMemory,
            RawError::Io(_) => ErrorCategory::Io,
            RawError::Dependency(_) => ErrorCategory::InternalDependency,
            RawError::Stopped(_) => ErrorCategory::Stopped,
            RawError::Buffer(BufferFault::AllocationFailed) => ErrorCategory::ResourceOutOfMemory,
            RawError::Buffer(_) => ErrorCategory::InternalBug,
        }
    }

    /// The codec that produced this error.
    pub fn codec_name(&self) -> (r: Option<&'static str>)
        ensures
            r matches Some(s) && s@ == "zenraw"@,
    {
        proof {
            reveal_strlit("zenraw");
        }
        Some("zenraw")
    }
}

impl From<enough::StopReason> for RawError {
    fn from(reason: enough::StopReason) -> (r: Self)
        ensures
            r == RawError::Stopped(reason),
    {
        RawError::Stopped(reason)
    }
}

impl vstd::std_specs::convert::FromSpecImpl<enough::StopReason> for RawError {
    open spec fn obeys_from_spec() -> bool {
        true
    }

    open spec fn from_spec(reason: enough::StopReason) -> RawError {
        RawError::Stopped(reason)
    }
}

impl From<BufferFault> for RawError {
    fn from(e: BufferFault) -> (r: Self)
        ensures
            r == RawError::Buffer(e),
    {
        RawError::Buffer(e)
    }
}

impl vstd::std_specs::convert::FromSpecImpl<BufferFault> for RawError {
    open spec fn obeys_from_spec() -> bool {
        true
    }

    open spec fn from_spec(e: BufferFault) -> RawError {
        RawError::Buffer(e)
    }
}

impl From<zencodec::UnsupportedOperation> for RawError {
    fn from(op: zencodec::UnsupportedOperation) -> (r: Self)
        ensures
            r == RawError::UnsupportedOperation(op),
    {
        RawError::UnsupportedOperation(op)
    }
}

impl vstd::std_specs::convert::FromSpecImpl<zencodec::UnsupportedOperation> for RawError {
    open spec fn obeys_from_spec() -> bool {
        true
    }

    open spec fn from_spec(op: zencodec::UnsupportedOperation) -> RawError {
        RawError::UnsupportedOperation(op)
    }
}

} // verus!
