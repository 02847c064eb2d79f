use zenraw::error::{BufferFault, ErrorCategory, RawError, RawLimitKind};

#[test]
fn raw_limit_kind_display() {
    assert_eq!(RawLimitKind::Width.to_string(), "width");
    assert_eq!(RawLimitKind::Height.to_string(), "height");
    assert_eq!(RawLimitKind::Pixels.to_string(), "pixels");
    assert_eq!(RawLimitKind::Memory.to_string(), "memory");
    assert_eq!(RawLimitKind::InputSize.to_string(), "input size");
}

#[test]
fn from_stop_reason() {
    let reason = enough::StopReason::Cancelled;
    let e: RawError = reason.into();
    assert!(matches!(e, RawError::Stopped(_)));
}

#[test]
fn from_buffer_error() {
    let be = BufferFault::InvalidDimensions;
    let e: RawError = be.into();
    assert!(matches!(e, RawError::Buffer(_)));
}

#[test]
fn codec_name_is_zenraw() {
    assert_eq!(RawError::Malformed("x".into()).codec_name(), Some("zenraw"));
}

#[test]
fn image_origin_categories() {
    assert_eq!(RawError::Malformed("x".into()).category(), ErrorCategory::ImageMalformed);
    assert_eq!(RawError::UnexpectedEof("x".into()).category(), ErrorCategory::ImageUnexpectedEof);
    assert_eq!(RawError::UnsupportedType("x".into()).category(), ErrorCategory::ImageUnsupportedType);
    assert_eq!(
        RawError::UnsupportedFeature("x".into()).category(),
        ErrorCategory::ImageUnsupportedFeature
    );
}

#[test]
fn request_origin_categories() {
    assert_eq!(
        RawError::InvalidParameters("x".into()).category(),
        ErrorCategory::RequestInvalidParameters
    );
    assert_eq!(RawError::InvalidBuffer("x".into()).category(), ErrorCategory::RequestInvalidBuffer);
    assert_eq!(
        RawError::UnsupportedOperation(zencodec::UnsupportedOperation::RowLevelDecode).category(),
        ErrorCategory::RequestUnsupportedOperation
    );
    assert_eq!(
        RawError::UnsupportedOperation(zencodec::UnsupportedOperation::AnimationDecode).category(),
        ErrorCategory::RequestUnsupportedOperation
    );
}

#[test]
fn resource_origin_categories() {
    assert_eq!(
        RawError::LimitExceeded(RawLimitKind::Pixels, "x".into()).category(),
        ErrorCategory::ResourceLimit(RawLimitKind::Pixels)
    );
    assert_eq!(
        RawError::LimitExceeded(RawLimitKind::Width, "x".into()).category(),
        ErrorCategory::ResourceLimit(RawLimitKind::Width)
    );
    assert_eq!(
        RawError::LimitExceeded(RawLimitKind::Height, "x".into()).category(),
        ErrorCategory::ResourceLimit(RawLimitKind::Height)
    );
    assert_eq!(
        RawError::LimitExceeded(RawLimitKind::Memory, "x".into()).category(),
        ErrorCategory::ResourceLimit(RawLimitKind::Memory)
    );
    assert_eq!(
        RawError::LimitExceeded(RawLimitKind::InputSize, "x".into()).category(),
        ErrorCategory::ResourceLimit(RawLimitKind::InputSize)
    );
    assert_eq!(RawError::OutOfMemory("x".into()).category(), ErrorCategory::ResourceOutOfMemory);
}

#[test]
fn io_category_is_opaque() {
    assert_eq!(RawError::Io("x".into()).category(), ErrorCategory::Io);
}

#[test]
fn dependency_is_internal() {
    assert_eq!(RawError::Dependency("x".into()).category(), ErrorCategory::InternalDependency);
}

#[test]
fn stopped_delegates_to_stop_reason() {
    assert_eq!(
        RawError::Stopped(enough::StopReason::Cancelled).category(),
        ErrorCategory::Stopped
    );
    assert_eq!(
        RawError::Stopped(enough::StopReason::TimedOut).category(),
        ErrorCategory::Stopped
    );
}

#[test]
fn buffer_allocation_failed_is_oom_others_are_internal_bug() {
    assert_eq!(
        RawError::Buffer(BufferFault::AllocationFailed).category(),
        ErrorCategory::ResourceOutOfMemory
    );
    assert_eq!(
        RawError::Buffer(BufferFault::InvalidDimensions).category(),
        ErrorCategory::InternalBug
    );
    assert_eq!(
        RawError::Buffer(BufferFault::StrideTooSmall).category(),
        ErrorCategory::InternalBug
    );
}

#[test]
fn from_zencodec_unsupported_operation() {
    let e: RawError = zencodec::UnsupportedOperation::AnimationDecode.into();
    assert!(matches!(e, RawError::UnsupportedOperation(_)));
}

#[test]
fn every_non_allocation_buffer_fault_is_an_internal_bug() {
    for f in [
        BufferFault::AlignmentViolation,
        BufferFault::InsufficientData,
        BufferFault::StrideNotPixelAligned,
        BufferFault::IncompatibleDescriptor,
        BufferFault::Other,
    ] {
        assert_eq!(RawError::from(f).category(), ErrorCategory::InternalBug);
    }
    assert_eq!(RawError::from(BufferFault::AllocationFailed).category(), ErrorCategory::ResourceOutOfMemory);
}
