use rav2d::error::Rav2dError;

#[test]
fn test_error_display() {
    assert_eq!(Rav2dError::Eof.message(), "end of stream");
    assert_eq!(Rav2dError::Again.message(), "need more data");
    assert_eq!(Rav2dError::InvalidData.message(), "invalid or corrupt bitstream data");
    assert_eq!(Rav2dError::FrameTooLarge.message(), "frame dimensions exceed limit");
    assert_eq!(Rav2dError::InvalidParam.message(), "invalid parameter");
    assert_eq!(Rav2dError::OutOfMemory.message(), "out of memory");
}

#[test]
fn test_error_clone_eq() {
    let e1 = Rav2dError::Eof;
    let e2 = e1.clone();
    assert_eq!(e1, e2);
    assert_ne!(e1, Rav2dError::Again);
}
