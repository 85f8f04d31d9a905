use busmaster::error::BusmasterError;

#[test]
fn test_error_display() {
    let err = BusmasterError::InvalidCanId {
        id: 0x800,
        max: 0x7FF,
    };
    assert!(err.to_display_string().contains("0x800"));
    assert!(err.to_display_string().contains("0x7FF"));
}

#[test]
fn test_hardware_error_helper() {
    let err = BusmasterError::hardware("PEAK", "Device not found");
    match err {
        BusmasterError::Hardware { vendor, message } => {
            assert_eq!(vendor, "PEAK");
            assert_eq!(message, "Device not found");
        },
        _ => panic!("Expected Hardware error"),
    }
}

#[test]
fn test_is_recoverable() {
    assert!(BusmasterError::timeout(1000).is_recoverable());
    assert!(BusmasterError::BufferFull { capacity: 100 }.is_recoverable());
    assert!(!BusmasterError::InvalidCanId { id: 0, max: 0 }.is_recoverable());
}

#[test]
fn test_io_error_conversion() {
    let io_err = std::io::Error::new(std::io::ErrorKind::NotFound, "file not found");
    let err: BusmasterError = io_err.into();
    assert!(matches!(err, BusmasterError::Io(_)));
}

