use busmaster::dil::{ChannelConfig, ChannelHandle, ChannelStatus, DeviceInfo, DriverVersion};

#[test]
fn test_device_info_builder() {
    let info = DeviceInfo::new("PCAN-USB", "12345", 1)
        .with_hardware_version("1.0")
        .with_firmware_version("2.0");

    assert_eq!(info.name, "PCAN-USB");
    assert_eq!(info.serial, "12345");
    assert_eq!(info.channel_count, 1);
    assert_eq!(info.hardware_version, Some("1.0".to_string()));
    assert_eq!(info.firmware_version, Some("2.0".to_string()));
}

#[test]
fn test_channel_config_builder() {
    let config = ChannelConfig::new(500_000)
        .with_silent(true)
        .with_loopback(false);

    assert_eq!(config.baudrate, 500_000);
    assert!(config.silent);
    assert!(!config.loopback);
    assert!(!config.fd_enabled);
}

#[test]
fn test_channel_config_fd() {
    let config = ChannelConfig::new(500_000).with_fd(2_000_000);

    assert!(config.fd_enabled);
    assert_eq!(config.fd_baudrate, Some(2_000_000));
}

#[test]
fn test_channel_config_default() {
    let config = ChannelConfig::default();
    assert_eq!(config.baudrate, ChannelConfig::BAUDRATE_500K);
    assert!(!config.silent);
    assert!(!config.loopback);
}

#[test]
fn test_channel_config_constants() {
    assert_eq!(ChannelConfig::BAUDRATE_125K, 125_000);
    assert_eq!(ChannelConfig::BAUDRATE_250K, 250_000);
    assert_eq!(ChannelConfig::BAUDRATE_500K, 500_000);
    assert_eq!(ChannelConfig::BAUDRATE_1M, 1_000_000);
}

#[test]
fn test_channel_status_operational() {
    assert!(ChannelStatus::Active.is_operational());
    assert!(ChannelStatus::Warning.is_operational());
    assert!(!ChannelStatus::Closed.is_operational());
    assert!(!ChannelStatus::BusOff.is_operational());
}

#[test]
fn test_channel_status_errors() {
    assert!(ChannelStatus::BusOff.has_errors());
    assert!(ChannelStatus::Error.has_errors());
    assert!(ChannelStatus::Passive.has_errors());
    assert!(!ChannelStatus::Active.has_errors());
}

#[test]
fn test_channel_handle() {
    let handle = ChannelHandle::new(0, 1);
    assert_eq!(handle.channel, 0);
    assert_eq!(handle.driver_id, 1);
}

#[test]
fn test_driver_version() {
    let version = DriverVersion::new("1.0.0");
    assert_eq!(version.driver, "1.0.0");
    assert_eq!(version.hardware, None);
    assert_eq!(version.api, None);
}

