//! Driver interface layer: the types and traits through which hardware
//! drivers are configured and driven.
use vstd::prelude::*;
use crate::error::BusmasterError;
use crate::frame::CanFrame;
use crate::text::owned;

verus! {

broadcast use vstd::string::group_string_axioms;

/// CAN driver: implemented by hardware drivers.
pub trait CanDriver: Send + Sync {
    /// Get the driver name
    fn name(&self) -> &str;

    /// List available hardware devices
    fn list_devices(&self) -> Result<Vec<DeviceInfo>, BusmasterError>;

    /// Open a CAN channel with the specified configuration
    fn open_channel(&mut self, channel: u8, config: &ChannelConfig) -> Result<(), BusmasterError>;

    /// Close a CAN channel
    fn close_channel(&mut self, channel: u8) -> Result<(), BusmasterError>;

    /// Send a CAN frame on the specified channel
    fn send(&mut self, channel: u8, frame: &CanFrame) -> Result<(), BusmasterError>;

    /// Receive a CAN frame from the specified channel (non-blocking)
    fn receive(&mut self, channel: u8) -> Result<Option<CanFrame>, BusmasterError>;

    /// Get the current status of a channel
    fn channel_status(&self, channel: u8) -> Result<ChannelStatus, BusmasterError>;

    /// Reset a channel: by default, close it and report success.
    fn reset_channel(&mut self, channel: u8) -> Result<(), BusmasterError> {
        let _ = self.close_channel(channel);
        Ok(())
    }

    /// Get driver version information: by default, none.
    fn version(&self) -> Option<DriverVersion> {
        None
    }
}

/// Device information
#[derive(Debug, Clone, PartialEq, Eq)]
pub struct DeviceInfo {
    /// Device name (e.g., "PCAN-USB", "VN1610")
    pub name: String,
    /// Serial number or unique identifier
    pub serial: String,
    /// Number of CAN channels on this device
    pub channel_count: u8,
    /// Hardware version (optional)
    pub hardware_version: Option<String>,
    /// Firmware version (optional)
    pub firmware_version: Option<String>,
}

impl DeviceInfo {
    /// Create a new device info without version information
    pub fn new(name: &str, serial: &str, channel_count: u8) -> (r: Self)
        ensures
            r.name@ == name@,
            r.serial@ == serial@,
            r.channel_count == channel_count,
            r.hardware_version is None,
            r.firmware_version is None,
    {
        DeviceInfo {
            name: owned(name),
            serial: owned(serial),
            channel_count,
            hardware_version: None,
            firmware_version: None,
        }
    }

    /// Set hardware version
    pub fn with_hardware_version(self, version: &str) -> (r: Self)
        ensures
            r.hardware_version matches Some(v) && v@ == version@,
            r.name == self.name,
            r.serial == self.serial,
            r.channel_count == self.channel_count,
            r.firmware_version == self.firmware_version,
    {
        let mut s = self;
        s.hardware_version = Some(owned(version));
        s
    }

    /// Set firmware version
    pub fn with_firmware_version(self, version: &str) -> (r: Self)
        ensures
            r.firmware_version matches Some(v) && v@ == version@,
            r.name == self.name,
            r.serial == self.serial,
            r.channel_count == self.channel_count,
            r.hardware_version == self.hardware_version,
    {
        let mut s = self;
        s.firmware_version = Some(owned(version));
        s
    }
}

/// Channel configuration
#[derive(Debug, Clone, PartialEq, Eq, Structural)]
pub struct ChannelConfig {
    /// Baudrate in bits per second (e.g., 500_000 for 500 kbps)
    pub baudrate: u32,
    /// Enable silent mode (listen-only, no ACK)
    pub silent: bool,
    /// Enable loopback mode (for testing)
    pub loopback: bool,
    /// Enable CAN FD mode (if supported)
    pub fd_enabled: bool,
    /// CAN FD data baudrate (if fd_enabled is true)
    pub fd_baudrate: Option<u32>,
}

impl ChannelConfig {
    /// Common baudrate: 125 kbps
    pub const BAUDRATE_125K: u32 = 125_000;
    /// Common baudrate: 250 kbps
    pub const BAUDRATE_250K: u32 = 250_000;
    /// Common baudrate: 500 kbps
    pub const BAUDRATE_500K: u32 = 500_000;
    /// Common baudrate: 1 Mbps
    pub const BAUDRATE_1M: u32 = 1_000_000;

    /// Create a new configuration: classical CAN, not silent, no loopback.
    pub fn new(baudrate: u32) -> (r: Self)
        ensures
            r == (ChannelConfig {
                baudrate,
                silent: false,
                loopback: false,
                fd_enabled: false,
                fd_baudrate: None,
            }),
    {
        ChannelConfig {
            baudrate,
            silent: false,
            loopback: false,
            fd_enabled: false,
            fd_baudrate: None,
        }
    }

    /// Enable or disable silent (listen-only) mode
    pub fn with_silent(self, silent: bool) -> (r: Self)
        ensures
            r == (ChannelConfig { silent, ..self }),
    {
        let mut s = self;
        s.silent = silent;
        s
    }

    /// Enable or disable loopback mode
    pub fn with_loopback(self, loopback: bool) -> (r: Self)
        ensures
            r == (ChannelConfig { loopback, ..self }),
    {
        let mut s = self;
        s.loopback = loopback;
        s
    }

    /// Enable CAN FD mode with specified data baudrate
    pub fn with_fd(self, fd_baudrate: u32) -> (r: Self)
        ensures
            r == (ChannelConfig { fd_enabled: true, fd_baudrate: Some(fd_baudrate), ..self }),
    {
        let mut s = self;
        s.fd_enabled = true;
        s.fd_baudrate = Some(fd_baudrate);
        s
    }
}

impl Default for ChannelConfig {
    /// 500 kbps classical CAN.
    fn default() -> (r: Self)
        ensures
            r == ChannelConfig::new_spec(500_000),
    {
        Self::new(Self::BAUDRATE_500K)
    }
}

impl ChannelConfig {
    /// The configuration that `new` builds.
    pub open spec fn new_spec(baudrate: u32) -> ChannelConfig {
        ChannelConfig { baudrate, silent: false, loopback: false, fd_enabled: false, fd_baudrate: None }
    }
}

/// Channel status
#[derive(Debug, Clone, Copy, PartialEq, Eq, Structural)]
pub enum ChannelStatus {
    /// Channel is closed (not initialized)
    Closed,
    /// Channel is open and operating normally
    Active,
    /// Channel is in bus-off state (too many errors)
    BusOff,
    /// Channel has warnings (error counters elevated)
    Warning,
    /// Channel has errors
    Error,
    /// Channel is in passive error state
    Passive,
}

impl ChannelStatus {
    /// Check if the channel is operational (Active or Warning)
    pub fn is_operational(&self) -> (r: bool)
        ensures
            r == (*self is Active || *self is Warning),
    {
        match self {
            ChannelStatus::Active => true,
            ChannelStatus::Warning => true,
            _ => false,
        }
    }

    /// Check if the channel has errors (BusOff, Error or Passive)
    pub fn has_errors(&self) -> (r: bool)
        ensures
            r == (*self is BusOff || *self is Error || *self is Passive),
    {
        match self {
            ChannelStatus::BusOff => true,
            ChannelStatus::Error => true,
            ChannelStatus::Passive => true,
            _ => false,
        }
    }
}

/// No channel status is both operational and in error.
pub proof fn lemma_status_operational_excludes_errors(s: ChannelStatus)
    ensures
        !((s is Active || s is Warning) && (s is BusOff || s is Error || s is Passive)),
{
}

/// Driver version information
#[derive(Debug, Clone, PartialEq, Eq)]
pub struct DriverVersion {
    /// Driver software version
    pub driver: String,
    /// Hardware/firmware version (if applicable)
    pub hardware: Option<String>,
    /// API version
    pub api: Option<String>,
}

impl DriverVersion {
    /// Create a new driver version with no hardware or API version
    pub fn new(driver: &str) -> (r: Self)
        ensures
            r.driver@ == driver@,
            r.hardware is None,
            r.api is None,
    {
        DriverVersion { driver: owned(driver), hardware: None, api: None }
    }
}

/// Driver factory: implemented by driver plugins.
pub trait DriverFactory: Send + Sync {
    /// Create a new driver instance
    fn create(&self) -> Result<Box<dyn CanDriver>, BusmasterError>;

    /// Get the driver name
    fn name(&self) -> &str;

    /// Get the driver vendor name
    fn vendor(&self) -> &str;

    /// Get driver description: by default, none.
    fn description(&self) -> Option<&str> {
        None
    }

    /// Check if the driver is available on this platform: by default, yes.
    fn is_available(&self) -> bool {
        true
    }
}

/// Channel handle for managing open channels
#[derive(Debug, Clone, Copy, PartialEq, Eq, Hash, Structural)]
pub struct ChannelHandle {
    /// Channel number
    pub channel: u8,
    /// Driver instance ID (for multi-driver scenarios)
    pub driver_id: u32,
}

impl ChannelHandle {
    /// Create a new channel handle
    pub fn new(channel: u8, driver_id: u32) -> (r: Self)
        ensures
            r == (ChannelHandle { channel, driver_id }),
    {
        ChannelHandle { channel, driver_id }
    }
}

} // verus!
