//! The unified error type of the library and the text each error displays.
use vstd::prelude::*;
use crate::text::{dec_digits, hex_digits, owned, push_dec, push_hex, push_str};

verus! {

broadcast use vstd::string::group_string_axioms;

/// std's I/O error, carried through unchanged.
#[verifier::external_type_specification]
#[verifier::external_body]
pub struct ExIoError(std::io::Error);

/// Main error type for BUSMASTER operations.
#[derive(Debug)]
pub enum BusmasterError {
    /// A CAN identifier above the maximum for its frame kind.
    InvalidCanId { id: u32, max: u32 },
    /// A payload longer than the frame kind allows.
    InvalidDataLength { len: usize, max: usize },
    /// Invalid signal extraction parameters.
    InvalidSignal { message: String },
    /// Protocol error during communication.
    Protocol { message: String },
    /// Hardware/driver error with vendor information.
    Hardware { message: String, vendor: String },
    /// I/O error (file operations, etc.).
    Io(std::io::Error),
    /// Database parse error with line information.
    DatabaseParse { message: String, line: usize },
    /// General parse error.
    Parse { message: String },
    /// Configuration error.
    Config { message: String },
    /// Channel not found.
    ChannelNotFound { channel: u8 },
    /// Operation timeout.
    Timeout { timeout_ms: u32 },
    /// Buffer full condition.
    BufferFull { capacity: usize },
    /// Network error (for Ethernet protocols).
    Network { message: String },
    /// AI/ML integration error.
    Ai { message: String },
}

/// The text that an error displays, for every variant but `Io`, whose text
/// continues with the I/O error's own description.
pub open spec fn display_spec(e: BusmasterError) -> Seq<char> {
    match e {
        BusmasterError::InvalidCanId { id, max } =>
            "Invalid CAN ID: 0x"@ + hex_digits(id as nat) + " (max: 0x"@ + hex_digits(max as nat) + ")"@,
        BusmasterError::InvalidDataLength { len, max } =>
            "Invalid data length: "@ + dec_digits(len as nat) + " bytes (max: "@ + dec_digits(max as nat) + ")"@,
        BusmasterError::InvalidSignal { message } => "Invalid signal: "@ + message@,
        BusmasterError::Protocol { message } => "Protocol error: "@ + message@,
        BusmasterError::Hardware { message, vendor } =>
            "Hardware error ("@ + vendor@ + "): "@ + message@,
        BusmasterError::Io(_) => "I/O error: "@,
        BusmasterError::DatabaseParse { message, line } =>
            "Parse error at line "@ + dec_digits(line as nat) + ": "@ + message@,
        BusmasterError::Parse { message } => "Parse error: "@ + message@,
        BusmasterError::Config { message } => "Configuration error: "@ + message@,
        BusmasterError::ChannelNotFound { channel } =>
            "Channel "@ + dec_digits(channel as nat) + " not found"@,
        BusmasterError::Timeout { timeout_ms } => "Timeout after "@ + dec_digits(timeout_ms as nat) + "ms"@,
        BusmasterError::BufferFull { capacity } =>
            "Buffer full (capacity: "@ + dec_digits(capacity as nat) + ")"@,
        BusmasterError::Network { message } => "Network error: "@ + message@,
        BusmasterError::Ai { message } => "AI error: "@ + message@,
    }
}

/// Whether an error is one that a retry may get past.
pub open spec fn recoverable_spec(e: BusmasterError) -> bool {
    e is Timeout || e is BufferFull || e is Network
}

/// std's `Display` of an I/O error.
#[verifier::external_body]
pub(crate) fn io_error_text(e: &std::io::Error) -> String {
    e.to_string()
}

impl BusmasterError {
    /// Create a hardware error with vendor information.
    pub fn hardware(vendor: &str, message: &str) -> (r: Self)
        ensures
            r matches BusmasterError::Hardware { message: m, vendor: v } && v@ == vendor@ && m@
                == message@,
    {
        BusmasterError::Hardware { vendor: owned(vendor), message: owned(message) }
    }

    /// Create a protocol error.
    pub fn protocol(message: &str) -> (r: Self)
        ensures
            r matches BusmasterError::Protocol { message: m } && m@ == message@,
    {
        BusmasterError::Protocol { message: owned(message) }
    }

    /// Create a parse error.
    pub fn parse(message: &str) -> (r: Self)
        ensures
            r matches BusmasterError::Parse { message: m } && m@ == message@,
    {
        BusmasterError::Parse { message: owned(message) }
    }

    /// Create a database parse error with line number.
    pub fn database_parse(line: usize, message: &str) -> (r: Self)
        ensures
            r matches BusmasterError::DatabaseParse { message: m, line: l } && l == line && m@
                == message@,
    {
        BusmasterError::DatabaseParse { line, message: owned(message) }
    }

    /// Create a configuration error.
    pub fn config(message: &str) -> (r: Self)
        ensures
            r matches BusmasterError::Config { message: m } && m@ == message@,
    {
        BusmasterError::Config { message: owned(message) }
    }

    /// Create a timeout error.
    pub fn timeout(timeout_ms: u32) -> (r: Self)
        ensures
            r == (BusmasterError::Timeout { timeout_ms }),
    {
        BusmasterError::Timeout { timeout_ms }
    }

    /// Check if this is a recoverable error.
    pub fn is_recoverable(&self) -> (r: bool)
        ensures
            r == recoverable_spec(*self),
    {
        match self {
            BusmasterError::Timeout { .. } => true,
            BusmasterError::BufferFull { .. } => true,
            BusmasterError::Network { .. } => true,
            _ => false,
        }
    }

    /// The text this error displays.
    pub fn to_display_string(&self) -> (r: String)
        ensures
            !(*self is Io) ==> r@ == display_spec(*self),
            *self is Io ==> display_spec(*self).is_prefix_of(r@),
    {
        let mut s = String::new();
        match self {
            BusmasterError::InvalidCanId { id, max } => {
                push_str(&mut s, "Invalid CAN ID: 0x");
                push_hex(&mut s, *id as u64);
                push_str(&mut s, " (max: 0x");
                push_hex(&mut s, *max as u64);
                push_str(&mut s, ")");
            },
            BusmasterError::InvalidDataLength { len, max } => {
                push_str(&mut s, "Invalid data length: ");
                push_dec(&mut s, *len as u64);
                push_str(&mut s, " bytes (max: ");
                push_dec(&mut s, *max as u64);
                push_str(&mut s, ")");
            },
            BusmasterError::InvalidSignal { message } => {
                push_str(&mut s, "Invalid signal: ");
                push_str(&mut s, message.as_str());
            },
            BusmasterError::Protocol { message } => {
                push_str(&mut s, "Protocol error: ");
                push_str(&mut s, message.as_str());
            },
            BusmasterError::Hardware { message, vendor } => {
                push_str(&mut s, "Hardware error (");
                push_str(&mut s, vendor.as_str());
                push_str(&mut s, "): ");
                push_str(&mut s, message.as_str());
            },
            BusmasterError::Io(e) => {
                push_str(&mut s, "I/O error: ");
                proof {
                    reveal_strlit("I/O error: ");
                }
                let t = io_error_text(e);
                let ghost before = s@;
                push_str(&mut s, t.as_str());
                assert(before =~= s@.subrange(0, before.len() as int));
            },
            BusmasterError::DatabaseParse { message, line } => {
                push_str(&mut s, "Parse error at line ");
                push_dec(&mut s, *line as u64);
                push_str(&mut s, ": ");
                push_str(&mut s, message.as_str());
            },
            BusmasterError::Parse { message } => {
                push_str(&mut s, "Parse error: ");
                push_str(&mut s, message.as_str());
            },
            BusmasterError::Config { message } => {
                push_str(&mut s, "Configuration error: ");
                push_str(&mut s, message.as_str());
            },
            BusmasterError::ChannelNotFound { channel } => {
                push_str(&mut s, "Channel ");
                push_dec(&mut s, *channel as u64);
                push_str(&mut s, " not found");
            },
            BusmasterError::Timeout { timeout_ms } => {
                push_str(&mut s, "Timeout after ");
                push_dec(&mut s, *timeout_ms as u64);
                push_str(&mut s, "ms");
            },
            BusmasterError::BufferFull { capacity } => {
                push_str(&mut s, "Buffer full (capacity: ");
                push_dec(&mut s, *capacity as u64);
                push_str(&mut s, ")");
            },
            BusmasterError::Network { message } => {
                push_str(&mut s, "Network error: ");
                push_str(&mut s, message.as_str());
            },
            BusmasterError::Ai { message } => {
                push_str(&mut s, "AI error: ");
                push_str(&mut s, message.as_str());
            },
        }
        s
    }
}

/// Marker for the `From` conversion of an I/O error.
impl From<std::io::Error> for BusmasterError {
    fn from(e: std::io::Error) -> (r: Self) {
        BusmasterError::Io(e)
    }
}

impl vstd::std_specs::convert::FromSpecImpl<std::io::Error> for BusmasterError {
    open spec fn obeys_from_spec() -> bool {
        true
    }

    open spec fn from_spec(e: std::io::Error) -> Self {
        BusmasterError::Io(e)
    }
}

} // verus!
