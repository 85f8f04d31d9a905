//! CAN frame types: classical CAN 2.0, CAN FD and CAN XL.
use vstd::prelude::*;
use crate::error::BusmasterError;
use crate::text::{dec_digits, push_dec, push_str};

verus! {

broadcast use vstd::string::group_string_axioms;

/// Maximum standard CAN ID (11-bit)
pub const MAX_STANDARD_ID: u32 = 0x7FF;

/// Maximum extended CAN ID (29-bit)
pub const MAX_EXTENDED_ID: u32 = 0x1FFF_FFFF;

/// Maximum CAN 2.0 data length
pub const MAX_CAN_DATA_LEN: usize = 8;

/// Maximum CAN FD data length
pub const MAX_CANFD_DATA_LEN: usize = 64;

/// Maximum CAN XL data length
pub const MAX_CANXL_DATA_LEN: usize = 2048;

/// The largest identifier a frame of the given kind may carry.
pub open spec fn max_id(extended: bool) -> u32 {
    if extended {
        MAX_EXTENDED_ID
    } else {
        MAX_STANDARD_ID
    }
}

/// A copy of a byte slice.
pub fn copy_bytes(data: &[u8]) -> (v: Vec<u8>)
    ensures
        v@ == data@,
{
    let mut v: Vec<u8> = Vec::new();
    let mut i: usize = 0;
    while i < data.len()
        invariant
            i <= data.len(),
            v@ == data@.take(i as int),
        decreases data.len() - i,
    {
        v.push(data[i]);
        i += 1;
        assert(v@ =~= data@.take(i as int));
    }
    assert(data@.take(data.len() as int) =~= data@);
    v
}

// ============================================================================
// CAN 2.0
// ============================================================================

/// CAN 2.0 frame
#[derive(Debug, PartialEq, Eq)]
pub struct CanFrame {
    id: u32,
    extended: bool,
    rtr: bool,
    data: Vec<u8>,
    timestamp_us: u64,
    channel: u8,
}

impl CanFrame {
    /// A frame's identifier fits its kind and its payload fits CAN 2.0.
    #[verifier::type_invariant]
    closed spec fn wf(self) -> bool {
        &&& self.id <= max_id(self.extended)
        &&& self.data.len() <= MAX_CAN_DATA_LEN
    }

    /// The frame's identifier.
    pub closed spec fn spec_id(&self) -> u32 {
        self.id
    }

    /// Whether the frame uses a 29-bit identifier.
    pub closed spec fn spec_extended(&self) -> bool {
        self.extended
    }

    /// Whether the frame is a remote transmission request.
    pub closed spec fn spec_rtr(&self) -> bool {
        self.rtr
    }

    /// The payload.
    pub closed spec fn spec_data(&self) -> Seq<u8> {
        self.data@
    }

    /// The timestamp in microseconds.
    pub closed spec fn spec_timestamp(&self) -> u64 {
        self.timestamp_us
    }

    /// The channel number.
    pub closed spec fn spec_channel(&self) -> u8 {
        self.channel
    }

    /// The frame's contents are those given, with no RTR, timestamp 0 and channel 0.
    pub open spec fn is_new(self, id: u32, extended: bool, data: Seq<u8>) -> bool {
        &&& self.spec_id() == id
        &&& self.spec_extended() == extended
        &&& !self.spec_rtr()
        &&& self.spec_data() == data
        &&& self.spec_timestamp() == 0
        &&& self.spec_channel() == 0
    }

    /// What the constructor of a frame of the given kind returns.
    pub open spec fn new_result(
        r: Result<CanFrame, BusmasterError>,
        id: u32,
        extended: bool,
        data: Seq<u8>,
    ) -> bool {
        if id > max_id(extended) {
            r == Err::<CanFrame, BusmasterError>(
                BusmasterError::InvalidCanId { id, max: max_id(extended) },
            )
        } else if data.len() > MAX_CAN_DATA_LEN {
            r == Err::<CanFrame, BusmasterError>(
                BusmasterError::InvalidDataLength { len: data.len() as usize, max: MAX_CAN_DATA_LEN },
            )
        } else {
            r matches Ok(f) && f.is_new(id, extended, data)
        }
    }

    fn make(id: u32, extended: bool, data: &[u8]) -> (r: Result<Self, BusmasterError>)
        ensures
            Self::new_result(r, id, extended, data@),
    {
        let max = if extended {
            MAX_EXTENDED_ID
        } else {
            MAX_STANDARD_ID
        };
        if id > max {
            return Err(BusmasterError::InvalidCanId { id, max });
        }
        if data.len() > MAX_CAN_DATA_LEN {
            return Err(BusmasterError::InvalidDataLength { len: data.len(), max: MAX_CAN_DATA_LEN });
        }
        Ok(CanFrame {
            id,
            extended,
            rtr: false,
            data: copy_bytes(data),
            timestamp_us: 0,
            channel: 0,
        })
    }

    /// Create a new standard CAN frame: fails if the ID exceeds 0x7FF or the
    /// data exceeds 8 bytes.
    pub fn new_standard(id: u32, data: &[u8]) -> (r: Result<Self, BusmasterError>)
        ensures
            Self::new_result(r, id, false, data@),
    {
        Self::make(id, false, data)
    }

    /// Create a new extended CAN frame: fails if the ID exceeds 0x1FFF_FFFF or
    /// the data exceeds 8 bytes.
    pub fn new_extended(id: u32, data: &[u8]) -> (r: Result<Self, BusmasterError>)
        ensures
            Self::new_result(r, id, true, data@),
    {
        Self::make(id, true, data)
    }

    /// Get the CAN ID
    #[verifier::when_used_as_spec(spec_id)]
    pub fn id(&self) -> (r: u32)
        ensures
            r == self.spec_id(),
            r <= max_id(self.spec_extended()),
    {
        proof {
            use_type_invariant(self);
        }
        self.id
    }

    /// Check if this is an extended frame
    #[verifier::when_used_as_spec(spec_extended)]
    pub fn is_extended(&self) -> (r: bool)
        ensures
            r == self.spec_extended(),
    {
        self.extended
    }

    /// Check if this is a remote transmission request
    #[verifier::when_used_as_spec(spec_rtr)]
    pub fn is_rtr(&self) -> (r: bool)
        ensures
            r == self.spec_rtr(),
    {
        self.rtr
    }

    /// Get the data bytes
    pub fn data(&self) -> (r: &[u8])
        ensures
            r@ == self.spec_data(),
            r@.len() <= MAX_CAN_DATA_LEN,
    {
        proof {
            use_type_invariant(self);
        }
        self.data.as_slice()
    }

    /// Get the data length code: the number of data bytes.
    pub fn dlc(&self) -> (r: u8)
        ensures
            r as int == self.spec_data().len(),
    {
        proof {
            use_type_invariant(self);
        }
        self.data.len() as u8
    }

    /// Get the timestamp in microseconds
    #[verifier::when_used_as_spec(spec_timestamp)]
    pub fn timestamp_us(&self) -> (r: u64)
        ensures
            r == self.spec_timestamp(),
    {
        self.timestamp_us
    }

    /// Set the timestamp
    pub fn set_timestamp(&mut self, timestamp_us: u64)
        ensures
            final(self).spec_timestamp() == timestamp_us,
            final(self).spec_id() == old(self).spec_id(),
            final(self).spec_extended() == old(self).spec_extended(),
            final(self).spec_rtr() == old(self).spec_rtr(),
            final(self).spec_data() == old(self).spec_data(),
            final(self).spec_channel() == old(self).spec_channel(),
    {
        proof {
            use_type_invariant(&*self);
        }
        self.timestamp_us = timestamp_us;
    }

    /// Get the channel number
    #[verifier::when_used_as_spec(spec_channel)]
    pub fn channel(&self) -> (r: u8)
        ensures
            r == self.spec_channel(),
    {
        self.channel
    }

    /// Set the channel number
    pub fn set_channel(&mut self, channel: u8)
        ensures
            final(self).spec_channel() == channel,
            final(self).spec_id() == old(self).spec_id(),
            final(self).spec_extended() == old(self).spec_extended(),
            final(self).spec_rtr() == old(self).spec_rtr(),
            final(self).spec_data() == old(self).spec_data(),
            final(self).spec_timestamp() == old(self).spec_timestamp(),
    {
        proof {
            use_type_invariant(&*self);
        }
        self.channel = channel;
    }
}

impl Clone for CanFrame {
    /// A copy with the same contents.
    fn clone(&self) -> (r: Self)
        ensures
            r.spec_id() == self.spec_id(),
            r.spec_extended() == self.spec_extended(),
            r.spec_rtr() == self.spec_rtr(),
            r.spec_data() == self.spec_data(),
            r.spec_timestamp() == self.spec_timestamp(),
            r.spec_channel() == self.spec_channel(),
    {
        proof {
            use_type_invariant(self);
        }
        CanFrame {
            id: self.id,
            extended: self.extended,
            rtr: self.rtr,
            data: copy_bytes(self.data.as_slice()),
            timestamp_us: self.timestamp_us,
            channel: self.channel,
        }
    }
}

// ============================================================================
// CAN FD
// ============================================================================

/// The CAN FD data length code for a payload of `len` bytes: the smallest
/// code whose capacity holds the payload.
pub open spec fn dlc_from_len_spec(len: int) -> u8 {
    if len <= 8 {
        len as u8
    } else if len <= 12 {
        9
    } else if len <= 16 {
        10
    } else if len <= 20 {
        11
    } else if len <= 24 {
        12
    } else if len <= 32 {
        13
    } else if len <= 48 {
        14
    } else {
        15
    }
}

/// The payload capacity of a CAN FD data length code.
pub open spec fn len_from_dlc_spec(dlc: u8) -> int {
    if dlc <= 8 {
        dlc as int
    } else if dlc == 9 {
        12
    } else if dlc == 10 {
        16
    } else if dlc == 11 {
        20
    } else if dlc == 12 {
        24
    } else if dlc == 13 {
        32
    } else if dlc == 14 {
        48
    } else {
        64
    }
}

/// Convert a data length (negative lengths aside) to its CAN FD DLC.
pub fn dlc_from_len(len: usize) -> (r: u8)
    ensures
        r == dlc_from_len_spec(len as int),
{
    if len <= 8 {
        len as u8
    } else if len <= 12 {
        9
    } else if len <= 16 {
        10
    } else if len <= 20 {
        11
    } else if len <= 24 {
        12
    } else if len <= 32 {
        13
    } else if len <= 48 {
        14
    } else {
        15
    }
}

/// For every payload that CAN FD allows, its DLC is at most 15, its capacity
/// holds the payload, and no smaller DLC would.
pub proof fn lemma_dlc_covers_len(len: int)
    requires
        0 <= len <= MAX_CANFD_DATA_LEN,
    ensures
        dlc_from_len_spec(len) <= 15,
        len_from_dlc_spec(dlc_from_len_spec(len)) >= len,
        dlc_from_len_spec(len) > 0 ==> len_from_dlc_spec((dlc_from_len_spec(len) - 1) as u8) < len,
{
}

/// CAN FD frame
#[derive(Debug, PartialEq, Eq)]
pub struct CanFdFrame {
    id: u32,
    extended: bool,
    brs: bool,
    esi: bool,
    data: Vec<u8>,
    timestamp_us: u64,
    channel: u8,
}

impl CanFdFrame {
    /// A frame's identifier fits its kind, its payload fits CAN FD, and its
    /// error state indicator is clear (nothing sets it).
    #[verifier::type_invariant]
    closed spec fn wf(self) -> bool {
        &&& self.id <= max_id(self.extended)
        &&& self.data.len() <= MAX_CANFD_DATA_LEN
        &&& !self.esi
    }

    /// The frame's identifier.
    pub closed spec fn spec_id(&self) -> u32 {
        self.id
    }

    /// Whether the frame uses a 29-bit identifier.
    pub closed spec fn spec_extended(&self) -> bool {
        self.extended
    }

    /// Whether bit rate switching is on.
    pub closed spec fn spec_brs(&self) -> bool {
        self.brs
    }

    /// The error state indicator.
    pub closed spec fn spec_esi(&self) -> bool {
        self.esi
    }

    /// The payload.
    pub closed spec fn spec_data(&self) -> Seq<u8> {
        self.data@
    }

    /// The timestamp in microseconds.
    pub closed spec fn spec_timestamp(&self) -> u64 {
        self.timestamp_us
    }

    /// The channel number.
    pub closed spec fn spec_channel(&self) -> u8 {
        self.channel
    }

    /// What `new` returns for these arguments.
    pub open spec fn new_result(
        r: Result<CanFdFrame, BusmasterError>,
        id: u32,
        extended: bool,
        data: Seq<u8>,
    ) -> bool {
        if id > max_id(extended) {
            r == Err::<CanFdFrame, BusmasterError>(
                BusmasterError::InvalidCanId { id, max: max_id(extended) },
            )
        } else if data.len() > MAX_CANFD_DATA_LEN {
            r == Err::<CanFdFrame, BusmasterError>(
                BusmasterError::InvalidDataLength { len: data.len() as usize, max: MAX_CANFD_DATA_LEN },
            )
        } else {
            r matches Ok(f) && {
                &&& f.spec_id() == id
                &&& f.spec_extended() == extended
                &&& !f.spec_brs()
                &&& !f.spec_esi()
                &&& f.spec_data() == data
                &&& f.spec_timestamp() == 0
                &&& f.spec_channel() == 0
            }
        }
    }

    /// Create a new CAN FD frame: fails if the ID exceeds the maximum for the
    /// frame kind or the data exceeds 64 bytes.
    pub fn new(id: u32, extended: bool, data: &[u8]) -> (r: Result<Self, BusmasterError>)
        ensures
            Self::new_result(r, id, extended, data@),
    {
        let max = if extended {
            MAX_EXTENDED_ID
        } else {
            MAX_STANDARD_ID
        };
        if id > max {
            return Err(BusmasterError::InvalidCanId { id, max });
        }
        if data.len() > MAX_CANFD_DATA_LEN {
            return Err(
                BusmasterError::InvalidDataLength { len: data.len(), max: MAX_CANFD_DATA_LEN },
            );
        }
        Ok(CanFdFrame {
            id,
            extended,
            brs: false,
            esi: false,
            data: copy_bytes(data),
            timestamp_us: 0,
            channel: 0,
        })
    }

    /// Get the CAN ID
    #[verifier::when_used_as_spec(spec_id)]
    pub fn id(&self) -> (r: u32)
        ensures
            r == self.spec_id(),
            r <= max_id(self.spec_extended()),
    {
        proof {
            use_type_invariant(self);
        }
        self.id
    }

    /// Check if this is an extended frame
    #[verifier::when_used_as_spec(spec_extended)]
    pub fn is_extended(&self) -> (r: bool)
        ensures
            r == self.spec_extended(),
    {
        self.extended
    }

    /// Check if bit rate switch is enabled
    #[verifier::when_used_as_spec(spec_brs)]
    /// (The error state indicator of a frame is always clear.)
    pub fn is_brs(&self) -> (r: bool)
        ensures
            r == self.spec_brs(),
            !self.spec_esi(),
    {
        proof {
            use_type_invariant(self);
        }
        self.brs
    }

    /// Set bit rate switch flag
    pub fn set_brs(&mut self, brs: bool)
        ensures
            final(self).spec_brs() == brs,
            final(self).spec_id() == old(self).spec_id(),
            final(self).spec_extended() == old(self).spec_extended(),
            final(self).spec_esi() == old(self).spec_esi(),
            final(self).spec_data() == old(self).spec_data(),
            final(self).spec_timestamp() == old(self).spec_timestamp(),
            final(self).spec_channel() == old(self).spec_channel(),
    {
        proof {
            use_type_invariant(&*self);
        }
        self.brs = brs;
    }

    /// Get the data bytes
    pub fn data(&self) -> (r: &[u8])
        ensures
            r@ == self.spec_data(),
            r@.len() <= MAX_CANFD_DATA_LEN,
    {
        proof {
            use_type_invariant(self);
        }
        self.data.as_slice()
    }

    /// Get the data length code
    pub fn dlc(&self) -> (r: u8)
        ensures
            r == dlc_from_len_spec(self.spec_data().len() as int),
    {
        dlc_from_len(self.data.len())
    }

    /// Get the timestamp in microseconds
    #[verifier::when_used_as_spec(spec_timestamp)]
    pub fn timestamp_us(&self) -> (r: u64)
        ensures
            r == self.spec_timestamp(),
    {
        self.timestamp_us
    }

    /// Set the timestamp
    pub fn set_timestamp(&mut self, timestamp_us: u64)
        ensures
            final(self).spec_timestamp() == timestamp_us,
            final(self).spec_id() == old(self).spec_id(),
            final(self).spec_extended() == old(self).spec_extended(),
            final(self).spec_brs() == old(self).spec_brs(),
            final(self).spec_esi() == old(self).spec_esi(),
            final(self).spec_data() == old(self).spec_data(),
            final(self).spec_channel() == old(self).spec_channel(),
    {
        proof {
            use_type_invariant(&*self);
        }
        self.timestamp_us = timestamp_us;
    }

    /// Get the channel number
    #[verifier::when_used_as_spec(spec_channel)]
    pub fn channel(&self) -> (r: u8)
        ensures
            r == self.spec_channel(),
    {
        self.channel
    }

    /// Set the channel number
    pub fn set_channel(&mut self, channel: u8)
        ensures
            final(self).spec_channel() == channel,
            final(self).spec_id() == old(self).spec_id(),
            final(self).spec_extended() == old(self).spec_extended(),
            final(self).spec_brs() == old(self).spec_brs(),
            final(self).spec_esi() == old(self).spec_esi(),
            final(self).spec_data() == old(self).spec_data(),
            final(self).spec_timestamp() == old(self).spec_timestamp(),
    {
        proof {
            use_type_invariant(&*self);
        }
        self.channel = channel;
    }
}

impl Clone for CanFdFrame {
    /// A copy with the same contents.
    fn clone(&self) -> (r: Self)
        ensures
            r.spec_id() == self.spec_id(),
            r.spec_extended() == self.spec_extended(),
            r.spec_brs() == self.spec_brs(),
            r.spec_esi() == self.spec_esi(),
            r.spec_data() == self.spec_data(),
            r.spec_timestamp() == self.spec_timestamp(),
            r.spec_channel() == self.spec_channel(),
    {
        proof {
            use_type_invariant(self);
        }
        CanFdFrame {
            id: self.id,
            extended: self.extended,
            brs: self.brs,
            esi: self.esi,
            data: copy_bytes(self.data.as_slice()),
            timestamp_us: self.timestamp_us,
            channel: self.channel,
        }
    }
}

// ============================================================================
// CAN XL
// ============================================================================

/// CAN XL Service Data Unit Type (SDT)
#[derive(Debug, Clone, Copy, PartialEq, Eq, Structural)]
pub enum CanXlSdt {
    /// Content type not specified (0x00)
    ContentBasedAddressing,
    /// Classical CAN mapped to CAN XL (0x01)
    ClassicalCanTunneling,
    /// CAN FD mapped to CAN XL (0x02)
    CanFdTunneling,
    /// IEEE 802.3 Ethernet frame (0x03)
    Ethernet,
    /// IPv4 packet (0x04)
    Ipv4,
    /// IPv6 packet (0x05)
    Ipv6,
    /// Reserved for future use (value stored)
    Reserved(u8),
}

/// The byte that encodes an SDT.
pub open spec fn sdt_to_u8_spec(sdt: CanXlSdt) -> u8 {
    match sdt {
        CanXlSdt::ContentBasedAddressing => 0x00,
        CanXlSdt::ClassicalCanTunneling => 0x01,
        CanXlSdt::CanFdTunneling => 0x02,
        CanXlSdt::Ethernet => 0x03,
        CanXlSdt::Ipv4 => 0x04,
        CanXlSdt::Ipv6 => 0x05,
        CanXlSdt::Reserved(v) => v,
    }
}

/// The SDT that a byte decodes to.
pub open spec fn sdt_from_u8_spec(value: u8) -> CanXlSdt {
    if value == 0x00 {
        CanXlSdt::ContentBasedAddressing
    } else if value == 0x01 {
        CanXlSdt::ClassicalCanTunneling
    } else if value == 0x02 {
        CanXlSdt::CanFdTunneling
    } else if value == 0x03 {
        CanXlSdt::Ethernet
    } else if value == 0x04 {
        CanXlSdt::Ipv4
    } else if value == 0x05 {
        CanXlSdt::Ipv6
    } else {
        CanXlSdt::Reserved(value)
    }
}

impl CanXlSdt {
    /// Get the SDT value as a byte
    pub fn as_u8(&self) -> (r: u8)
        ensures
            r == sdt_to_u8_spec(*self),
    {
        match self {
            CanXlSdt::ContentBasedAddressing => 0x00,
            CanXlSdt::ClassicalCanTunneling => 0x01,
            CanXlSdt::CanFdTunneling => 0x02,
            CanXlSdt::Ethernet => 0x03,
            CanXlSdt::Ipv4 => 0x04,
            CanXlSdt::Ipv6 => 0x05,
            CanXlSdt::Reserved(v) => *v,
        }
    }
}

impl Default for CanXlSdt {
    /// The default SDT is content-based addressing.
    fn default() -> (r: Self)
        ensures
            r == CanXlSdt::ContentBasedAddressing,
    {
        CanXlSdt::ContentBasedAddressing
    }
}

impl From<u8> for CanXlSdt {
    fn from(value: u8) -> (r: Self) {
        if value == 0x00 {
            CanXlSdt::ContentBasedAddressing
        } else if value == 0x01 {
            CanXlSdt::ClassicalCanTunneling
        } else if value == 0x02 {
            CanXlSdt::CanFdTunneling
        } else if value == 0x03 {
            CanXlSdt::Ethernet
        } else if value == 0x04 {
            CanXlSdt::Ipv4
        } else if value == 0x05 {
            CanXlSdt::Ipv6
        } else {
            CanXlSdt::Reserved(value)
        }
    }
}

impl vstd::std_specs::convert::FromSpecImpl<u8> for CanXlSdt {
    open spec fn obeys_from_spec() -> bool {
        true
    }

    open spec fn from_spec(value: u8) -> Self {
        sdt_from_u8_spec(value)
    }
}

impl From<CanXlSdt> for u8 {
    fn from(sdt: CanXlSdt) -> (r: Self) {
        sdt.as_u8()
    }
}

impl vstd::std_specs::convert::FromSpecImpl<CanXlSdt> for u8 {
    open spec fn obeys_from_spec() -> bool {
        true
    }

    open spec fn from_spec(sdt: CanXlSdt) -> Self {
        sdt_to_u8_spec(sdt)
    }
}

/// Decoding the byte of an SDT gives it back, for every SDT whose byte is
/// not one of the named codes stored as reserved.
pub proof fn lemma_sdt_byte_roundtrip(sdt: CanXlSdt)
    requires
        !(sdt matches CanXlSdt::Reserved(v) && v <= 0x05),
    ensures
        sdt_from_u8_spec(sdt_to_u8_spec(sdt)) == sdt,
{
}

/// Encoding the SDT that a byte decodes to gives the byte back.
pub proof fn lemma_byte_sdt_roundtrip(value: u8)
    ensures
        sdt_to_u8_spec(sdt_from_u8_spec(value)) == value,
{
}

/// The message of the error for a CAN XL payload that is not word-aligned.
pub open spec fn alignment_message(len: nat) -> Seq<char> {
    "CAN XL data length "@ + dec_digits(len)
        + " must be word-aligned (multiple of 4) for lengths > 48"@
}

/// CAN XL payload lengths above 48 bytes must be a multiple of 4.
pub open spec fn xl_len_aligned(len: int) -> bool {
    !(len > 48 && len % 4 != 0)
}

/// CAN XL frame
#[derive(Debug, PartialEq, Eq)]
pub struct CanXlFrame {
    id: u32,
    extended: bool,
    priority: u8,
    vcid: u8,
    sdt: CanXlSdt,
    acceptance_field: u32,
    sec: bool,
    data: Vec<u8>,
    timestamp_us: u64,
    channel: u8,
}

impl CanXlFrame {
    /// A frame's identifier fits its kind and its payload fits CAN XL.
    #[verifier::type_invariant]
    closed spec fn wf(self) -> bool {
        &&& self.id <= max_id(self.extended)
        &&& self.data.len() <= MAX_CANXL_DATA_LEN
    }

    /// The frame's identifier.
    pub closed spec fn spec_id(&self) -> u32 {
        self.id
    }

    /// Whether the frame uses a 29-bit identifier.
    pub closed spec fn spec_extended(&self) -> bool {
        self.extended
    }

    /// The priority field.
    pub closed spec fn spec_priority(&self) -> u8 {
        self.priority
    }

    /// The virtual CAN network ID.
    pub closed spec fn spec_vcid(&self) -> u8 {
        self.vcid
    }

    /// The service data unit type.
    pub closed spec fn spec_sdt(&self) -> CanXlSdt {
        self.sdt
    }

    /// The acceptance field.
    pub closed spec fn spec_acceptance_field(&self) -> u32 {
        self.acceptance_field
    }

    /// The simple extended content flag.
    pub closed spec fn spec_sec(&self) -> bool {
        self.sec
    }

    /// The payload.
    pub closed spec fn spec_data(&self) -> Seq<u8> {
        self.data@
    }

    /// The timestamp in microseconds.
    pub closed spec fn spec_timestamp(&self) -> u64 {
        self.timestamp_us
    }

    /// The channel number.
    pub closed spec fn spec_channel(&self) -> u8 {
        self.channel
    }

    /// Every field of `f` is as given.
    pub open spec fn has_fields(
        f: CanXlFrame,
        id: u32,
        extended: bool,
        priority: u8,
        vcid: u8,
        sdt: CanXlSdt,
        acceptance_field: u32,
        sec: bool,
        data: Seq<u8>,
        timestamp_us: u64,
        channel: u8,
    ) -> bool {
        &&& f.spec_id() == id
        &&& f.spec_extended() == extended
        &&& f.spec_priority() == priority
        &&& f.spec_vcid() == vcid
        &&& f.spec_sdt() == sdt
        &&& f.spec_acceptance_field() == acceptance_field
        &&& f.spec_sec() == sec
        &&& f.spec_data() == data
        &&& f.spec_timestamp() == timestamp_us
        &&& f.spec_channel() == channel
    }

    /// What `new_full` (and, with zero extras, `new`) returns.
    pub open spec fn new_full_result(
        r: Result<CanXlFrame, BusmasterError>,
        id: u32,
        extended: bool,
        priority: u8,
        vcid: u8,
        sdt: CanXlSdt,
        acceptance_field: u32,
        data: Seq<u8>,
    ) -> bool {
        if id > max_id(extended) {
            r == Err::<CanXlFrame, BusmasterError>(
                BusmasterError::InvalidCanId { id, max: max_id(extended) },
            )
        } else if data.len() > MAX_CANXL_DATA_LEN {
            r == Err::<CanXlFrame, BusmasterError>(
                BusmasterError::InvalidDataLength { len: data.len() as usize, max: MAX_CANXL_DATA_LEN },
            )
        } else if !xl_len_aligned(data.len() as int) {
            r matches Err(BusmasterError::Protocol { message }) && message@ == alignment_message(
                data.len(),
            )
        } else {
            r matches Ok(f) && Self::has_fields(
                f,
                id,
                extended,
                priority,
                vcid,
                sdt,
                acceptance_field,
                false,
                data,
                0,
                0,
            )
        }
    }

    /// Create a new CAN XL frame: fails if the ID exceeds the maximum for the
    /// frame kind, the data exceeds 2048 bytes, or the data is longer than 48
    /// bytes and not a multiple of 4.
    pub fn new(id: u32, extended: bool, data: &[u8]) -> (r: Result<Self, BusmasterError>)
        ensures
            Self::new_full_result(r, id, extended, 0, 0, CanXlSdt::ContentBasedAddressing, 0, data@),
    {
        let max = if extended {
            MAX_EXTENDED_ID
        } else {
            MAX_STANDARD_ID
        };
        if id > max {
            return Err(BusmasterError::InvalidCanId { id, max });
        }
        if data.len() > MAX_CANXL_DATA_LEN {
            return Err(
                BusmasterError::InvalidDataLength { len: data.len(), max: MAX_CANXL_DATA_LEN },
            );
        }
        if data.len() > 48 && data.len() % 4 != 0 {
            let mut message = String::new();
            push_str(&mut message, "CAN XL data length ");
            push_dec(&mut message, data.len() as u64);
            push_str(&mut message, " must be word-aligned (multiple of 4) for lengths > 48");
            return Err(BusmasterError::Protocol { message });
        }
        Ok(CanXlFrame {
            id,
            extended,
            priority: 0,
            vcid: 0,
            sdt: CanXlSdt::default(),
            acceptance_field: 0,
            sec: false,
            data: copy_bytes(data),
            timestamp_us: 0,
            channel: 0,
        })
    }

    /// Create a CAN XL frame with full configuration; fails as `new` does.
    pub fn new_full(
        id: u32,
        extended: bool,
        priority: u8,
        vcid: u8,
        sdt: CanXlSdt,
        acceptance_field: u32,
        data: &[u8],
    ) -> (r: Result<Self, BusmasterError>)
        ensures
            Self::new_full_result(r, id, extended, priority, vcid, sdt, acceptance_field, data@),
    {
        let mut frame = match Self::new(id, extended, data) {
            Ok(f) => f,
            Err(e) => return Err(e),
        };
        frame.set_priority(priority);
        frame.set_vcid(vcid);
        frame.set_sdt(sdt);
        frame.set_acceptance_field(acceptance_field);
        Ok(frame)
    }

    /// Get the CAN ID
    #[verifier::when_used_as_spec(spec_id)]
    pub fn id(&self) -> (r: u32)
        ensures
            r == self.spec_id(),
            r <= max_id(self.spec_extended()),
    {
        proof {
            use_type_invariant(self);
        }
        self.id
    }

    /// Check if this is an extended frame
    #[verifier::when_used_as_spec(spec_extended)]
    pub fn is_extended(&self) -> (r: bool)
        ensures
            r == self.spec_extended(),
    {
        self.extended
    }

    /// Get the priority field (0-255, lower = higher priority)
    #[verifier::when_used_as_spec(spec_priority)]
    pub fn priority(&self) -> (r: u8)
        ensures
            r == self.spec_priority(),
    {
        self.priority
    }

    /// Set the priority field
    pub fn set_priority(&mut self, priority: u8)
        ensures
            Self::has_fields(
                *final(self),
                old(self).spec_id(),
                old(self).spec_extended(),
                priority,
                old(self).spec_vcid(),
                old(self).spec_sdt(),
                old(self).spec_acceptance_field(),
                old(self).spec_sec(),
                old(self).spec_data(),
                old(self).spec_timestamp(),
                old(self).spec_channel(),
            ),
    {
        proof {
            use_type_invariant(&*self);
        }
        self.priority = priority;
    }

    /// Get the Virtual CAN Network ID
    #[verifier::when_used_as_spec(spec_vcid)]
    pub fn vcid(&self) -> (r: u8)
        ensures
            r == self.spec_vcid(),
    {
        self.vcid
    }

    /// Set the Virtual CAN Network ID
    pub fn set_vcid(&mut self, vcid: u8)
        ensures
            Self::has_fields(
                *final(self),
                old(self).spec_id(),
                old(self).spec_extended(),
                old(self).spec_priority(),
                vcid,
                old(self).spec_sdt(),
                old(self).spec_acceptance_field(),
                old(self).spec_sec(),
                old(self).spec_data(),
                old(self).spec_timestamp(),
                old(self).spec_channel(),
            ),
    {
        proof {
            use_type_invariant(&*self);
        }
        self.vcid = vcid;
    }

    /// Get the Service Data Unit Type
    #[verifier::when_used_as_spec(spec_sdt)]
    pub fn sdt(&self) -> (r: CanXlSdt)
        ensures
            r == self.spec_sdt(),
    {
        self.sdt
    }

    /// Set the Service Data Unit Type
    pub fn set_sdt(&mut self, sdt: CanXlSdt)
        ensures
            Self::has_fields(
                *final(self),
                old(self).spec_id(),
                old(self).spec_extended(),
                old(self).spec_priority(),
                old(self).spec_vcid(),
                sdt,
                old(self).spec_acceptance_field(),
                old(self).spec_sec(),
                old(self).spec_data(),
                old(self).spec_timestamp(),
                old(self).spec_channel(),
            ),
    {
        proof {
            use_type_invariant(&*self);
        }
        self.sdt = sdt;
    }

    /// Get the Acceptance Field
    #[verifier::when_used_as_spec(spec_acceptance_field)]
    pub fn acceptance_field(&self) -> (r: u32)
        ensures
            r == self.spec_acceptance_field(),
    {
        self.acceptance_field
    }

    /// Set the Acceptance Field
    pub fn set_acceptance_field(&mut self, af: u32)
        ensures
            Self::has_fields(
                *final(self),
                old(self).spec_id(),
                old(self).spec_extended(),
                old(self).spec_priority(),
                old(self).spec_vcid(),
                old(self).spec_sdt(),
                af,
                old(self).spec_sec(),
                old(self).spec_data(),
                old(self).spec_timestamp(),
                old(self).spec_channel(),
            ),
    {
        proof {
            use_type_invariant(&*self);
        }
        self.acceptance_field = af;
    }

    /// Check if Simple Extended Content (SEC) flag is set
    #[verifier::when_used_as_spec(spec_sec)]
    pub fn is_sec(&self) -> (r: bool)
        ensures
            r == self.spec_sec(),
    {
        self.sec
    }

    /// Set the Simple Extended Content (SEC) flag
    pub fn set_sec(&mut self, sec: bool)
        ensures
            Self::has_fields(
                *final(self),
                old(self).spec_id(),
                old(self).spec_extended(),
                old(self).spec_priority(),
                old(self).spec_vcid(),
                old(self).spec_sdt(),
                old(self).spec_acceptance_field(),
                sec,
                old(self).spec_data(),
                old(self).spec_timestamp(),
                old(self).spec_channel(),
            ),
    {
        proof {
            use_type_invariant(&*self);
        }
        self.sec = sec;
    }

    /// Get the data bytes
    pub fn data(&self) -> (r: &[u8])
        ensures
            r@ == self.spec_data(),
            r@.len() <= MAX_CANXL_DATA_LEN,
    {
        proof {
            use_type_invariant(self);
        }
        self.data.as_slice()
    }

    /// Get the actual data length in bytes
    pub fn data_length(&self) -> (r: u16)
        ensures
            r as int == self.spec_data().len(),
    {
        proof {
            use_type_invariant(self);
        }
        self.data.len() as u16
    }

    /// Get the Data Length Code (DLC) for CAN XL: the byte count itself.
    pub fn dlc(&self) -> (r: u16)
        ensures
            r as int == self.spec_data().len(),
    {
        self.data_length()
    }

    /// Get the timestamp in microseconds
    #[verifier::when_used_as_spec(spec_timestamp)]
    pub fn timestamp_us(&self) -> (r: u64)
        ensures
            r == self.spec_timestamp(),
    {
        self.timestamp_us
    }

    /// Set the timestamp
    pub fn set_timestamp(&mut self, timestamp_us: u64)
        ensures
            Self::has_fields(
                *final(self),
                old(self).spec_id(),
                old(self).spec_extended(),
                old(self).spec_priority(),
                old(self).spec_vcid(),
                old(self).spec_sdt(),
                old(self).spec_acceptance_field(),
                old(self).spec_sec(),
                old(self).spec_data(),
                timestamp_us,
                old(self).spec_channel(),
            ),
    {
        proof {
            use_type_invariant(&*self);
        }
        self.timestamp_us = timestamp_us;
    }

    /// Get the channel number
    #[verifier::when_used_as_spec(spec_channel)]
    pub fn channel(&self) -> (r: u8)
        ensures
            r == self.spec_channel(),
    {
        self.channel
    }

    /// Set the channel number
    pub fn set_channel(&mut self, channel: u8)
        ensures
            Self::has_fields(
                *final(self),
                old(self).spec_id(),
                old(self).spec_extended(),
                old(self).spec_priority(),
                old(self).spec_vcid(),
                old(self).spec_sdt(),
                old(self).spec_acceptance_field(),
                old(self).spec_sec(),
                old(self).spec_data(),
                old(self).spec_timestamp(),
                channel,
            ),
    {
        proof {
            use_type_invariant(&*self);
        }
        self.channel = channel;
    }

    /// Check if this frame can be represented as CAN FD (data length <= 64)
    pub fn is_canfd_compatible(&self) -> (r: bool)
        ensures
            r == (self.spec_data().len() <= MAX_CANFD_DATA_LEN),
    {
        self.data.len() <= MAX_CANFD_DATA_LEN
    }

    /// Check if this frame can be represented as classical CAN (data length <= 8)
    pub fn is_can_compatible(&self) -> (r: bool)
        ensures
            r == (self.spec_data().len() <= MAX_CAN_DATA_LEN),
    {
        self.data.len() <= MAX_CAN_DATA_LEN
    }

    /// What `to_canfd` returns: the frame's ID, kind, data, timestamp and
    /// channel as CAN FD, or an error when the data exceeds 64 bytes.
    pub open spec fn to_canfd_post(self, r: Result<CanFdFrame, BusmasterError>) -> bool {
        &&& self.spec_data().len() > MAX_CANFD_DATA_LEN ==> r == Err::<CanFdFrame, BusmasterError>(
            BusmasterError::InvalidDataLength {
                len: self.spec_data().len() as usize,
                max: MAX_CANFD_DATA_LEN,
            },
        )
        &&& self.spec_data().len() <= MAX_CANFD_DATA_LEN ==> (r matches Ok(f) && {
            &&& f.spec_id() == self.spec_id()
            &&& f.spec_extended() == self.spec_extended()
            &&& !f.spec_brs()
            &&& !f.spec_esi()
            &&& f.spec_data() == self.spec_data()
            &&& f.spec_timestamp() == self.spec_timestamp()
            &&& f.spec_channel() == self.spec_channel()
        })
    }

    /// What `to_can` returns: a new classical frame with the frame's ID, kind
    /// and data, or an error when the data exceeds 8 bytes.
    pub open spec fn to_can_post(self, r: Result<CanFrame, BusmasterError>) -> bool {
        &&& self.spec_data().len() > MAX_CAN_DATA_LEN ==> r == Err::<CanFrame, BusmasterError>(
            BusmasterError::InvalidDataLength {
                len: self.spec_data().len() as usize,
                max: MAX_CAN_DATA_LEN,
            },
        )
        &&& self.spec_data().len() <= MAX_CAN_DATA_LEN ==> (r matches Ok(f) && f.is_new(
            self.spec_id(),
            self.spec_extended(),
            self.spec_data(),
        ))
    }

    /// Convert to a CAN FD frame, keeping ID, kind, data, timestamp and
    /// channel; fails if the data exceeds 64 bytes.
    pub fn to_canfd(&self) -> (r: Result<CanFdFrame, BusmasterError>)
        ensures
            self.to_canfd_post(r),
    {
        proof {
            use_type_invariant(self);
        }
        if !self.is_canfd_compatible() {
            return Err(
                BusmasterError::InvalidDataLength { len: self.data.len(), max: MAX_CANFD_DATA_LEN },
            );
        }
        let mut frame = match CanFdFrame::new(self.id, self.extended, self.data.as_slice()) {
            Ok(f) => f,
            Err(e) => return Err(e),
        };
        frame.set_timestamp(self.timestamp_us);
        frame.set_channel(self.channel);
        Ok(frame)
    }

    /// Convert to a classical CAN frame, keeping ID, kind and data; fails if
    /// the data exceeds 8 bytes.
    pub fn to_can(&self) -> (r: Result<CanFrame, BusmasterError>)
        ensures
            self.to_can_post(r),
    {
        proof {
            use_type_invariant(self);
        }
        if !self.is_can_compatible() {
            return Err(
                BusmasterError::InvalidDataLength { len: self.data.len(), max: MAX_CAN_DATA_LEN },
            );
        }
        if self.extended {
            CanFrame::new_extended(self.id, self.data.as_slice())
        } else {
            CanFrame::new_standard(self.id, self.data.as_slice())
        }
    }

    /// Create a CAN XL frame from a CAN FD frame, tunnelled as CAN FD.
    pub fn from_canfd(frame: &CanFdFrame) -> (r: Self)
        ensures
            Self::has_fields(
                r,
                frame.spec_id(),
                frame.spec_extended(),
                0,
                0,
                CanXlSdt::CanFdTunneling,
                0,
                false,
                frame.spec_data(),
                frame.spec_timestamp(),
                frame.spec_channel(),
            ),
    {
        CanXlFrame {
            id: frame.id(),
            extended: frame.is_extended(),
            priority: 0,
            vcid: 0,
            sdt: CanXlSdt::CanFdTunneling,
            acceptance_field: 0,
            sec: false,
            data: copy_bytes(frame.data()),
            timestamp_us: frame.timestamp_us(),
            channel: frame.channel(),
        }
    }

    /// Create a CAN XL frame from a classical CAN frame, tunnelled as CAN.
    pub fn from_can(frame: &CanFrame) -> (r: Self)
        ensures
            Self::has_fields(
                r,
                frame.spec_id(),
                frame.spec_extended(),
                0,
                0,
                CanXlSdt::ClassicalCanTunneling,
                0,
                false,
                frame.spec_data(),
                frame.spec_timestamp(),
                frame.spec_channel(),
            ),
    {
        CanXlFrame {
            id: frame.id(),
            extended: frame.is_extended(),
            priority: 0,
            vcid: 0,
            sdt: CanXlSdt::ClassicalCanTunneling,
            acceptance_field: 0,
            sec: false,
            data: copy_bytes(frame.data()),
            timestamp_us: frame.timestamp_us(),
            channel: frame.channel(),
        }
    }
}

impl Clone for CanXlFrame {
    /// A copy with the same contents.
    fn clone(&self) -> (r: Self)
        ensures
            Self::has_fields(
                r,
                self.spec_id(),
                self.spec_extended(),
                self.spec_priority(),
                self.spec_vcid(),
                self.spec_sdt(),
                self.spec_acceptance_field(),
                self.spec_sec(),
                self.spec_data(),
                self.spec_timestamp(),
                self.spec_channel(),
            ),
    {
        proof {
            use_type_invariant(self);
        }
        CanXlFrame {
            id: self.id,
            extended: self.extended,
            priority: self.priority,
            vcid: self.vcid,
            sdt: self.sdt,
            acceptance_field: self.acceptance_field,
            sec: self.sec,
            data: copy_bytes(self.data.as_slice()),
            timestamp_us: self.timestamp_us,
            channel: self.channel,
        }
    }
}

/// A classical frame tunnelled into CAN XL converts back to a classical
/// frame with the same identifier, kind and data.
pub proof fn lemma_can_tunnel_roundtrip(f: CanFrame, x: CanXlFrame, r: Result<CanFrame, BusmasterError>)
    requires
        f.spec_data().len() <= MAX_CAN_DATA_LEN,
        CanXlFrame::has_fields(
            x,
            f.spec_id(),
            f.spec_extended(),
            0,
            0,
            CanXlSdt::ClassicalCanTunneling,
            0,
            false,
            f.spec_data(),
            f.spec_timestamp(),
            f.spec_channel(),
        ),
        x.to_can_post(r),
    ensures
        r matches Ok(g) && g.spec_id() == f.spec_id() && g.spec_extended() == f.spec_extended()
            && g.spec_data() == f.spec_data(),
{
}

/// A CAN FD frame tunnelled into CAN XL converts back to a CAN FD frame
/// with the same identifier, kind, data, timestamp and channel.
pub proof fn lemma_canfd_tunnel_roundtrip(
    f: CanFdFrame,
    x: CanXlFrame,
    r: Result<CanFdFrame, BusmasterError>,
)
    requires
        f.spec_data().len() <= MAX_CANFD_DATA_LEN,
        CanXlFrame::has_fields(
            x,
            f.spec_id(),
            f.spec_extended(),
            0,
            0,
            CanXlSdt::CanFdTunneling,
            0,
            false,
            f.spec_data(),
            f.spec_timestamp(),
            f.spec_channel(),
        ),
        x.to_canfd_post(r),
    ensures
        r matches Ok(g) && g.spec_id() == f.spec_id() && g.spec_extended() == f.spec_extended()
            && g.spec_data() == f.spec_data() && g.spec_timestamp() == f.spec_timestamp()
            && g.spec_channel() == f.spec_channel(),
{
}

/// A frame is CAN compatible only if it is CAN FD compatible, and the
/// conversions succeed exactly on compatible frames.
pub proof fn lemma_xl_compatibility(
    x: CanXlFrame,
    rc: Result<CanFrame, BusmasterError>,
    rf: Result<CanFdFrame, BusmasterError>,
)
    requires
        x.to_can_post(rc),
        x.to_canfd_post(rf),
    ensures
        rc is Ok ==> rf is Ok,
        rc is Ok <==> x.spec_data().len() <= MAX_CAN_DATA_LEN,
        rf is Ok <==> x.spec_data().len() <= MAX_CANFD_DATA_LEN,
{
}

/// Converting a CAN FD frame to CAN XL (`CanXlFrame::from_canfd`) and back
/// (`to_canfd`) gives the same frame when bit rate switching is off: the
/// same identifier, kind, data, timestamp and channel, with BRS and ESI
/// clear. (Every CAN FD frame has its ESI clear and at most 64 data bytes.)
pub proof fn lemma_canfd_xl_roundtrip(fd: CanFdFrame, xl: CanXlFrame, back: Result<CanFdFrame, BusmasterError>)
    requires
        fd.spec_data().len() <= MAX_CANFD_DATA_LEN,
        !fd.spec_esi(),
        !fd.spec_brs(),
        CanXlFrame::has_fields(
            xl,
            fd.spec_id(),
            fd.spec_extended(),
            0,
            0,
            CanXlSdt::CanFdTunneling,
            0,
            false,
            fd.spec_data(),
            fd.spec_timestamp(),
            fd.spec_channel(),
        ),
        xl.to_canfd_post(back),
    ensures
        back matches Ok(f) && {
            &&& f.spec_id() == fd.spec_id()
            &&& f.spec_extended() == fd.spec_extended()
            &&& f.spec_brs() == fd.spec_brs()
            &&& f.spec_esi() == fd.spec_esi()
            &&& f.spec_data() == fd.spec_data()
            &&& f.spec_timestamp() == fd.spec_timestamp()
            &&& f.spec_channel() == fd.spec_channel()
        },
{
}

} // verus!
