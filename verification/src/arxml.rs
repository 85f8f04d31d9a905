//! AUTOSAR XML (ARXML) data model: versions, byte orders, base types,
//! computation method categories, signal-to-PDU and PDU-to-frame mappings,
//! frames, clusters and channels.
use vstd::prelude::*;
use crate::a2l::first_named;
pub use crate::arxml_parser::ArxmlParser;
use crate::number::parse_unsigned_spec;
use crate::text::{all_ascii, ascii_upper, chars_of, dec_digits, owned, push_dec, push_str, split_at_char, split_spec, string_from_chars, to_uppercase, trim, trim_spec, unicode_uppercase};

verus! {

broadcast use vstd::string::group_string_axioms;

/// Error type for ARXML parsing.
#[derive(Debug, Clone, PartialEq, Eq)]
pub enum ArxmlParseError {
    /// Invalid XML format
    InvalidXml(String),
    /// Missing required element
    MissingElement(String),
    /// Invalid value
    InvalidValue(String),
    /// Unsupported AUTOSAR version
    UnsupportedVersion(String),
}

/// The text that an ARXML error displays.
pub open spec fn arxml_error_text(e: ArxmlParseError) -> Seq<char> {
    match e {
        ArxmlParseError::InvalidXml(m) => "Invalid XML: "@ + m@,
        ArxmlParseError::MissingElement(m) => "Missing element: "@ + m@,
        ArxmlParseError::InvalidValue(m) => "Invalid value: "@ + m@,
        ArxmlParseError::UnsupportedVersion(m) => "Unsupported AUTOSAR version: "@ + m@,
    }
}

impl ArxmlParseError {
    /// The text that the error displays.
    pub fn to_display_string(&self) -> (r: String)
        ensures
            r@ == arxml_error_text(*self),
    {
        let mut out = String::new();
        match self {
            ArxmlParseError::InvalidXml(m) => {
                push_str(&mut out, "Invalid XML: ");
                push_str(&mut out, m.as_str());
            },
            ArxmlParseError::MissingElement(m) => {
                push_str(&mut out, "Missing element: ");
                push_str(&mut out, m.as_str());
            },
            ArxmlParseError::InvalidValue(m) => {
                push_str(&mut out, "Invalid value: ");
                push_str(&mut out, m.as_str());
            },
            ArxmlParseError::UnsupportedVersion(m) => {
                push_str(&mut out, "Unsupported AUTOSAR version: ");
                push_str(&mut out, m.as_str());
            },
        }
        out
    }
}

/// AUTOSAR version.
#[derive(Debug, Clone, Copy, PartialEq, Eq, Structural, Default)]
pub struct AutosarVersion {
    /// Major version
    pub major: u8,
    /// Minor version
    pub minor: u8,
    /// Patch version
    pub patch: u8,
}

/// Whether `n` occurs in `h` at `i`.
pub open spec fn occurs_at(h: Seq<char>, n: Seq<char>, i: int) -> bool {
    0 <= i && i + n.len() <= h.len() && h.subrange(i, i + n.len()) == n
}

/// Whether a `/r` starts at `i`.
pub open spec fn marker_at(url: Seq<char>, i: int) -> bool {
    occurs_at(url, seq!['/', 'r'], i)
}

/// The position of the last `/r` in a schema URL.
pub open spec fn last_release_marker(url: Seq<char>) -> Option<int> {
    if exists|i: int| #[trigger] marker_at(url, i) {
        Some(
            choose|i: int|
                #[trigger] marker_at(url, i) && forall|j: int|
                    i < j ==> !#[trigger] marker_at(url, j),
        )
    } else {
        None
    }
}

/// A version part as `str::parse::<u8>` reads it.
pub open spec fn version_part(t: Seq<char>) -> Option<u8> {
    match parse_unsigned_spec(t, 10, 0xFF) {
        Ok(v) => Some(v as u8),
        Err(_) => None,
    }
}

/// The version that a schema URL names: the text after its last `/r`,
/// split at dots; the major part must read as a number, a missing or
/// unreadable minor or patch part counts 0.
pub open spec fn version_of_url(url: Seq<char>) -> Option<AutosarVersion> {
    match last_release_marker(url) {
        None => None,
        Some(pos) => {
            let parts = split_spec(url.subrange(pos + 2, url.len() as int), '.');
            match version_part(parts[0]) {
                None => None,
                Some(major) => Some(
                    AutosarVersion {
                        major,
                        minor: if parts.len() > 1 {
                            match version_part(parts[1]) {
                                Some(v) => v,
                                None => 0,
                            }
                        } else {
                            0
                        },
                        patch: if parts.len() > 2 {
                            match version_part(parts[2]) {
                                Some(v) => v,
                                None => 0,
                            }
                        } else {
                            0
                        },
                    },
                ),
            }
        },
    }
}

fn parse_version_part(t: &Vec<char>) -> (r: Option<u8>)
    ensures
        r == version_part(t@),
{
    match crate::number::parse_unsigned(t.as_slice(), 0, t.len(), 10, 0xFF) {
        Ok(v) => {
            assert(t@.subrange(0, t@.len() as int) =~= t@);
            proof {
                lemma_part_bound(t@);
            }
            Some(v as u8)
        },
        Err(_) => {
            assert(t@.subrange(0, t@.len() as int) =~= t@);
            None
        },
    }
}

proof fn lemma_scan_bound(t: Seq<char>, max: nat)
    ensures
        crate::number::scan_digits(t, 10, max) matches Ok(v) ==> v <= max,
    decreases t.len(),
{
    if t.len() > 0 {
        lemma_scan_bound(t.drop_last(), max);
    }
}

proof fn lemma_part_bound(t: Seq<char>)
    ensures
        parse_unsigned_spec(t, 10, 0xFF) matches Ok(v) ==> v <= 0xFF,
{
    lemma_scan_bound(t, 0xFF);
    if t.len() > 0 {
        lemma_scan_bound(t.drop_first(), 0xFF);
    }
}

fn find_last_marker(s: &[char]) -> (r: Option<usize>)
    ensures
        match r {
            Some(p) => marker_at(s@, p as int) && p + 2 <= s.len() && forall|j: int|
                p < j ==> !#[trigger] marker_at(s@, j),
            None => forall|j: int| !#[trigger] marker_at(s@, j),
        },
{
    let marker = ['/', 'r'];
    let mut i = s.len();
    while i > 0
        invariant
            i <= s.len(),
            marker@ == seq!['/', 'r'],
            forall|j: int| i <= j ==> !#[trigger] marker_at(s@, j),
        decreases i,
    {
        i -= 1;
        if crate::text::has_prefix_at(s, i, &marker) {
            return Some(i);
        }
    }
    assert forall|j: int| !#[trigger] marker_at(s@, j) by {
        if j < 0 {
        }
    }
    None
}

impl AutosarVersion {
    /// Create a new version
    pub fn new(major: u8, minor: u8, patch: u8) -> (r: Self)
        ensures
            r == (AutosarVersion { major, minor, patch }),
    {
        AutosarVersion { major, minor, patch }
    }

    /// Parse version from schema URL, such as `http://autosar.org/schema/r4.0`.
    pub fn from_schema_url(url: &str) -> (r: Option<Self>)
        ensures
            r == version_of_url(url@),
    {
        let v = chars_of(url);
        let s = v.as_slice();
        let pos = match find_last_marker(s) {
            Some(p) => p,
            None => return None,
        };
        proof {
            let c = choose|c: int|
                #[trigger] marker_at(s@, c) && forall|j: int| c < j ==> !#[trigger] marker_at(s@, j);
            assert(c == pos) by {
                if c < pos {
                } else if c > pos {
                }
            }
        }
        let rest = crate::text::slice_to_vec(s, pos + 2, s.len());
        let parts = split_at_char(rest.as_slice(), '.');
        proof {
            crate::text::lemma_split_nonempty(rest@, '.');
        }
        let major = match parse_version_part(&parts[0]) {
            Some(m) => m,
            None => return None,
        };
        let minor = if parts.len() > 1 {
            match parse_version_part(&parts[1]) {
                Some(m) => m,
                None => 0,
            }
        } else {
            0
        };
        let patch = if parts.len() > 2 {
            match parse_version_part(&parts[2]) {
                Some(m) => m,
                None => 0,
            }
        } else {
            0
        };
        Some(AutosarVersion { major, minor, patch })
    }

    /// The version as `major.minor.patch`.
    pub fn to_display_string(&self) -> (r: String)
        ensures
            r@ == dec_digits(self.major as nat) + "."@ + dec_digits(self.minor as nat) + "."@
                + dec_digits(self.patch as nat),
    {
        let mut out = String::new();
        push_dec(&mut out, self.major as u64);
        push_str(&mut out, ".");
        push_dec(&mut out, self.minor as u64);
        push_str(&mut out, ".");
        push_dec(&mut out, self.patch as u64);
        out
    }
}

fn is_text(t: &[char], lit: &str) -> (r: bool)
    ensures
        r == (t@ == lit@),
{
    let l = chars_of(lit);
    crate::text::chars_eq(t, l.as_slice())
}

/// Uppercase of the trimmed text, as characters.
fn trimmed_upper(s: &str) -> (r: Vec<char>)
    ensures
        r@ == unicode_uppercase(trim_spec(s@)),
        all_ascii(trim_spec(s@)) ==> r@ == ascii_upper(trim_spec(s@)),
{
    let t = string_from_chars(trim(chars_of(s).as_slice()).as_slice());
    let u = to_uppercase(t.as_str());
    chars_of(u.as_str())
}

/// Byte order for signals.
#[derive(Debug, Clone, Copy, PartialEq, Eq, Structural, Default)]
pub enum ArxmlByteOrder {
    /// Most significant byte first (big-endian)
    #[default]
    MostSignificantByteFirst,
    /// Most significant byte last (little-endian)
    MostSignificantByteLast,
    /// Opaque (no byte order)
    Opaque,
}

/// The byte order that an uppercased name stands for; big-endian for any
/// other name.
pub open spec fn byte_order_of_upper(u: Seq<char>) -> ArxmlByteOrder {
    if u == "MOST-SIGNIFICANT-BYTE-LAST"@ {
        ArxmlByteOrder::MostSignificantByteLast
    } else if u == "OPAQUE"@ {
        ArxmlByteOrder::Opaque
    } else {
        ArxmlByteOrder::MostSignificantByteFirst
    }
}

impl ArxmlByteOrder {
    /// The byte order that an already uppercased name stands for.
    pub fn from_uppercase_name(u: &[char]) -> (r: Self)
        ensures
            r == byte_order_of_upper(u@),
    {
        if is_text(u, "MOST-SIGNIFICANT-BYTE-LAST") {
            ArxmlByteOrder::MostSignificantByteLast
        } else if is_text(u, "OPAQUE") {
            ArxmlByteOrder::Opaque
        } else {
            ArxmlByteOrder::MostSignificantByteFirst
        }
    }

    /// Parse from string: trimmed and compared after Unicode uppercasing.
    pub fn parse(s: &str) -> (r: Self)
        ensures
            r == byte_order_of_upper(unicode_uppercase(trim_spec(s@))),
            all_ascii(trim_spec(s@)) ==> r == byte_order_of_upper(ascii_upper(trim_spec(s@))),
    {
        let u = trimmed_upper(s);
        Self::from_uppercase_name(u.as_slice())
    }
}

/// Base data type category.
#[derive(Debug, Clone, Copy, PartialEq, Eq, Structural, Default)]
pub enum BaseTypeCategory {
    /// Fixed length type
    #[default]
    FixedLength,
    /// Variable length type
    VariableLength,
}

/// Base data type encoding.
#[derive(Debug, Clone, Copy, PartialEq, Eq, Structural, Default)]
pub enum BaseTypeEncoding {
    /// No encoding
    #[default]
    NoEncoding,
    /// Signed encoding
    Signed,
    /// Unsigned encoding
    Unsigned,
    /// IEEE 754 floating point
    Ieee754,
    /// Boolean
    Boolean,
}

/// The encoding that an uppercased name stands for; no encoding for any
/// other name.
pub open spec fn encoding_of_upper(u: Seq<char>) -> BaseTypeEncoding {
    if u == "SIGNED"@ {
        BaseTypeEncoding::Signed
    } else if u == "UNSIGNED"@ || u == "2C"@ {
        BaseTypeEncoding::Unsigned
    } else if u == "IEEE754"@ {
        BaseTypeEncoding::Ieee754
    } else if u == "BOOLEAN"@ {
        BaseTypeEncoding::Boolean
    } else {
        BaseTypeEncoding::NoEncoding
    }
}

impl BaseTypeEncoding {
    /// The encoding that an already uppercased name stands for.
    pub fn from_uppercase_name(u: &[char]) -> (r: Self)
        ensures
            r == encoding_of_upper(u@),
    {
        if is_text(u, "SIGNED") {
            BaseTypeEncoding::Signed
        } else if is_text(u, "UNSIGNED") || is_text(u, "2C") {
            BaseTypeEncoding::Unsigned
        } else if is_text(u, "IEEE754") {
            BaseTypeEncoding::Ieee754
        } else if is_text(u, "BOOLEAN") {
            BaseTypeEncoding::Boolean
        } else {
            BaseTypeEncoding::NoEncoding
        }
    }

    /// Parse from string: trimmed and compared after Unicode uppercasing.
    pub fn parse(s: &str) -> (r: Self)
        ensures
            r == encoding_of_upper(unicode_uppercase(trim_spec(s@))),
            all_ascii(trim_spec(s@)) ==> r == encoding_of_upper(ascii_upper(trim_spec(s@))),
    {
        let u = trimmed_upper(s);
        Self::from_uppercase_name(u.as_slice())
    }
}

/// SW Base Type - defines the physical encoding of data.
#[derive(Debug, Clone, PartialEq, Eq, Default)]
pub struct SwBaseType {
    /// Short name
    pub short_name: String,
    /// Category
    pub category: BaseTypeCategory,
    /// Size in bits
    pub base_type_size: u32,
    /// Encoding
    pub base_type_encoding: BaseTypeEncoding,
    /// Native declaration (e.g., "uint8")
    pub native_declaration: String,
}

impl SwBaseType {
    /// Create a new base type: fixed length, size 0, no encoding, no native
    /// declaration.
    pub fn new(name: &str) -> (r: Self)
        ensures
            r.short_name@ == name@,
            r.category == BaseTypeCategory::FixedLength,
            r.base_type_size == 0,
            r.base_type_encoding == BaseTypeEncoding::NoEncoding,
            r.native_declaration@ == Seq::<char>::empty(),
    {
        SwBaseType {
            short_name: owned(name),
            category: BaseTypeCategory::FixedLength,
            base_type_size: 0,
            base_type_encoding: BaseTypeEncoding::NoEncoding,
            native_declaration: String::new(),
        }
    }
}

/// Computation method category.
#[derive(Debug, Clone, Copy, PartialEq, Eq, Structural, Default)]
pub enum CompuMethodCategory {
    /// Identical (no conversion)
    #[default]
    Identical,
    /// Linear conversion (y = ax + b)
    Linear,
    /// Scale-linear conversion
    ScaleLinear,
    /// Text table (enumeration)
    TextTable,
    /// Tab-no-interpolation
    TabNoInterpretation,
    /// Rational function
    RatFunc,
    /// Scale-rational function
    ScaleRatFunc,
}

/// The category that an uppercased name stands for; identical for any
/// other name.
pub open spec fn category_of_upper(u: Seq<char>) -> CompuMethodCategory {
    if u == "LINEAR"@ {
        CompuMethodCategory::Linear
    } else if u == "SCALE-LINEAR"@ {
        CompuMethodCategory::ScaleLinear
    } else if u == "TEXTTABLE"@ {
        CompuMethodCategory::TextTable
    } else if u == "TAB-NOINTP"@ {
        CompuMethodCategory::TabNoInterpretation
    } else if u == "RAT-FUNC"@ {
        CompuMethodCategory::RatFunc
    } else if u == "SCALE-RAT-FUNC"@ {
        CompuMethodCategory::ScaleRatFunc
    } else {
        CompuMethodCategory::Identical
    }
}

impl CompuMethodCategory {
    /// The category that an already uppercased name stands for.
    pub fn from_uppercase_name(u: &[char]) -> (r: Self)
        ensures
            r == category_of_upper(u@),
    {
        if is_text(u, "LINEAR") {
            CompuMethodCategory::Linear
        } else if is_text(u, "SCALE-LINEAR") {
            CompuMethodCategory::ScaleLinear
        } else if is_text(u, "TEXTTABLE") {
            CompuMethodCategory::TextTable
        } else if is_text(u, "TAB-NOINTP") {
            CompuMethodCategory::TabNoInterpretation
        } else if is_text(u, "RAT-FUNC") {
            CompuMethodCategory::RatFunc
        } else if is_text(u, "SCALE-RAT-FUNC") {
            CompuMethodCategory::ScaleRatFunc
        } else {
            CompuMethodCategory::Identical
        }
    }

    /// Parse from string: trimmed and compared after Unicode uppercasing.
    pub fn parse(s: &str) -> (r: Self)
        ensures
            r == category_of_upper(unicode_uppercase(trim_spec(s@))),
            all_ascii(trim_spec(s@)) ==> r == category_of_upper(ascii_upper(trim_spec(s@))),
    {
        let u = trimmed_upper(s);
        Self::from_uppercase_name(u.as_slice())
    }
}

/// I-Signal to PDU mapping.
#[derive(Debug, Clone, PartialEq, Eq, Default)]
pub struct ISignalToPduMapping {
    /// Short name
    pub short_name: String,
    /// I-Signal reference
    pub i_signal_ref: String,
    /// Packing byte order
    pub packing_byte_order: ArxmlByteOrder,
    /// Start position in bits
    pub start_position: u32,
}

impl ISignalToPduMapping {
    /// Create a new mapping at bit 0, big-endian, with no signal reference.
    pub fn new(name: &str) -> (r: Self)
        ensures
            r.short_name@ == name@,
            r.i_signal_ref@ == Seq::<char>::empty(),
            r.packing_byte_order == ArxmlByteOrder::MostSignificantByteFirst,
            r.start_position == 0,
    {
        ISignalToPduMapping {
            short_name: owned(name),
            i_signal_ref: String::new(),
            packing_byte_order: ArxmlByteOrder::MostSignificantByteFirst,
            start_position: 0,
        }
    }
}

/// I-Signal I-PDU (signal-based protocol data unit).
#[derive(Debug, Clone, PartialEq, Eq, Default)]
pub struct ISignalIPdu {
    /// Short name
    pub short_name: String,
    /// Length in bytes
    pub length: u32,
    /// Signal to PDU mappings
    pub i_signal_to_pdu_mappings: Vec<ISignalToPduMapping>,
}

impl ISignalIPdu {
    /// Create a new, empty I-Signal I-PDU of length 0.
    pub fn new(name: &str) -> (r: Self)
        ensures
            r.short_name@ == name@,
            r.length == 0,
            r.i_signal_to_pdu_mappings@.len() == 0,
    {
        ISignalIPdu { short_name: owned(name), length: 0, i_signal_to_pdu_mappings: Vec::new() }
    }

    /// Add a signal mapping at the end.
    pub fn add_signal_mapping(&mut self, mapping: ISignalToPduMapping)
        ensures
            final(self).i_signal_to_pdu_mappings@ == old(self).i_signal_to_pdu_mappings@.push(
                mapping,
            ),
            final(self).short_name == old(self).short_name,
            final(self).length == old(self).length,
    {
        self.i_signal_to_pdu_mappings.push(mapping);
    }
}

/// Frame triggering type.
#[derive(Debug, Clone, Copy, PartialEq, Eq, Structural, Default)]
pub enum FrameTriggeringType {
    /// CAN frame triggering
    #[default]
    Can,
    /// LIN frame triggering
    Lin,
    /// FlexRay frame triggering
    FlexRay,
    /// Ethernet frame triggering
    Ethernet,
}

/// CAN frame triggering.
#[derive(Debug, Clone, PartialEq, Eq, Default)]
pub struct CanFrameTriggering {
    /// Short name
    pub short_name: String,
    /// CAN ID
    pub identifier: u32,
    /// Frame reference
    pub frame_ref: String,
    /// PDU triggerings
    pub pdu_triggerings: Vec<String>,
}

impl CanFrameTriggering {
    /// Create a new CAN frame triggering with identifier 0 and no references.
    pub fn new(name: &str) -> (r: Self)
        ensures
            r.short_name@ == name@,
            r.identifier == 0,
            r.frame_ref@ == Seq::<char>::empty(),
            r.pdu_triggerings@.len() == 0,
    {
        CanFrameTriggering {
            short_name: owned(name),
            identifier: 0,
            frame_ref: String::new(),
            pdu_triggerings: Vec::new(),
        }
    }
}

/// PDU to frame mapping.
#[derive(Debug, Clone, PartialEq, Eq, Default)]
pub struct PduToFrameMapping {
    /// Short name
    pub short_name: String,
    /// Packing byte order
    pub packing_byte_order: ArxmlByteOrder,
    /// PDU reference
    pub pdu_ref: String,
    /// Start position in bits
    pub start_position: u32,
}

impl PduToFrameMapping {
    /// Create a new mapping at bit 0, big-endian, with no PDU reference.
    pub fn new(name: &str) -> (r: Self)
        ensures
            r.short_name@ == name@,
            r.packing_byte_order == ArxmlByteOrder::MostSignificantByteFirst,
            r.pdu_ref@ == Seq::<char>::empty(),
            r.start_position == 0,
    {
        PduToFrameMapping {
            short_name: owned(name),
            packing_byte_order: ArxmlByteOrder::MostSignificantByteFirst,
            pdu_ref: String::new(),
            start_position: 0,
        }
    }
}

/// CAN frame definition.
#[derive(Debug, Clone, PartialEq, Eq, Default)]
pub struct CanFrame {
    /// Short name
    pub short_name: String,
    /// Frame length in bytes
    pub frame_length: u8,
    /// PDU to frame mappings
    pub pdu_to_frame_mappings: Vec<PduToFrameMapping>,
}

impl CanFrame {
    /// Create a new eight-byte CAN frame without mappings.
    pub fn new(name: &str) -> (r: Self)
        ensures
            r.short_name@ == name@,
            r.frame_length == 8,
            r.pdu_to_frame_mappings@.len() == 0,
    {
        CanFrame { short_name: owned(name), frame_length: 8, pdu_to_frame_mappings: Vec::new() }
    }
}

/// ECU instance.
#[derive(Debug, Clone, PartialEq, Eq, Default)]
pub struct EcuInstance {
    /// Short name
    pub short_name: String,
    /// COM I-PDU groups
    pub com_i_pdu_groups: Vec<String>,
}

impl EcuInstance {
    /// Create a new ECU instance without I-PDU groups.
    pub fn new(name: &str) -> (r: Self)
        ensures
            r.short_name@ == name@,
            r.com_i_pdu_groups@.len() == 0,
    {
        EcuInstance { short_name: owned(name), com_i_pdu_groups: Vec::new() }
    }
}

/// CAN physical channel.
#[derive(Debug, Clone, PartialEq, Eq, Default)]
pub struct CanPhysicalChannel {
    /// Short name
    pub short_name: String,
    /// Frame triggerings
    pub frame_triggerings: Vec<CanFrameTriggering>,
}

impl CanPhysicalChannel {
    /// Create a new physical channel without frame triggerings.
    pub fn new(name: &str) -> (r: Self)
        ensures
            r.short_name@ == name@,
            r.frame_triggerings@.len() == 0,
    {
        CanPhysicalChannel { short_name: owned(name), frame_triggerings: Vec::new() }
    }
}

/// CAN cluster.
#[derive(Debug, Clone, PartialEq, Eq, Default)]
pub struct CanCluster {
    /// Short name
    pub short_name: String,
    /// Baudrate in bits/second
    pub baudrate: u32,
    /// CAN FD baudrate
    pub can_fd_baudrate: Option<u32>,
    /// Physical channels
    pub physical_channels: Vec<CanPhysicalChannel>,
}

impl CanCluster {
    /// Create a new 500 kbit/s CAN cluster without CAN FD rate or channels.
    pub fn new(name: &str) -> (r: Self)
        ensures
            r.short_name@ == name@,
            r.baudrate == 500_000,
            r.can_fd_baudrate is None,
            r.physical_channels@.len() == 0,
    {
        CanCluster {
            short_name: owned(name),
            baudrate: 500_000,
            can_fd_baudrate: None,
            physical_channels: Vec::new(),
        }
    }
}


/// A base type as plain values.
pub ghost struct SwBaseTypeModel {
    pub short_name: Seq<char>,
    pub category: BaseTypeCategory,
    pub base_type_size: u32,
    pub base_type_encoding: BaseTypeEncoding,
    pub native_declaration: Seq<char>,
}

impl View for SwBaseType {
    type V = SwBaseTypeModel;

    open spec fn view(&self) -> SwBaseTypeModel {
        SwBaseTypeModel {
            short_name: self.short_name@,
            category: self.category,
            base_type_size: self.base_type_size,
            base_type_encoding: self.base_type_encoding,
            native_declaration: self.native_declaration@,
        }
    }
}

/// The text of each string.
pub open spec fn texts(v: Seq<String>) -> Seq<Seq<char>> {
    v.map_values(|x: String| x@)
}

/// A computation scale as plain values; limits and coefficients are
/// decimal text.
pub ghost struct CompuScaleModel {
    pub lower_limit: Seq<char>,
    pub upper_limit: Seq<char>,
    pub numerator: Seq<Seq<char>>,
    pub denominator: Seq<Seq<char>>,
    pub vt: Seq<char>,
}

/// Computation scale: limits, rational coefficients (numerator and
/// denominator) and a text value, the numbers kept as decimal text.
#[derive(Debug, Clone, PartialEq, Eq)]
pub struct CompuScale {
    /// Lower limit
    pub lower_limit: String,
    /// Upper limit
    pub upper_limit: String,
    /// Numerator coefficients
    pub numerator: Vec<String>,
    /// Denominator coefficients
    pub denominator: Vec<String>,
    /// Text value (for text tables)
    pub vt: String,
}

impl View for CompuScale {
    type V = CompuScaleModel;

    open spec fn view(&self) -> CompuScaleModel {
        CompuScaleModel {
            lower_limit: self.lower_limit@,
            upper_limit: self.upper_limit@,
            numerator: texts(self.numerator@),
            denominator: texts(self.denominator@),
            vt: self.vt@,
        }
    }
}

/// A scale with limits 0.0, no coefficients and no text.
pub open spec fn empty_scale() -> CompuScaleModel {
    CompuScaleModel {
        lower_limit: "0.0"@,
        upper_limit: "0.0"@,
        numerator: Seq::empty(),
        denominator: Seq::empty(),
        vt: Seq::empty(),
    }
}

impl Default for CompuScale {
    /// A scale with limits 0.0, no coefficients and no text.
    fn default() -> (r: Self)
        ensures
            r@ == empty_scale(),
    {
        let r = CompuScale {
            lower_limit: owned("0.0"),
            upper_limit: owned("0.0"),
            numerator: Vec::new(),
            denominator: Vec::new(),
            vt: String::new(),
        };
        assert(r@.numerator =~= Seq::<Seq<char>>::empty());
        assert(r@.denominator =~= Seq::<Seq<char>>::empty());
        r
    }
}

impl CompuScale {
    /// A linear scale (y = factor * x + offset): numerator (offset, factor),
    /// denominator (1.0).
    pub fn linear(factor: &str, offset: &str) -> (r: Self)
        ensures
            r@ == (CompuScaleModel {
                numerator: seq![offset@, factor@],
                denominator: seq!["1.0"@],
                ..empty_scale()
            }),
    {
        let mut r = CompuScale::default();
        let o = owned(offset);
        let f = owned(factor);
        let one = owned("1.0");
        r.numerator = vec![o, f];
        r.denominator = vec![one];
        assert(r.numerator@[0]@ == offset@ && r.numerator@[1]@ == factor@);
        assert(r@.numerator =~= seq![offset@, factor@]);
        assert(r@.denominator =~= seq!["1.0"@]);
        r
    }

    /// A text-table entry: both limits at `value`, with the text.
    pub fn text_entry(value: &str, text: &str) -> (r: Self)
        ensures
            r@ == (CompuScaleModel { lower_limit: value@, upper_limit: value@, vt: text@, ..empty_scale() }),
    {
        let mut r = CompuScale::default();
        r.lower_limit = owned(value);
        r.upper_limit = owned(value);
        r.vt = owned(text);
        r
    }
}

/// A computation method as plain values.
pub ghost struct CompuMethodModel {
    pub short_name: Seq<char>,
    pub category: CompuMethodCategory,
    pub unit_ref: Seq<char>,
    pub compu_scales: Seq<CompuScaleModel>,
}

/// Computation method: how raw values convert to physical ones.
#[derive(Debug, Clone, PartialEq, Eq)]
pub struct CompuMethod {
    /// Short name
    pub short_name: String,
    /// Category
    pub category: CompuMethodCategory,
    /// Unit reference
    pub unit_ref: String,
    /// Computation scales
    pub compu_scales: Vec<CompuScale>,
}

impl View for CompuMethod {
    type V = CompuMethodModel;

    open spec fn view(&self) -> CompuMethodModel {
        CompuMethodModel {
            short_name: self.short_name@,
            category: self.category,
            unit_ref: self.unit_ref@,
            compu_scales: self.compu_scales@.map_values(|c: CompuScale| c@),
        }
    }
}

impl CompuMethod {
    /// A new identical method without unit or scales.
    pub fn new(name: &str) -> (r: Self)
        ensures
            r@ == (CompuMethodModel {
                short_name: name@,
                category: CompuMethodCategory::Identical,
                unit_ref: Seq::empty(),
                compu_scales: Seq::empty(),
            }),
    {
        let r = CompuMethod {
            short_name: owned(name),
            category: CompuMethodCategory::Identical,
            unit_ref: String::new(),
            compu_scales: Vec::new(),
        };
        assert(r@.compu_scales =~= Seq::<CompuScaleModel>::empty());
        r
    }

    /// An identical (no conversion) method.
    pub fn identical(name: &str) -> (r: Self)
        ensures
            r@ == (CompuMethodModel {
                short_name: name@,
                category: CompuMethodCategory::Identical,
                unit_ref: Seq::empty(),
                compu_scales: Seq::empty(),
            }),
    {
        Self::new(name)
    }

    /// A linear method with one linear scale.
    pub fn linear(name: &str, factor: &str, offset: &str) -> (r: Self)
        ensures
            r@ == (CompuMethodModel {
                short_name: name@,
                category: CompuMethodCategory::Linear,
                unit_ref: Seq::empty(),
                compu_scales: seq![
                    CompuScaleModel { numerator: seq![offset@, factor@], denominator: seq!["1.0"@], ..empty_scale() },
                ],
            }),
    {
        let mut r = Self::new(name);
        r.category = CompuMethodCategory::Linear;
        let sc = CompuScale::linear(factor, offset);
        let ghost m = sc@;
        r.compu_scales.push(sc);
        assert(r@.compu_scales =~= seq![m]);
        r
    }
}

/// A unit as plain values; factor and offset are decimal text.
pub ghost struct ArUnitModel {
    pub short_name: Seq<char>,
    pub display_name: Seq<char>,
    pub factor_si_to_unit: Seq<char>,
    pub offset_si_to_unit: Seq<char>,
}

/// Unit definition.
#[derive(Debug, Clone, PartialEq, Eq)]
pub struct Unit {
    /// Short name
    pub short_name: String,
    /// Display name
    pub display_name: String,
    /// Factor to SI unit, as decimal text
    pub factor_si_to_unit: String,
    /// Offset to SI unit, as decimal text
    pub offset_si_to_unit: String,
}

impl View for Unit {
    type V = ArUnitModel;

    open spec fn view(&self) -> ArUnitModel {
        ArUnitModel {
            short_name: self.short_name@,
            display_name: self.display_name@,
            factor_si_to_unit: self.factor_si_to_unit@,
            offset_si_to_unit: self.offset_si_to_unit@,
        }
    }
}

impl Unit {
    /// A new unit with factor 1.0 and offset 0.0.
    pub fn new(name: &str) -> (r: Self)
        ensures
            r@ == (ArUnitModel {
                short_name: name@,
                display_name: Seq::empty(),
                factor_si_to_unit: "1.0"@,
                offset_si_to_unit: "0.0"@,
            }),
    {
        Unit {
            short_name: owned(name),
            display_name: String::new(),
            factor_si_to_unit: owned("1.0"),
            offset_si_to_unit: owned("0.0"),
        }
    }
}

/// An I-Signal as plain values; the initial value is decimal text.
pub ghost struct ISignalModel {
    pub short_name: Seq<char>,
    pub i_signal_length: u32,
    pub init_value: Option<Seq<char>>,
    pub system_signal_ref: Seq<char>,
    pub compu_method_ref: Seq<char>,
    pub base_type_ref: Seq<char>,
}

/// I-Signal definition.
#[derive(Debug, Clone, PartialEq, Eq)]
pub struct ISignal {
    /// Short name
    pub short_name: String,
    /// Length in bits
    pub i_signal_length: u32,
    /// Init value, as decimal text
    pub init_value: Option<String>,
    /// System signal reference
    pub system_signal_ref: String,
    /// Computation method reference
    pub compu_method_ref: String,
    /// Base type reference
    pub base_type_ref: String,
}

impl View for ISignal {
    type V = ISignalModel;

    open spec fn view(&self) -> ISignalModel {
        ISignalModel {
            short_name: self.short_name@,
            i_signal_length: self.i_signal_length,
            init_value: crate::a2l::opt_text(self.init_value),
            system_signal_ref: self.system_signal_ref@,
            compu_method_ref: self.compu_method_ref@,
            base_type_ref: self.base_type_ref@,
        }
    }
}

impl ISignal {
    /// A new I-Signal of length 0 with no references or initial value.
    pub fn new(name: &str) -> (r: Self)
        ensures
            r@ == (ISignalModel {
                short_name: name@,
                i_signal_length: 0,
                init_value: None,
                system_signal_ref: Seq::empty(),
                compu_method_ref: Seq::empty(),
                base_type_ref: Seq::empty(),
            }),
    {
        ISignal {
            short_name: owned(name),
            i_signal_length: 0,
            init_value: None,
            system_signal_ref: String::new(),
            compu_method_ref: String::new(),
            base_type_ref: String::new(),
        }
    }
}

/// An AUTOSAR package.
#[derive(Debug)]
pub struct ArPackage {
    /// Short name
    pub short_name: String,
    /// Sub-packages
    pub sub_packages: Vec<ArPackage>,
    /// I-Signals
    pub i_signals: Vec<ISignal>,
    /// I-Signal I-PDUs
    pub i_signal_i_pdus: Vec<ISignalIPdu>,
    /// CAN Frames
    pub can_frames: Vec<CanFrame>,
    /// CAN Clusters
    pub can_clusters: Vec<CanCluster>,
    /// ECU Instances
    pub ecu_instances: Vec<EcuInstance>,
    /// Computation methods
    pub compu_methods: Vec<CompuMethod>,
    /// Units
    pub units: Vec<Unit>,
    /// Base types
    pub base_types: Vec<SwBaseType>,
}


/// A signal-to-PDU mapping as plain values.
pub ghost struct SignalMappingModel {
    pub short_name: Seq<char>,
    pub i_signal_ref: Seq<char>,
    pub packing_byte_order: ArxmlByteOrder,
    pub start_position: u32,
}

impl View for ISignalToPduMapping {
    type V = SignalMappingModel;

    open spec fn view(&self) -> SignalMappingModel {
        SignalMappingModel {
            short_name: self.short_name@,
            i_signal_ref: self.i_signal_ref@,
            packing_byte_order: self.packing_byte_order,
            start_position: self.start_position,
        }
    }
}

/// An I-Signal I-PDU as plain values.
pub ghost struct PduModel {
    pub short_name: Seq<char>,
    pub length: u32,
    pub mappings: Seq<SignalMappingModel>,
}

impl View for ISignalIPdu {
    type V = PduModel;

    open spec fn view(&self) -> PduModel {
        PduModel {
            short_name: self.short_name@,
            length: self.length,
            mappings: self.i_signal_to_pdu_mappings@.map_values(|m: ISignalToPduMapping| m@),
        }
    }
}

/// A PDU-to-frame mapping as plain values.
pub ghost struct FrameMappingModel {
    pub short_name: Seq<char>,
    pub packing_byte_order: ArxmlByteOrder,
    pub pdu_ref: Seq<char>,
    pub start_position: u32,
}

impl View for PduToFrameMapping {
    type V = FrameMappingModel;

    open spec fn view(&self) -> FrameMappingModel {
        FrameMappingModel {
            short_name: self.short_name@,
            packing_byte_order: self.packing_byte_order,
            pdu_ref: self.pdu_ref@,
            start_position: self.start_position,
        }
    }
}

/// A CAN frame as plain values.
pub ghost struct ArFrameModel {
    pub short_name: Seq<char>,
    pub frame_length: u8,
    pub mappings: Seq<FrameMappingModel>,
}

impl View for CanFrame {
    type V = ArFrameModel;

    open spec fn view(&self) -> ArFrameModel {
        ArFrameModel {
            short_name: self.short_name@,
            frame_length: self.frame_length,
            mappings: self.pdu_to_frame_mappings@.map_values(|m: PduToFrameMapping| m@),
        }
    }
}

/// A frame triggering as plain values.
pub ghost struct TriggeringModel {
    pub short_name: Seq<char>,
    pub identifier: u32,
    pub frame_ref: Seq<char>,
    pub pdu_triggerings: Seq<Seq<char>>,
}

impl View for CanFrameTriggering {
    type V = TriggeringModel;

    open spec fn view(&self) -> TriggeringModel {
        TriggeringModel {
            short_name: self.short_name@,
            identifier: self.identifier,
            frame_ref: self.frame_ref@,
            pdu_triggerings: texts(self.pdu_triggerings@),
        }
    }
}

/// A physical channel as plain values.
pub ghost struct ChannelModel {
    pub short_name: Seq<char>,
    pub frame_triggerings: Seq<TriggeringModel>,
}

impl View for CanPhysicalChannel {
    type V = ChannelModel;

    open spec fn view(&self) -> ChannelModel {
        ChannelModel {
            short_name: self.short_name@,
            frame_triggerings: self.frame_triggerings@.map_values(|t: CanFrameTriggering| t@),
        }
    }
}

/// A CAN cluster as plain values.
pub ghost struct ClusterModel {
    pub short_name: Seq<char>,
    pub baudrate: u32,
    pub can_fd_baudrate: Option<u32>,
    pub physical_channels: Seq<ChannelModel>,
}

impl View for CanCluster {
    type V = ClusterModel;

    open spec fn view(&self) -> ClusterModel {
        ClusterModel {
            short_name: self.short_name@,
            baudrate: self.baudrate,
            can_fd_baudrate: self.can_fd_baudrate,
            physical_channels: self.physical_channels@.map_values(|c: CanPhysicalChannel| c@),
        }
    }
}

/// An ECU instance as plain values.
pub ghost struct ArEcuModel {
    pub short_name: Seq<char>,
    pub com_i_pdu_groups: Seq<Seq<char>>,
}

impl View for EcuInstance {
    type V = ArEcuModel;

    open spec fn view(&self) -> ArEcuModel {
        ArEcuModel { short_name: self.short_name@, com_i_pdu_groups: texts(self.com_i_pdu_groups@) }
    }
}

/// A package as plain values, with its sub-packages.
pub ghost struct ArPackageModel {
    pub short_name: Seq<char>,
    pub sub_packages: Seq<ArPackageModel>,
    pub i_signals: Seq<ISignalModel>,
    pub i_signal_i_pdus: Seq<PduModel>,
    pub can_frames: Seq<ArFrameModel>,
    pub can_clusters: Seq<ClusterModel>,
    pub ecu_instances: Seq<ArEcuModel>,
    pub compu_methods: Seq<CompuMethodModel>,
    pub units: Seq<ArUnitModel>,
    pub base_types: Seq<SwBaseTypeModel>,
}

/// A package as plain values.
pub open spec fn package_view(p: ArPackage) -> ArPackageModel
    decreases p,
{
    ArPackageModel {
        short_name: p.short_name@,
        sub_packages: Seq::new(
            p.sub_packages@.len(),
            |i: int|
                if 0 <= i < p.sub_packages@.len() {
                    package_view(p.sub_packages@[i])
                } else {
                    empty_package(Seq::empty())
                },
        ),
        i_signals: p.i_signals@.map_values(|x: ISignal| x@),
        i_signal_i_pdus: p.i_signal_i_pdus@.map_values(|x: ISignalIPdu| x@),
        can_frames: p.can_frames@.map_values(|x: CanFrame| x@),
        can_clusters: p.can_clusters@.map_values(|x: CanCluster| x@),
        ecu_instances: p.ecu_instances@.map_values(|x: EcuInstance| x@),
        compu_methods: p.compu_methods@.map_values(|x: CompuMethod| x@),
        units: p.units@.map_values(|x: Unit| x@),
        base_types: p.base_types@.map_values(|x: SwBaseType| x@),
    }
}

/// The packages of a list as plain values.
pub open spec fn packages_view(v: Seq<ArPackage>) -> Seq<ArPackageModel> {
    v.map_values(|p: ArPackage| package_view(p))
}

/// An empty package named `name`.
pub open spec fn empty_package(name: Seq<char>) -> ArPackageModel {
    ArPackageModel {
        short_name: name,
        sub_packages: Seq::empty(),
        i_signals: Seq::empty(),
        i_signal_i_pdus: Seq::empty(),
        can_frames: Seq::empty(),
        can_clusters: Seq::empty(),
        ecu_instances: Seq::empty(),
        compu_methods: Seq::empty(),
        units: Seq::empty(),
        base_types: Seq::empty(),
    }
}

impl ArPackage {
    /// A new, empty package.
    pub fn new(name: &str) -> (r: Self)
        ensures
            package_view(r) == empty_package(name@),
    {
        let r = ArPackage {
            short_name: owned(name),
            sub_packages: Vec::new(),
            i_signals: Vec::new(),
            i_signal_i_pdus: Vec::new(),
            can_frames: Vec::new(),
            can_clusters: Vec::new(),
            ecu_instances: Vec::new(),
            compu_methods: Vec::new(),
            units: Vec::new(),
            base_types: Vec::new(),
        };
        assert(package_view(r).sub_packages =~= Seq::<ArPackageModel>::empty());
        assert(package_view(r).i_signals =~= Seq::<ISignalModel>::empty());
        assert(package_view(r).i_signal_i_pdus =~= Seq::<PduModel>::empty());
        assert(package_view(r).can_frames =~= Seq::<ArFrameModel>::empty());
        assert(package_view(r).can_clusters =~= Seq::<ClusterModel>::empty());
        assert(package_view(r).ecu_instances =~= Seq::<ArEcuModel>::empty());
        assert(package_view(r).compu_methods =~= Seq::<CompuMethodModel>::empty());
        assert(package_view(r).units =~= Seq::<ArUnitModel>::empty());
        assert(package_view(r).base_types =~= Seq::<SwBaseTypeModel>::empty());
        r
    }

    /// Add a sub-package at the end.
    pub fn add_sub_package(&mut self, package: ArPackage)
        ensures
            package_view(*final(self)) == (ArPackageModel {
                sub_packages: package_view(*old(self)).sub_packages.push(package_view(package)),
                ..package_view(*old(self))
            }),
    {
        let ghost m = package_view(package);
        self.sub_packages.push(package);
        assert(package_view(*self).sub_packages =~= package_view(*old(self)).sub_packages.push(m));
    }

    /// Find a package by name: this one if it has the name, else the first
    /// found in its sub-packages, depth first.
    pub fn find_package(&self, name: &str) -> (r: Option<&ArPackage>)
        ensures
            match find_in(package_view(*self), name@) {
                Some(m) => r matches Some(x) && package_view(*x) == m,
                None => r is None,
            },
        decreases *self,
    {
        if crate::text::chars_eq(chars_of(self.short_name.as_str()).as_slice(), chars_of(name).as_slice()) {
            return Some(self);
        }
        let ghost subs = package_view(*self).sub_packages;
        assert(subs.skip(0) =~= subs);
        let mut i: usize = 0;
        while i < self.sub_packages.len()
            invariant
                i <= self.sub_packages.len(),
                package_view(*self).short_name != name@,
                subs == package_view(*self).sub_packages,
                subs.len() == self.sub_packages@.len(),
                find_in_list(subs, name@) == find_in_list(subs.skip(i as int), name@),
            decreases self.sub_packages.len() - i,
        {
            assert(subs[i as int] == package_view(self.sub_packages@[i as int]));
            assert(subs.skip(i as int).drop_first() =~= subs.skip(i + 1));
            if let Some(found) = self.sub_packages[i].find_package(name) {
                return Some(found);
            }
            i += 1;
        }
        assert(subs.skip(i as int) =~= Seq::<ArPackageModel>::empty());
        None
    }
}

/// The first package named `name` in `p` and its sub-packages, depth first.
pub open spec fn find_in(p: ArPackageModel, name: Seq<char>) -> Option<ArPackageModel>
    decreases p,
{
    if p.short_name == name {
        Some(p)
    } else {
        find_in_list(p.sub_packages, name)
    }
}

/// The first package named `name` in the packages of `v` and their
/// sub-packages, depth first.
pub open spec fn find_in_list(v: Seq<ArPackageModel>, name: Seq<char>) -> Option<ArPackageModel>
    decreases v,
{
    if v.len() == 0 {
        None
    } else {
        match find_in(v[0], name) {
            Some(x) => Some(x),
            None => find_in_list(v.drop_first(), name),
        }
    }
}


/// The I-Signals of a package and, depth first, of its sub-packages.
pub open spec fn signals_of(p: ArPackageModel) -> Seq<ISignalModel>
    decreases p,
{
    p.i_signals + signals_of_list(p.sub_packages)
}

/// The I-Signals of the packages of a list, in order.
pub open spec fn signals_of_list(v: Seq<ArPackageModel>) -> Seq<ISignalModel>
    decreases v,
{
    if v.len() == 0 {
        Seq::empty()
    } else {
        signals_of_list(v.drop_last()) + signals_of(v.last())
    }
}

proof fn lemma_signals_of_list_push(v: Seq<ArPackageModel>, p: ArPackageModel)
    ensures
        signals_of_list(v.push(p)) == signals_of_list(v) + signals_of(p),
{
    assert(v.push(p).drop_last() =~= v);
}

/// The plain values of a list of references.
pub open spec fn out_views_signals(v: Seq<&ISignal>) -> Seq<ISignalModel> {
    v.map_values(|x: &ISignal| x@)
}

/// The I-Signal I-PDUs of a package and, depth first, of its sub-packages.
pub open spec fn pdus_of(p: ArPackageModel) -> Seq<PduModel>
    decreases p,
{
    p.i_signal_i_pdus + pdus_of_list(p.sub_packages)
}

/// The I-Signal I-PDUs of the packages of a list, in order.
pub open spec fn pdus_of_list(v: Seq<ArPackageModel>) -> Seq<PduModel>
    decreases v,
{
    if v.len() == 0 {
        Seq::empty()
    } else {
        pdus_of_list(v.drop_last()) + pdus_of(v.last())
    }
}

proof fn lemma_pdus_of_list_push(v: Seq<ArPackageModel>, p: ArPackageModel)
    ensures
        pdus_of_list(v.push(p)) == pdus_of_list(v) + pdus_of(p),
{
    assert(v.push(p).drop_last() =~= v);
}

/// The plain values of a list of references.
pub open spec fn out_views_pdus(v: Seq<&ISignalIPdu>) -> Seq<PduModel> {
    v.map_values(|x: &ISignalIPdu| x@)
}

/// The CAN frames of a package and, depth first, of its sub-packages.
pub open spec fn frames_of(p: ArPackageModel) -> Seq<ArFrameModel>
    decreases p,
{
    p.can_frames + frames_of_list(p.sub_packages)
}

/// The CAN frames of the packages of a list, in order.
pub open spec fn frames_of_list(v: Seq<ArPackageModel>) -> Seq<ArFrameModel>
    decreases v,
{
    if v.len() == 0 {
        Seq::empty()
    } else {
        frames_of_list(v.drop_last()) + frames_of(v.last())
    }
}

proof fn lemma_frames_of_list_push(v: Seq<ArPackageModel>, p: ArPackageModel)
    ensures
        frames_of_list(v.push(p)) == frames_of_list(v) + frames_of(p),
{
    assert(v.push(p).drop_last() =~= v);
}

/// The plain values of a list of references.
pub open spec fn out_views_frames(v: Seq<&CanFrame>) -> Seq<ArFrameModel> {
    v.map_values(|x: &CanFrame| x@)
}

/// The parts of a package path: split at `/` after its leading slashes.
pub open spec fn path_parts(path: Seq<char>) -> Seq<Seq<char>> {
    split_spec(strip_leading(path, '/'), '/')
}

/// `s` without its leading `c`s.
pub open spec fn strip_leading(s: Seq<char>, c: char) -> Seq<char>
    decreases s.len(),
{
    if s.len() > 0 && s[0] == c {
        strip_leading(s.drop_first(), c)
    } else {
        s
    }
}

/// The name of a package model.
pub open spec fn pkg_name() -> spec_fn(ArPackageModel) -> Seq<char> {
    |p: ArPackageModel| p.short_name
}

/// The package reached from `p` by following `names`, each the first
/// sub-package of that name.
pub open spec fn descend(p: ArPackageModel, names: Seq<Seq<char>>) -> Option<ArPackageModel>
    decreases names.len(),
{
    if names.len() == 0 {
        Some(p)
    } else {
        match first_named(p.sub_packages, pkg_name(), names[0]) {
            Some(i) => descend(p.sub_packages[i], names.drop_first()),
            None => None,
        }
    }
}

/// The package that a path names: the first root package named by its
/// first part, then sub-packages by the others.
pub open spec fn by_path(roots: Seq<ArPackageModel>, path: Seq<char>) -> Option<ArPackageModel> {
    let parts = path_parts(path);
    match first_named(roots, pkg_name(), parts[0]) {
        Some(i) => descend(roots[i], parts.drop_first()),
        None => None,
    }
}

/// The database as plain values.
pub ghost struct ArxmlDatabaseModel {
    pub version: AutosarVersion,
    pub schema_location: Seq<char>,
    pub packages: Seq<ArPackageModel>,
}

/// ARXML database: the root container for parsed ARXML data.
#[derive(Debug)]
pub struct ArxmlDatabase {
    /// AUTOSAR version
    pub version: AutosarVersion,
    /// Schema location
    pub schema_location: String,
    /// Root packages
    pub packages: Vec<ArPackage>,
}

impl View for ArxmlDatabase {
    type V = ArxmlDatabaseModel;

    open spec fn view(&self) -> ArxmlDatabaseModel {
        ArxmlDatabaseModel {
            version: self.version,
            schema_location: self.schema_location@,
            packages: packages_view(self.packages@),
        }
    }
}

/// An empty database of version 0.0.0.
pub open spec fn empty_arxml() -> ArxmlDatabaseModel {
    ArxmlDatabaseModel {
        version: AutosarVersion { major: 0, minor: 0, patch: 0 },
        schema_location: Seq::empty(),
        packages: Seq::empty(),
    }
}

fn first_package_named(v: &Vec<ArPackage>, name: &[char]) -> (r: Option<usize>)
    ensures
        match first_named(packages_view(v@), pkg_name(), name@) {
            Some(i) => r == Some(i as usize),
            None => r is None,
        },
        r matches Some(i) ==> i < v@.len() && first_named(packages_view(v@), pkg_name(), name@) == Some(i as int),
{
    let ghost pv = packages_view(v@);
    let mut i: usize = 0;
    while i < v.len()
        invariant
            i <= v.len(),
            pv == packages_view(v@),
            forall|j: int| 0 <= j < i ==> (#[trigger] pv[j]).short_name != name@,
        decreases v.len() - i,
    {
        assert(pv[i as int].short_name == v@[i as int].short_name@);
        if crate::text::chars_eq(chars_of(v[i].short_name.as_str()).as_slice(), name) {
            proof {
                crate::a2l::lemma_first_named_at(pv, pkg_name(), name@, i as int);
            }
            return Some(i);
        }
        i += 1;
    }
    None
}

impl ArxmlDatabase {
    /// A new empty database of version 0.0.0.
    pub fn new() -> (r: Self)
        ensures
            r@ == empty_arxml(),
    {
        let r = ArxmlDatabase { version: AutosarVersion::new(0, 0, 0), schema_location: String::new(), packages: Vec::new() };
        assert(r@.packages =~= Seq::<ArPackageModel>::empty());
        r
    }

    /// Add a root package at the end.
    pub fn add_package(&mut self, package: ArPackage)
        ensures
            final(self)@ == (ArxmlDatabaseModel { packages: old(self)@.packages.push(package_view(package)), ..old(self)@ }),
    {
        let ghost m = package_view(package);
        self.packages.push(package);
        assert(self@.packages =~= old(self)@.packages.push(m));
    }

    /// Find a package by path (e.g. "/Package1/SubPackage").
    pub fn find_package_by_path(&self, path: &str) -> (r: Option<&ArPackage>)
        ensures
            match by_path(self@.packages, path@) {
                Some(m) => r matches Some(x) && package_view(*x) == m,
                None => r is None,
            },
    {
        let pv = chars_of(path);
        let mut a: usize = 0;
        assert(pv@.subrange(0, pv@.len() as int) =~= pv@);
        while a < pv.len() && pv[a] == '/'
            invariant
                a <= pv.len(),
                strip_leading(path@, '/') == strip_leading(pv@.subrange(a as int, pv@.len() as int), '/'),
                pv@ == path@,
            decreases pv.len() - a,
        {
            assert(pv@.subrange(a as int, pv@.len() as int).drop_first() =~= pv@.subrange(a + 1, pv@.len() as int));
            a += 1;
        }
        proof {
            let t = pv@.subrange(a as int, pv@.len() as int);
            if a < pv.len() {
                assert(t[0] == pv@[a as int]);
            }
        }
        let rest = crate::text::slice_to_vec(pv.as_slice(), a, pv.len());
        assert(rest@ == strip_leading(path@, '/'));
        let parts = split_at_char(rest.as_slice(), '/');
        proof {
            crate::text::lemma_split_nonempty(rest@, '/');
        }
        let ghost ps = path_parts(path@);
        assert(ps.len() == parts@.len());
        assert(parts@[0]@ == ps[0]);
        let root = match first_package_named(&self.packages, parts[0].as_slice()) {
            Some(i) => i,
            None => return None,
        };
        let mut current: &ArPackage = &self.packages[root];
        let mut k: usize = 1;
        assert(ps.drop_first() =~= ps.skip(1));
        while k < parts.len()
            invariant
                1 <= k <= parts@.len(),
                ps == path_parts(path@),
                ps.len() == parts@.len(),
                forall|j: int| 0 <= j < parts@.len() ==> #[trigger] parts@[j]@ == ps[j],
                by_path(self@.packages, path@) == descend(package_view(*current), ps.skip(k as int)),
            decreases parts.len() - k,
        {
            proof {
                lemma_descend_step(package_view(*current), ps, k as int);
            }
            match child_named(current, parts[k].as_slice()) {
                Some(c) => {
                    current = c;
                },
                None => return None,
            }
            k += 1;
        }
        assert(ps.skip(k as int) =~= Seq::<Seq<char>>::empty());
        Some(current)
    }

    /// All I-Signals: package by package, each package's own before its
    /// sub-packages'.
    pub fn all_signals(&self) -> (r: Vec<&ISignal>)
        ensures
            out_views_signals(r@) == signals_of_list(self@.packages),
    {
        let mut out: Vec<&ISignal> = Vec::new();
        let ghost pv = self@.packages;
        let mut i: usize = 0;
        assert(out_views_signals(out@) =~= Seq::<ISignalModel>::empty());
        assert(pv.take(0) =~= Seq::<ArPackageModel>::empty());
        while i < self.packages.len()
            invariant
                i <= self.packages.len(),
                pv == self@.packages,
                pv.len() == self.packages@.len(),
                out_views_signals(out@) == signals_of_list(pv.take(i as int)),
            decreases self.packages.len() - i,
        {
            Self::collect_signals(&self.packages[i], &mut out);
            proof {
                lemma_signals_of_list_push(pv.take(i as int), pv[i as int]);
                assert(pv.take(i + 1) =~= pv.take(i as int).push(pv[i as int]));
            }
            i += 1;
        }
        assert(pv.take(i as int) =~= pv);
        out
    }

    /// All I-Signal I-PDUs, in the same order.
    pub fn all_pdus(&self) -> (r: Vec<&ISignalIPdu>)
        ensures
            out_views_pdus(r@) == pdus_of_list(self@.packages),
    {
        let mut out: Vec<&ISignalIPdu> = Vec::new();
        let ghost pv = self@.packages;
        let mut i: usize = 0;
        assert(out_views_pdus(out@) =~= Seq::<PduModel>::empty());
        assert(pv.take(0) =~= Seq::<ArPackageModel>::empty());
        while i < self.packages.len()
            invariant
                i <= self.packages.len(),
                pv == self@.packages,
                pv.len() == self.packages@.len(),
                out_views_pdus(out@) == pdus_of_list(pv.take(i as int)),
            decreases self.packages.len() - i,
        {
            Self::collect_pdus(&self.packages[i], &mut out);
            proof {
                lemma_pdus_of_list_push(pv.take(i as int), pv[i as int]);
                assert(pv.take(i + 1) =~= pv.take(i as int).push(pv[i as int]));
            }
            i += 1;
        }
        assert(pv.take(i as int) =~= pv);
        out
    }

    /// All CAN frames, in the same order.
    pub fn all_frames(&self) -> (r: Vec<&CanFrame>)
        ensures
            out_views_frames(r@) == frames_of_list(self@.packages),
    {
        let mut out: Vec<&CanFrame> = Vec::new();
        let ghost pv = self@.packages;
        let mut i: usize = 0;
        assert(out_views_frames(out@) =~= Seq::<ArFrameModel>::empty());
        assert(pv.take(0) =~= Seq::<ArPackageModel>::empty());
        while i < self.packages.len()
            invariant
                i <= self.packages.len(),
                pv == self@.packages,
                pv.len() == self.packages@.len(),
                out_views_frames(out@) == frames_of_list(pv.take(i as int)),
            decreases self.packages.len() - i,
        {
            Self::collect_frames(&self.packages[i], &mut out);
            proof {
                lemma_frames_of_list_push(pv.take(i as int), pv[i as int]);
                assert(pv.take(i + 1) =~= pv.take(i as int).push(pv[i as int]));
            }
            i += 1;
        }
        assert(pv.take(i as int) =~= pv);
        out
    }

    fn collect_signals<'a>(pkg: &'a ArPackage, out: &mut Vec<&'a ISignal>)
        ensures
            out_views_signals(final(out)@) == out_views_signals(old(out)@) + signals_of(package_view(*pkg)),
        decreases *pkg,
    {
        let ghost start = out_views_signals(out@);
        let mut i: usize = 0;
        while i < pkg.i_signals.len()
            invariant
                i <= pkg.i_signals.len(),
                out_views_signals(out@) == start + package_view(*pkg).i_signals.take(i as int),
            decreases pkg.i_signals.len() - i,
        {
            let ghost before = out_views_signals(out@);
            out.push(&pkg.i_signals[i]);
            assert(out_views_signals(out@) =~= before.push(pkg.i_signals@[i as int]@));
            assert(package_view(*pkg).i_signals.take(i + 1) =~= package_view(*pkg).i_signals.take(i as int).push(pkg.i_signals@[i as int]@));
            i += 1;
        }
        assert(package_view(*pkg).i_signals.take(i as int) =~= package_view(*pkg).i_signals);
        let ghost subs = package_view(*pkg).sub_packages;
        let ghost mid = out_views_signals(out@);
        let mut j: usize = 0;
        assert(subs.take(0) =~= Seq::<ArPackageModel>::empty());
        while j < pkg.sub_packages.len()
            invariant
                j <= pkg.sub_packages.len(),
                subs == package_view(*pkg).sub_packages,
                subs.len() == pkg.sub_packages@.len(),
                out_views_signals(out@) == mid + signals_of_list(subs.take(j as int)),
            decreases pkg.sub_packages.len() - j,
        {
            assert(subs[j as int] == package_view(pkg.sub_packages@[j as int]));
            Self::collect_signals(&pkg.sub_packages[j], out);
            proof {
                lemma_signals_of_list_push(subs.take(j as int), subs[j as int]);
                assert(subs.take(j + 1) =~= subs.take(j as int).push(subs[j as int]));
            }
            j += 1;
        }
        assert(subs.take(j as int) =~= subs);
    }

    fn collect_pdus<'a>(pkg: &'a ArPackage, out: &mut Vec<&'a ISignalIPdu>)
        ensures
            out_views_pdus(final(out)@) == out_views_pdus(old(out)@) + pdus_of(package_view(*pkg)),
        decreases *pkg,
    {
        let ghost start = out_views_pdus(out@);
        let mut i: usize = 0;
        while i < pkg.i_signal_i_pdus.len()
            invariant
                i <= pkg.i_signal_i_pdus.len(),
                out_views_pdus(out@) == start + package_view(*pkg).i_signal_i_pdus.take(i as int),
            decreases pkg.i_signal_i_pdus.len() - i,
        {
            let ghost before = out_views_pdus(out@);
            out.push(&pkg.i_signal_i_pdus[i]);
            assert(out_views_pdus(out@) =~= before.push(pkg.i_signal_i_pdus@[i as int]@));
            assert(package_view(*pkg).i_signal_i_pdus.take(i + 1) =~= package_view(*pkg).i_signal_i_pdus.take(i as int).push(pkg.i_signal_i_pdus@[i as int]@));
            i += 1;
        }
        assert(package_view(*pkg).i_signal_i_pdus.take(i as int) =~= package_view(*pkg).i_signal_i_pdus);
        let ghost subs = package_view(*pkg).sub_packages;
        let ghost mid = out_views_pdus(out@);
        let mut j: usize = 0;
        assert(subs.take(0) =~= Seq::<ArPackageModel>::empty());
        while j < pkg.sub_packages.len()
            invariant
                j <= pkg.sub_packages.len(),
                subs == package_view(*pkg).sub_packages,
                subs.len() == pkg.sub_packages@.len(),
                out_views_pdus(out@) == mid + pdus_of_list(subs.take(j as int)),
            decreases pkg.sub_packages.len() - j,
        {
            assert(subs[j as int] == package_view(pkg.sub_packages@[j as int]));
            Self::collect_pdus(&pkg.sub_packages[j], out);
            proof {
                lemma_pdus_of_list_push(subs.take(j as int), subs[j as int]);
                assert(subs.take(j + 1) =~= subs.take(j as int).push(subs[j as int]));
            }
            j += 1;
        }
        assert(subs.take(j as int) =~= subs);
    }

    fn collect_frames<'a>(pkg: &'a ArPackage, out: &mut Vec<&'a CanFrame>)
        ensures
            out_views_frames(final(out)@) == out_views_frames(old(out)@) + frames_of(package_view(*pkg)),
        decreases *pkg,
    {
        let ghost start = out_views_frames(out@);
        let mut i: usize = 0;
        while i < pkg.can_frames.len()
            invariant
                i <= pkg.can_frames.len(),
                out_views_frames(out@) == start + package_view(*pkg).can_frames.take(i as int),
            decreases pkg.can_frames.len() - i,
        {
            let ghost before = out_views_frames(out@);
            out.push(&pkg.can_frames[i]);
            assert(out_views_frames(out@) =~= before.push(pkg.can_frames@[i as int]@));
            assert(package_view(*pkg).can_frames.take(i + 1) =~= package_view(*pkg).can_frames.take(i as int).push(pkg.can_frames@[i as int]@));
            i += 1;
        }
        assert(package_view(*pkg).can_frames.take(i as int) =~= package_view(*pkg).can_frames);
        let ghost subs = package_view(*pkg).sub_packages;
        let ghost mid = out_views_frames(out@);
        let mut j: usize = 0;
        assert(subs.take(0) =~= Seq::<ArPackageModel>::empty());
        while j < pkg.sub_packages.len()
            invariant
                j <= pkg.sub_packages.len(),
                subs == package_view(*pkg).sub_packages,
                subs.len() == pkg.sub_packages@.len(),
                out_views_frames(out@) == mid + frames_of_list(subs.take(j as int)),
            decreases pkg.sub_packages.len() - j,
        {
            assert(subs[j as int] == package_view(pkg.sub_packages@[j as int]));
            Self::collect_frames(&pkg.sub_packages[j], out);
            proof {
                lemma_frames_of_list_push(subs.take(j as int), subs[j as int]);
                assert(subs.take(j + 1) =~= subs.take(j as int).push(subs[j as int]));
            }
            j += 1;
        }
        assert(subs.take(j as int) =~= subs);
    }
}


proof fn lemma_descend_step(p: ArPackageModel, ps: Seq<Seq<char>>, k: int)
    requires
        0 <= k < ps.len(),
    ensures
        descend(p, ps.skip(k)) == match first_named(p.sub_packages, pkg_name(), ps[k]) {
            Some(i) => descend(p.sub_packages[i], ps.skip(k + 1)),
            None => None,
        },
{
    assert(ps.skip(k)[0] == ps[k]);
    assert(ps.skip(k).drop_first() =~= ps.skip(k + 1));
}

/// The first sub-package of `p` named `name`.
fn child_named<'a>(p: &'a ArPackage, name: &[char]) -> (r: Option<&'a ArPackage>)
    ensures
        match first_named(package_view(*p).sub_packages, pkg_name(), name@) {
            Some(i) => r matches Some(x) && package_view(*x) == package_view(*p).sub_packages[i],
            None => r is None,
        },
{
    assert(package_view(*p).sub_packages =~= packages_view(p.sub_packages@));
    match first_package_named(&p.sub_packages, name) {
        Some(i) => Some(&p.sub_packages[i]),
        None => None,
    }
}
} // verus!
