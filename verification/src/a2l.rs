//! A2L (ASAM MCD-2 MC) data model: the ASAP2 version, data types,
//! conversion, characteristic and axis kinds, and the module blocks that
//! hold no decimal fractions.
use vstd::prelude::*;
use std::collections::HashMap;
use crate::text::{all_ascii, ascii_upper, chars_of, dec_digits, push_dec, push_str, to_uppercase, unicode_uppercase};
pub use crate::a2l_parser::A2lParser;
pub use crate::a2l_writer::A2lGenerator;

verus! {

broadcast use vstd::string::group_string_axioms;

/// ASAP2 version information.
#[derive(Debug, Clone, Copy, PartialEq, Eq, Structural, Default)]
pub struct Asap2Version {
    /// Major version number
    pub major: u16,
    /// Minor version number (e.g., 71 for v1.71)
    pub minor: u16,
}

impl View for Asap2Version {
    type V = Asap2Version;

    open spec fn view(&self) -> Asap2Version {
        *self
    }
}

impl Asap2Version {
    /// Create a new ASAP2 version
    pub fn new(major: u16, minor: u16) -> (r: Self)
        ensures
            r == (Asap2Version { major, minor }),
    {
        Asap2Version { major, minor }
    }

    /// Get version as string (e.g., "1.71")
    pub fn to_version_string(&self) -> (r: String)
        ensures
            r@ == dec_digits(self.major as nat) + "."@ + dec_digits(self.minor as nat),
    {
        let mut out = String::new();
        push_dec(&mut out, self.major as u64);
        push_str(&mut out, ".");
        push_dec(&mut out, self.minor as u64);
        out
    }
}

fn is_text(t: &[char], lit: &str) -> (r: bool)
    ensures
        r == (t@ == lit@),
{
    let l = chars_of(lit);
    crate::text::chars_eq(t, l.as_slice())
}

/// A2L data type as defined in ASAM MCD-2 MC.
#[derive(Debug, Clone, Copy, PartialEq, Eq, Structural, Default)]
pub enum A2lDataType {
    /// Unsigned 8-bit integer
    #[default]
    UByte,
    /// Signed 8-bit integer (two's complement)
    SByte,
    /// Unsigned 16-bit integer
    UWord,
    /// Signed 16-bit integer (two's complement)
    SWord,
    /// Unsigned 32-bit integer
    ULong,
    /// Signed 32-bit integer (two's complement)
    SLong,
    /// Unsigned 64-bit integer
    AUint64,
    /// Signed 64-bit integer (two's complement)
    AInt64,
    /// IEEE 754 single precision float (32-bit)
    Float32Ieee,
    /// IEEE 754 double precision float (64-bit)
    Float64Ieee,
}

/// The a2L data type as defined in ASAM MCD-2 MC that an uppercased name stands for.
pub open spec fn a2l_data_type_of_upper(u: Seq<char>) -> Option<A2lDataType> {
    if u == "UBYTE"@ {
        Some(A2lDataType::UByte)
    } else if u == "SBYTE"@ {
        Some(A2lDataType::SByte)
    } else if u == "UWORD"@ {
        Some(A2lDataType::UWord)
    } else if u == "SWORD"@ {
        Some(A2lDataType::SWord)
    } else if u == "ULONG"@ {
        Some(A2lDataType::ULong)
    } else if u == "SLONG"@ {
        Some(A2lDataType::SLong)
    } else if u == "A_UINT64"@ {
        Some(A2lDataType::AUint64)
    } else if u == "A_INT64"@ {
        Some(A2lDataType::AInt64)
    } else if u == "FLOAT32_IEEE"@ {
        Some(A2lDataType::Float32Ieee)
    } else if u == "FLOAT64_IEEE"@ {
        Some(A2lDataType::Float64Ieee)
    } else {
        None
    }
}

impl A2lDataType {
    /// The value that an already uppercased name stands for.
    pub fn from_uppercase_name(u: &[char]) -> (r: Option<Self>)
        ensures
            r == a2l_data_type_of_upper(u@),
    {
        if is_text(u, "UBYTE") {
            Some(A2lDataType::UByte)
        } else if is_text(u, "SBYTE") {
            Some(A2lDataType::SByte)
        } else if is_text(u, "UWORD") {
            Some(A2lDataType::UWord)
        } else if is_text(u, "SWORD") {
            Some(A2lDataType::SWord)
        } else if is_text(u, "ULONG") {
            Some(A2lDataType::ULong)
        } else if is_text(u, "SLONG") {
            Some(A2lDataType::SLong)
        } else if is_text(u, "A_UINT64") {
            Some(A2lDataType::AUint64)
        } else if is_text(u, "A_INT64") {
            Some(A2lDataType::AInt64)
        } else if is_text(u, "FLOAT32_IEEE") {
            Some(A2lDataType::Float32Ieee)
        } else if is_text(u, "FLOAT64_IEEE") {
            Some(A2lDataType::Float64Ieee)
        } else {
            None
        }
    }

    /// Parse from string: compared after Unicode uppercasing.
    pub fn from_str(s: &str) -> (r: Option<Self>)
        ensures
            r == a2l_data_type_of_upper(unicode_uppercase(s@)),
            all_ascii(s@) ==> r == a2l_data_type_of_upper(ascii_upper(s@)),
    {
        let u = to_uppercase(s);
        let v = chars_of(u.as_str());
        Self::from_uppercase_name(v.as_slice())
    }

    /// Get size in bytes
    pub fn size_bytes(&self) -> (r: usize)
        ensures
            r == data_type_size(*self),
    {
        match self {
            A2lDataType::UByte | A2lDataType::SByte => 1,
            A2lDataType::UWord | A2lDataType::SWord => 2,
            A2lDataType::ULong | A2lDataType::SLong | A2lDataType::Float32Ieee => 4,
            A2lDataType::AUint64 | A2lDataType::AInt64 | A2lDataType::Float64Ieee => 8,
        }
    }

    /// Check if signed (the signed integers and the floats)
    pub fn is_signed(&self) -> (r: bool)
        ensures
            r == data_type_signed(*self),
    {
        match self {
            A2lDataType::SByte | A2lDataType::SWord | A2lDataType::SLong | A2lDataType::AInt64
            | A2lDataType::Float32Ieee | A2lDataType::Float64Ieee => true,
            _ => false,
        }
    }
}

/// The size in bytes of a data type.
pub open spec fn data_type_size(t: A2lDataType) -> usize {
    match t {
        A2lDataType::UByte | A2lDataType::SByte => 1,
        A2lDataType::UWord | A2lDataType::SWord => 2,
        A2lDataType::ULong | A2lDataType::SLong | A2lDataType::Float32Ieee => 4,
        A2lDataType::AUint64 | A2lDataType::AInt64 | A2lDataType::Float64Ieee => 8,
    }
}

/// Whether a data type holds signed values.
pub open spec fn data_type_signed(t: A2lDataType) -> bool {
    t == A2lDataType::SByte || t == A2lDataType::SWord || t == A2lDataType::SLong
        || t == A2lDataType::AInt64 || t == A2lDataType::Float32Ieee
        || t == A2lDataType::Float64Ieee
}

/// Computation method type.
#[derive(Debug, Clone, Copy, PartialEq, Eq, Structural, Default)]
pub enum CompuMethodType {
    /// No conversion (identical)
    #[default]
    Identical,
    /// Linear conversion: y = ax + b
    Linear,
    /// Rational function: 6-coefficient
    RatFunc,
    /// Table with interpolation
    TabIntp,
    /// Table without interpolation
    TabNoIntp,
    /// Verbal table (enumeration)
    TabVerb,
    /// Formula-based conversion
    Form,
}

/// The computation method type that an uppercased name stands for.
pub open spec fn compu_method_type_of_upper(u: Seq<char>) -> Option<CompuMethodType> {
    if u == "IDENTICAL"@ {
        Some(CompuMethodType::Identical)
    } else if u == "LINEAR"@ {
        Some(CompuMethodType::Linear)
    } else if u == "RAT_FUNC"@ {
        Some(CompuMethodType::RatFunc)
    } else if u == "TAB_INTP"@ {
        Some(CompuMethodType::TabIntp)
    } else if u == "TAB_NOINTP"@ {
        Some(CompuMethodType::TabNoIntp)
    } else if u == "TAB_VERB"@ {
        Some(CompuMethodType::TabVerb)
    } else if u == "FORM"@ {
        Some(CompuMethodType::Form)
    } else {
        None
    }
}

impl CompuMethodType {
    /// The value that an already uppercased name stands for.
    pub fn from_uppercase_name(u: &[char]) -> (r: Option<Self>)
        ensures
            r == compu_method_type_of_upper(u@),
    {
        if is_text(u, "IDENTICAL") {
            Some(CompuMethodType::Identical)
        } else if is_text(u, "LINEAR") {
            Some(CompuMethodType::Linear)
        } else if is_text(u, "RAT_FUNC") {
            Some(CompuMethodType::RatFunc)
        } else if is_text(u, "TAB_INTP") {
            Some(CompuMethodType::TabIntp)
        } else if is_text(u, "TAB_NOINTP") {
            Some(CompuMethodType::TabNoIntp)
        } else if is_text(u, "TAB_VERB") {
            Some(CompuMethodType::TabVerb)
        } else if is_text(u, "FORM") {
            Some(CompuMethodType::Form)
        } else {
            None
        }
    }

    /// Parse from string: compared after Unicode uppercasing.
    pub fn from_str(s: &str) -> (r: Option<Self>)
        ensures
            r == compu_method_type_of_upper(unicode_uppercase(s@)),
            all_ascii(s@) ==> r == compu_method_type_of_upper(ascii_upper(s@)),
    {
        let u = to_uppercase(s);
        let v = chars_of(u.as_str());
        Self::from_uppercase_name(v.as_slice())
    }
}

/// Characteristic type (tunable parameter type).
#[derive(Debug, Clone, Copy, PartialEq, Eq, Structural, Default)]
pub enum CharacteristicType {
    /// Scalar value
    #[default]
    Value,
    /// ASCII string
    Ascii,
    /// Value block (1D array, no axes)
    ValBlk,
    /// 1D lookup table (curve)
    Curve,
    /// 2D lookup table (map)
    Map2d,
    /// 3D lookup table (cuboid)
    Cuboid,
    /// 4D lookup table
    Cube4,
    /// 5D lookup table
    Cube5,
}

/// The characteristic type (tunable parameter type) that an uppercased name stands for.
pub open spec fn characteristic_type_of_upper(u: Seq<char>) -> Option<CharacteristicType> {
    if u == "VALUE"@ {
        Some(CharacteristicType::Value)
    } else if u == "ASCII"@ {
        Some(CharacteristicType::Ascii)
    } else if u == "VAL_BLK"@ {
        Some(CharacteristicType::ValBlk)
    } else if u == "CURVE"@ {
        Some(CharacteristicType::Curve)
    } else if u == "MAP"@ {
        Some(CharacteristicType::Map2d)
    } else if u == "CUBOID"@ {
        Some(CharacteristicType::Cuboid)
    } else if u == "CUBE_4"@ {
        Some(CharacteristicType::Cube4)
    } else if u == "CUBE_5"@ {
        Some(CharacteristicType::Cube5)
    } else {
        None
    }
}

impl CharacteristicType {
    /// The value that an already uppercased name stands for.
    pub fn from_uppercase_name(u: &[char]) -> (r: Option<Self>)
        ensures
            r == characteristic_type_of_upper(u@),
    {
        if is_text(u, "VALUE") {
            Some(CharacteristicType::Value)
        } else if is_text(u, "ASCII") {
            Some(CharacteristicType::Ascii)
        } else if is_text(u, "VAL_BLK") {
            Some(CharacteristicType::ValBlk)
        } else if is_text(u, "CURVE") {
            Some(CharacteristicType::Curve)
        } else if is_text(u, "MAP") {
            Some(CharacteristicType::Map2d)
        } else if is_text(u, "CUBOID") {
            Some(CharacteristicType::Cuboid)
        } else if is_text(u, "CUBE_4") {
            Some(CharacteristicType::Cube4)
        } else if is_text(u, "CUBE_5") {
            Some(CharacteristicType::Cube5)
        } else {
            None
        }
    }

    /// Parse from string: compared after Unicode uppercasing.
    pub fn from_str(s: &str) -> (r: Option<Self>)
        ensures
            r == characteristic_type_of_upper(unicode_uppercase(s@)),
            all_ascii(s@) ==> r == characteristic_type_of_upper(ascii_upper(s@)),
    {
        let u = to_uppercase(s);
        let v = chars_of(u.as_str());
        Self::from_uppercase_name(v.as_slice())
    }
}

/// Axis type for curves and maps.
#[derive(Debug, Clone, Copy, PartialEq, Eq, Structural, Default)]
pub enum AxisType {
    /// Standard axis specific to one table
    #[default]
    StdAxis,
    /// Fixed axis with calculated points (not stored in memory)
    FixAxis,
    /// Common axis shared by multiple tables
    ComAxis,
    /// Curve axis (shared and rescaled by a curve)
    CurveAxis,
    /// Rescale axis (shared and rescaled by another axis)
    ResAxis,
}

/// The axis type for curves and maps that an uppercased name stands for.
pub open spec fn axis_type_of_upper(u: Seq<char>) -> Option<AxisType> {
    if u == "STD_AXIS"@ {
        Some(AxisType::StdAxis)
    } else if u == "FIX_AXIS"@ {
        Some(AxisType::FixAxis)
    } else if u == "COM_AXIS"@ {
        Some(AxisType::ComAxis)
    } else if u == "CURVE_AXIS"@ {
        Some(AxisType::CurveAxis)
    } else if u == "RES_AXIS"@ {
        Some(AxisType::ResAxis)
    } else {
        None
    }
}

impl AxisType {
    /// The value that an already uppercased name stands for.
    pub fn from_uppercase_name(u: &[char]) -> (r: Option<Self>)
        ensures
            r == axis_type_of_upper(u@),
    {
        if is_text(u, "STD_AXIS") {
            Some(AxisType::StdAxis)
        } else if is_text(u, "FIX_AXIS") {
            Some(AxisType::FixAxis)
        } else if is_text(u, "COM_AXIS") {
            Some(AxisType::ComAxis)
        } else if is_text(u, "CURVE_AXIS") {
            Some(AxisType::CurveAxis)
        } else if is_text(u, "RES_AXIS") {
            Some(AxisType::ResAxis)
        } else {
            None
        }
    }

    /// Parse from string: compared after Unicode uppercasing.
    pub fn from_str(s: &str) -> (r: Option<Self>)
        ensures
            r == axis_type_of_upper(unicode_uppercase(s@)),
            all_ascii(s@) ==> r == axis_type_of_upper(ascii_upper(s@)),
    {
        let u = to_uppercase(s);
        let v = chars_of(u.as_str());
        Self::from_uppercase_name(v.as_slice())
    }
}

/// Byte order specification.
#[derive(Debug, Clone, Copy, PartialEq, Eq, Structural, Default)]
pub enum A2lByteOrder {
    /// Little-endian (LSB first)
    #[default]
    LittleEndian,
    /// Big-endian (MSB first)
    BigEndian,
}

/// Deposit mode for axis points.
#[derive(Debug, Clone, Copy, PartialEq, Eq, Structural, Default)]
pub enum DepositMode {
    /// Absolute values stored
    #[default]
    Absolute,
    /// Difference values between points stored
    Difference,
}

/// A2L header - project metadata.
#[derive(Debug, Clone, PartialEq, Eq, Default)]
pub struct A2lHeader {
    /// Comment/description
    pub comment: String,
    /// Project number
    pub project_no: Option<String>,
    /// Version string
    pub version: Option<String>,
}

/// MOD_COMMON - common module parameters.
#[derive(Debug, Clone, PartialEq, Eq, Default)]
pub struct A2lModCommon {
    /// Comment
    pub comment: String,
    /// Byte order
    pub byte_order: Option<A2lByteOrder>,
    /// Data size in bits
    pub data_size: Option<u16>,
    /// Deposit mode
    pub deposit: Option<DepositMode>,
    /// Alignment for byte data
    pub alignment_byte: Option<u16>,
    /// Alignment for word data
    pub alignment_word: Option<u16>,
    /// Alignment for long data
    pub alignment_long: Option<u16>,
    /// Alignment for float32 data
    pub alignment_float32: Option<u16>,
    /// Alignment for float64 data
    pub alignment_float64: Option<u16>,
    /// Alignment for int64 data
    pub alignment_int64: Option<u16>,
}

/// Memory segment definition.
#[derive(Debug, Clone, PartialEq, Eq, Default)]
pub struct A2lMemorySegment {
    /// Segment name
    pub name: String,
    /// Long identifier
    pub long_identifier: String,
    /// Program type (PRG_CODE, PRG_DATA, PRG_RESERVED)
    pub prg_type: String,
    /// Memory type (RAM, EEPROM, EPROM, ROM, FLASH, etc.)
    pub memory_type: String,
    /// Attribute (INTERN, EXTERN)
    pub attribute: String,
    /// Start address
    pub address: u64,
    /// Size in bytes
    pub size: u64,
    /// Offsets
    pub offsets: Vec<i64>,
}

/// MOD_PAR - module parameters.
#[derive(Debug, Clone, Default)]
pub struct A2lModPar {
    /// Comment
    pub comment: String,
    /// CPU type
    pub cpu_type: Option<String>,
    /// Customer name
    pub customer: Option<String>,
    /// Customer number
    pub customer_no: Option<String>,
    /// ECU description
    pub ecu: Option<String>,
    /// ECU calibration offset
    pub ecu_calibration_offset: Option<i64>,
    /// EPK address
    pub addr_epk: Option<u64>,
    /// EPK string
    pub epk: Option<String>,
    /// Number of interfaces
    pub no_of_interfaces: Option<u16>,
    /// Phone number
    pub phone_no: Option<String>,
    /// Supplier
    pub supplier: Option<String>,
    /// User
    pub user: Option<String>,
    /// Version
    pub version: Option<String>,
    /// Memory segments
    pub memory_segments: Vec<A2lMemorySegment>,
    /// System constants
    pub system_constants: HashMap<String, String>,
}

/// COMPU_VTAB - verbal computation table (enumeration).
#[derive(Debug, Clone, PartialEq, Eq, Default)]
pub struct A2lCompuVtab {
    /// Name
    pub name: String,
    /// Long identifier
    pub long_identifier: String,
    /// Conversion type (TAB_VERB)
    pub conversion_type: CompuMethodType,
    /// Number of value pairs
    pub number_value_pairs: u16,
    /// Value pairs (numeric value, string)
    pub values: Vec<(i64, String)>,
    /// Default value string
    pub default_value: Option<String>,
}

/// FNC_VALUES specification in RECORD_LAYOUT.
#[derive(Debug, Clone, PartialEq, Eq, Default)]
pub struct A2lFncValues {
    /// Position
    pub position: u16,
    /// Data type
    pub data_type: A2lDataType,
    /// Index mode (COLUMN_DIR, ROW_DIR, ALTERNATE_WITH_X, etc.)
    pub index_mode: String,
    /// Address type (DIRECT, PBYTE, PWORD, PLONG, etc.)
    pub address_type: String,
}

/// Axis points layout specification.
#[derive(Debug, Clone, PartialEq, Eq, Default)]
pub struct A2lAxisPtsLayout {
    /// Position
    pub position: u16,
    /// Data type
    pub data_type: A2lDataType,
    /// Index increment
    pub index_incr: String,
    /// Address type
    pub address_type: String,
}

/// Axis rescale specification.
#[derive(Debug, Clone, PartialEq, Eq, Default)]
pub struct A2lAxisRescale {
    /// Position
    pub position: u16,
    /// Data type
    pub data_type: A2lDataType,
    /// Max number of rescale pairs
    pub max_number_of_rescale_pairs: u16,
    /// Index increment
    pub index_incr: String,
    /// Address type
    pub address_type: String,
}

/// RECORD_LAYOUT - memory layout description.
#[derive(Debug, Clone, PartialEq, Eq, Default)]
pub struct A2lRecordLayout {
    /// Name
    pub name: String,
    /// Function values specification
    pub fnc_values: Option<A2lFncValues>,
    /// Identification field
    pub identification: Option<(u16, A2lDataType)>,
    /// Axis points X specification
    pub axis_pts_x: Option<A2lAxisPtsLayout>,
    /// Axis points Y specification
    pub axis_pts_y: Option<A2lAxisPtsLayout>,
    /// Axis points Z specification
    pub axis_pts_z: Option<A2lAxisPtsLayout>,
    /// Axis points 4 specification
    pub axis_pts_4: Option<A2lAxisPtsLayout>,
    /// Axis points 5 specification
    pub axis_pts_5: Option<A2lAxisPtsLayout>,
    /// Number of axis points X
    pub no_axis_pts_x: Option<(u16, A2lDataType)>,
    /// Number of axis points Y
    pub no_axis_pts_y: Option<(u16, A2lDataType)>,
    /// Number of axis points Z
    pub no_axis_pts_z: Option<(u16, A2lDataType)>,
    /// Fixed number of axis points X
    pub fix_no_axis_pts_x: Option<u16>,
    /// Fixed number of axis points Y
    pub fix_no_axis_pts_y: Option<u16>,
    /// Fixed number of axis points Z
    pub fix_no_axis_pts_z: Option<u16>,
    /// Source address X
    pub src_addr_x: Option<(u16, A2lDataType)>,
    /// Source address Y
    pub src_addr_y: Option<(u16, A2lDataType)>,
    /// Source address Z
    pub src_addr_z: Option<(u16, A2lDataType)>,
    /// RIP address W (result of interpolation)
    pub rip_addr_w: Option<(u16, A2lDataType)>,
    /// RIP address X
    pub rip_addr_x: Option<(u16, A2lDataType)>,
    /// RIP address Y
    pub rip_addr_y: Option<(u16, A2lDataType)>,
    /// RIP address Z
    pub rip_addr_z: Option<(u16, A2lDataType)>,
    /// Shift operation X
    pub shift_op_x: Option<(u16, A2lDataType)>,
    /// Shift operation Y
    pub shift_op_y: Option<(u16, A2lDataType)>,
    /// Shift operation Z
    pub shift_op_z: Option<(u16, A2lDataType)>,
    /// Offset X
    pub offset_x: Option<(u16, A2lDataType)>,
    /// Offset Y
    pub offset_y: Option<(u16, A2lDataType)>,
    /// Offset Z
    pub offset_z: Option<(u16, A2lDataType)>,
    /// Distance operation X
    pub dist_op_x: Option<(u16, A2lDataType)>,
    /// Distance operation Y
    pub dist_op_y: Option<(u16, A2lDataType)>,
    /// Distance operation Z
    pub dist_op_z: Option<(u16, A2lDataType)>,
    /// Axis rescale X
    pub axis_rescale_x: Option<A2lAxisRescale>,
    /// Reserved positions
    pub reserved: Vec<(u16, A2lDataType)>,
    /// Static record layout flag
    pub static_record_layout: bool,
    /// Alignment for byte data
    pub alignment_byte: Option<u16>,
    /// Alignment for word data
    pub alignment_word: Option<u16>,
    /// Alignment for long data
    pub alignment_long: Option<u16>,
    /// Alignment for float32 data
    pub alignment_float32: Option<u16>,
    /// Alignment for float64 data
    pub alignment_float64: Option<u16>,
    /// Alignment for int64 data
    pub alignment_int64: Option<u16>,
}

/// Annotation.
#[derive(Debug, Clone, PartialEq, Eq, Default)]
pub struct A2lAnnotation {
    /// Label
    pub label: Option<String>,
    /// Origin
    pub origin: Option<String>,
    /// Text lines
    pub text: Vec<String>,
}

/// IF_DATA - interface data section.
#[derive(Debug, Clone, PartialEq, Eq, Default)]
pub struct A2lIfData {
    /// Protocol name (e.g., "XCP", "XCPplus", "ASAP1B_CAN")
    pub name: String,
    /// Raw content (unparsed)
    pub content: String,
}

/// FUNCTION - grouping of measurements and characteristics.
#[derive(Debug, Clone, PartialEq, Eq, Default)]
pub struct A2lFunction {
    /// Name
    pub name: String,
    /// Long identifier
    pub long_identifier: String,
    /// Version
    pub version: Option<String>,
    /// Input measurements
    pub in_measurement: Vec<String>,
    /// Output measurements
    pub out_measurement: Vec<String>,
    /// Local measurements
    pub loc_measurement: Vec<String>,
    /// Defined characteristics
    pub def_characteristic: Vec<String>,
    /// Referenced characteristics
    pub ref_characteristic: Vec<String>,
    /// Sub-functions
    pub sub_function: Vec<String>,
    /// Annotations
    pub annotations: Vec<A2lAnnotation>,
    /// IF_DATA sections
    pub if_data: Vec<A2lIfData>,
}

/// GROUP - grouping for selection lists.
#[derive(Debug, Clone, PartialEq, Eq, Default)]
pub struct A2lGroup {
    /// Name
    pub name: String,
    /// Long identifier
    pub long_identifier: String,
    /// Root flag
    pub root: bool,
    /// Referenced characteristics
    pub ref_characteristic: Vec<String>,
    /// Referenced measurements
    pub ref_measurement: Vec<String>,
    /// Sub-groups
    pub sub_group: Vec<String>,
    /// Annotations
    pub annotations: Vec<A2lAnnotation>,
    /// IF_DATA sections
    pub if_data: Vec<A2lIfData>,
}


// ---------------------------------------------------------------------------
// Blocks that carry decimal fractions, and the whole database.
//
// A decimal fraction is kept as the text that the file wrote for it, which
// the parser has checked against the grammar of a decimal number.
// ---------------------------------------------------------------------------

/// The text of an optional string.
pub open spec fn opt_text(o: Option<String>) -> Option<Seq<char>> {
    match o {
        Some(t) => Some(t@),
        None => None,
    }
}

/// The texts of a list of strings.
pub open spec fn texts(v: Seq<String>) -> Seq<Seq<char>> {
    v.map_values(|t: String| t@)
}

/// The texts of an optional pair of strings.
pub open spec fn opt_pair(o: Option<(String, String)>) -> Option<(Seq<char>, Seq<char>)> {
    match o {
        Some((a, b)) => Some((a@, b@)),
        None => None,
    }
}

/// The contents of an `IF_DATA` section.
pub ghost struct IfDataModel {
    pub name: Seq<char>,
    pub content: Seq<char>,
}

impl View for A2lIfData {
    type V = IfDataModel;

    open spec fn view(&self) -> IfDataModel {
        IfDataModel { name: self.name@, content: self.content@ }
    }
}

/// The contents of an annotation.
pub ghost struct AnnotationModel {
    pub label: Option<Seq<char>>,
    pub origin: Option<Seq<char>>,
    pub text: Seq<Seq<char>>,
}

impl View for A2lAnnotation {
    type V = AnnotationModel;

    open spec fn view(&self) -> AnnotationModel {
        AnnotationModel { label: opt_text(self.label), origin: opt_text(self.origin), text: texts(self.text@) }
    }
}

/// The IF_DATA sections of a list.
pub open spec fn if_data_view(v: Seq<A2lIfData>) -> Seq<IfDataModel> {
    v.map_values(|d: A2lIfData| d@)
}

/// The annotations of a list.
pub open spec fn annotations_view(v: Seq<A2lAnnotation>) -> Seq<AnnotationModel> {
    v.map_values(|a: A2lAnnotation| a@)
}

/// The contents of a `HEADER` block.
pub ghost struct HeaderModel {
    pub comment: Seq<char>,
    pub project_no: Option<Seq<char>>,
    pub version: Option<Seq<char>>,
}

impl View for A2lHeader {
    type V = HeaderModel;

    open spec fn view(&self) -> HeaderModel {
        HeaderModel { comment: self.comment@, project_no: opt_text(self.project_no), version: opt_text(self.version) }
    }
}

/// The contents of a `MOD_COMMON` block.
pub ghost struct ModCommonModel {
    pub comment: Seq<char>,
    pub byte_order: Option<A2lByteOrder>,
    pub data_size: Option<u16>,
    pub deposit: Option<DepositMode>,
    pub alignment_byte: Option<u16>,
    pub alignment_word: Option<u16>,
    pub alignment_long: Option<u16>,
    pub alignment_float32: Option<u16>,
    pub alignment_float64: Option<u16>,
    pub alignment_int64: Option<u16>,
}

impl View for A2lModCommon {
    type V = ModCommonModel;

    open spec fn view(&self) -> ModCommonModel {
        ModCommonModel {
            comment: self.comment@,
            byte_order: self.byte_order,
            data_size: self.data_size,
            deposit: self.deposit,
            alignment_byte: self.alignment_byte,
            alignment_word: self.alignment_word,
            alignment_long: self.alignment_long,
            alignment_float32: self.alignment_float32,
            alignment_float64: self.alignment_float64,
            alignment_int64: self.alignment_int64,
        }
    }
}

/// The contents of a `MEMORY_SEGMENT` block.
pub ghost struct MemorySegmentModel {
    pub name: Seq<char>,
    pub long_identifier: Seq<char>,
    pub prg_type: Seq<char>,
    pub memory_type: Seq<char>,
    pub attribute: Seq<char>,
    pub address: u64,
    pub size: u64,
    pub offsets: Seq<i64>,
}

impl View for A2lMemorySegment {
    type V = MemorySegmentModel;

    open spec fn view(&self) -> MemorySegmentModel {
        MemorySegmentModel {
            name: self.name@,
            long_identifier: self.long_identifier@,
            prg_type: self.prg_type@,
            memory_type: self.memory_type@,
            attribute: self.attribute@,
            address: self.address,
            size: self.size,
            offsets: self.offsets@,
        }
    }
}

/// The contents of a `MOD_PAR` block: the fields that the file format
/// sets, and whether all the others hold their default (none, empty).
pub ghost struct ModParModel {
    pub comment: Seq<char>,
    pub cpu_type: Option<Seq<char>>,
    pub customer: Option<Seq<char>>,
    pub version: Option<Seq<char>>,
    pub epk: Option<Seq<char>>,
    pub memory_segments: Seq<MemorySegmentModel>,
    pub others_default: bool,
}

impl View for A2lModPar {
    type V = ModParModel;

    open spec fn view(&self) -> ModParModel {
        ModParModel {
            comment: self.comment@,
            cpu_type: opt_text(self.cpu_type),
            customer: opt_text(self.customer),
            version: opt_text(self.version),
            epk: opt_text(self.epk),
            memory_segments: self.memory_segments@.map_values(|m: A2lMemorySegment| m@),
            others_default: self.customer_no is None && self.ecu is None
                && self.ecu_calibration_offset is None && self.addr_epk is None
                && self.no_of_interfaces is None && self.phone_no is None && self.supplier is None
                && self.user is None && self.system_constants@ == Map::<String, String>::empty(),
        }
    }
}

/// The contents of a `COMPU_VTAB` block.
pub ghost struct CompuVtabModel {
    pub name: Seq<char>,
    pub long_identifier: Seq<char>,
    pub conversion_type: CompuMethodType,
    pub number_value_pairs: u16,
    pub values: Seq<(i64, Seq<char>)>,
    pub default_value: Option<Seq<char>>,
}

impl View for A2lCompuVtab {
    type V = CompuVtabModel;

    open spec fn view(&self) -> CompuVtabModel {
        CompuVtabModel {
            name: self.name@,
            long_identifier: self.long_identifier@,
            conversion_type: self.conversion_type,
            number_value_pairs: self.number_value_pairs,
            values: self.values@.map_values(|p: (i64, String)| (p.0, p.1@)),
            default_value: opt_text(self.default_value),
        }
    }
}

/// The contents of `FNC_VALUES`.
pub ghost struct FncValuesModel {
    pub position: u16,
    pub data_type: A2lDataType,
    pub index_mode: Seq<char>,
    pub address_type: Seq<char>,
}

impl View for A2lFncValues {
    type V = FncValuesModel;

    open spec fn view(&self) -> FncValuesModel {
        FncValuesModel {
            position: self.position,
            data_type: self.data_type,
            index_mode: self.index_mode@,
            address_type: self.address_type@,
        }
    }
}

/// The contents of a `RECORD_LAYOUT` block: name, function values and the
/// static flag, and whether every other entry is absent.
pub ghost struct RecordLayoutModel {
    pub name: Seq<char>,
    pub fnc_values: Option<FncValuesModel>,
    pub static_record_layout: bool,
    pub others_default: bool,
}

impl View for A2lRecordLayout {
    type V = RecordLayoutModel;

    open spec fn view(&self) -> RecordLayoutModel {
        RecordLayoutModel {
            name: self.name@,
            fnc_values: match self.fnc_values {
                Some(f) => Some(f@),
                None => None,
            },
            static_record_layout: self.static_record_layout,
            others_default: self.identification is None && self.axis_pts_x is None
                && self.axis_pts_y is None && self.axis_pts_z is None && self.axis_pts_4 is None
                && self.axis_pts_5 is None && self.no_axis_pts_x is None && self.no_axis_pts_y is None
                && self.no_axis_pts_z is None && self.fix_no_axis_pts_x is None
                && self.fix_no_axis_pts_y is None && self.fix_no_axis_pts_z is None
                && self.src_addr_x is None && self.src_addr_y is None && self.src_addr_z is None
                && self.rip_addr_w is None && self.rip_addr_x is None && self.rip_addr_y is None
                && self.rip_addr_z is None && self.shift_op_x is None && self.shift_op_y is None
                && self.shift_op_z is None && self.offset_x is None && self.offset_y is None
                && self.offset_z is None && self.dist_op_x is None && self.dist_op_y is None
                && self.dist_op_z is None && self.axis_rescale_x is None && self.reserved@.len() == 0
                && self.alignment_byte is None && self.alignment_word is None
                && self.alignment_long is None && self.alignment_float32 is None
                && self.alignment_float64 is None && self.alignment_int64 is None,
        }
    }
}

/// The contents of a `FUNCTION` block.
pub ghost struct FunctionModel {
    pub name: Seq<char>,
    pub long_identifier: Seq<char>,
    pub version: Option<Seq<char>>,
    pub in_measurement: Seq<Seq<char>>,
    pub out_measurement: Seq<Seq<char>>,
    pub loc_measurement: Seq<Seq<char>>,
    pub def_characteristic: Seq<Seq<char>>,
    pub ref_characteristic: Seq<Seq<char>>,
    pub sub_function: Seq<Seq<char>>,
    pub annotations: Seq<AnnotationModel>,
    pub if_data: Seq<IfDataModel>,
}

impl View for A2lFunction {
    type V = FunctionModel;

    open spec fn view(&self) -> FunctionModel {
        FunctionModel {
            name: self.name@,
            long_identifier: self.long_identifier@,
            version: opt_text(self.version),
            in_measurement: texts(self.in_measurement@),
            out_measurement: texts(self.out_measurement@),
            loc_measurement: texts(self.loc_measurement@),
            def_characteristic: texts(self.def_characteristic@),
            ref_characteristic: texts(self.ref_characteristic@),
            sub_function: texts(self.sub_function@),
            annotations: annotations_view(self.annotations@),
            if_data: if_data_view(self.if_data@),
        }
    }
}

/// The contents of a `GROUP` block.
pub ghost struct GroupModel {
    pub name: Seq<char>,
    pub long_identifier: Seq<char>,
    pub root: bool,
    pub ref_characteristic: Seq<Seq<char>>,
    pub ref_measurement: Seq<Seq<char>>,
    pub sub_group: Seq<Seq<char>>,
    pub annotations: Seq<AnnotationModel>,
    pub if_data: Seq<IfDataModel>,
}

impl View for A2lGroup {
    type V = GroupModel;

    open spec fn view(&self) -> GroupModel {
        GroupModel {
            name: self.name@,
            long_identifier: self.long_identifier@,
            root: self.root,
            ref_characteristic: texts(self.ref_characteristic@),
            ref_measurement: texts(self.ref_measurement@),
            sub_group: texts(self.sub_group@),
            annotations: annotations_view(self.annotations@),
            if_data: if_data_view(self.if_data@),
        }
    }
}


/// UNIT - physical unit definition.
#[derive(Debug, Clone, PartialEq, Eq, Default)]
pub struct A2lUnit {
    /// Name
    pub name: String,
    /// Long identifier
    pub long_identifier: String,
    /// Display string
    pub display: String,
    /// Unit type (DERIVED, EXTENDED_SI)
    pub unit_type: String,
    /// Reference unit (for derived units)
    pub ref_unit: Option<String>,
    /// SI exponents (length, mass, time, current, temperature, amount, luminosity)
    pub si_exponents: Option<(i8, i8, i8, i8, i8, i8, i8)>,
    /// Unit conversion (slope, offset), as decimal text
    pub unit_conversion: Option<(String, String)>,
}

/// The contents of a `UNIT` block.
pub ghost struct UnitModel {
    pub name: Seq<char>,
    pub long_identifier: Seq<char>,
    pub display: Seq<char>,
    pub unit_type: Seq<char>,
    pub ref_unit: Option<Seq<char>>,
    pub si_exponents: Option<(i8, i8, i8, i8, i8, i8, i8)>,
    pub unit_conversion: Option<(Seq<char>, Seq<char>)>,
}

impl View for A2lUnit {
    type V = UnitModel;

    open spec fn view(&self) -> UnitModel {
        UnitModel {
            name: self.name@,
            long_identifier: self.long_identifier@,
            display: self.display@,
            unit_type: self.unit_type@,
            ref_unit: opt_text(self.ref_unit),
            si_exponents: self.si_exponents,
            unit_conversion: opt_pair(self.unit_conversion),
        }
    }
}

/// COMPU_TAB - computation table (numeric).
#[derive(Debug, Clone, PartialEq, Eq, Default)]
pub struct A2lCompuTab {
    /// Name
    pub name: String,
    /// Long identifier
    pub long_identifier: String,
    /// Conversion type (TAB_INTP or TAB_NOINTP)
    pub conversion_type: CompuMethodType,
    /// Number of value pairs
    pub number_value_pairs: u16,
    /// Value pairs (input, output), as decimal text
    pub values: Vec<(String, String)>,
    /// Default value (for out-of-range), as decimal text
    pub default_value: Option<String>,
    /// Default value numeric, as decimal text
    pub default_value_numeric: Option<String>,
}

/// The contents of a `COMPU_TAB` block.
pub ghost struct CompuTabModel {
    pub name: Seq<char>,
    pub long_identifier: Seq<char>,
    pub conversion_type: CompuMethodType,
    pub number_value_pairs: u16,
    pub values: Seq<(Seq<char>, Seq<char>)>,
    pub default_value: Option<Seq<char>>,
    pub default_value_numeric: Option<Seq<char>>,
}

impl View for A2lCompuTab {
    type V = CompuTabModel;

    open spec fn view(&self) -> CompuTabModel {
        CompuTabModel {
            name: self.name@,
            long_identifier: self.long_identifier@,
            conversion_type: self.conversion_type,
            number_value_pairs: self.number_value_pairs,
            values: self.values@.map_values(|p: (String, String)| (p.0@, p.1@)),
            default_value: opt_text(self.default_value),
            default_value_numeric: opt_text(self.default_value_numeric),
        }
    }
}

/// COMPU_VTAB_RANGE - verbal table with ranges.
#[derive(Debug, Clone, PartialEq, Eq, Default)]
pub struct A2lCompuVtabRange {
    /// Name
    pub name: String,
    /// Long identifier
    pub long_identifier: String,
    /// Number of value triples
    pub number_value_triples: u16,
    /// Value triples (lower, upper, string); the bounds as decimal text
    pub values: Vec<(String, String, String)>,
    /// Default value string
    pub default_value: Option<String>,
}

/// COMPU_METHOD - computation/conversion method.
#[derive(Debug, Clone, PartialEq, Eq, Default)]
pub struct A2lCompuMethod {
    /// Name
    pub name: String,
    /// Long identifier
    pub long_identifier: String,
    /// Conversion type
    pub conversion_type: CompuMethodType,
    /// Display format (C printf style)
    pub format: String,
    /// Unit string
    pub unit: String,
    /// Coefficients for LINEAR (a, b) where y = ax + b, as decimal text
    pub coeffs_linear: Option<(String, String)>,
    /// Coefficients for RAT_FUNC (a, b, c, d, e, f), as decimal text
    pub coeffs: Option<(String, String, String, String, String, String)>,
    /// Reference to computation table
    pub compu_tab_ref: Option<String>,
    /// Formula string
    pub formula: Option<String>,
    /// Inverse formula string
    pub formula_inv: Option<String>,
    /// Reference to unit definition
    pub ref_unit: Option<String>,
    /// Status string reference (for split numeric/verbal)
    pub status_string_ref: Option<String>,
}

/// The six coefficients of a rational function, as text.
pub type CoeffsModel = (Seq<char>, Seq<char>, Seq<char>, Seq<char>, Seq<char>, Seq<char>);

/// The contents of a `COMPU_METHOD` block.
pub ghost struct CompuMethodModel {
    pub name: Seq<char>,
    pub long_identifier: Seq<char>,
    pub conversion_type: CompuMethodType,
    pub format: Seq<char>,
    pub unit: Seq<char>,
    pub coeffs_linear: Option<(Seq<char>, Seq<char>)>,
    pub coeffs: Option<CoeffsModel>,
    pub compu_tab_ref: Option<Seq<char>>,
    pub formula: Option<Seq<char>>,
    pub formula_inv: Option<Seq<char>>,
    pub ref_unit: Option<Seq<char>>,
    pub status_string_ref: Option<Seq<char>>,
}

impl View for A2lCompuMethod {
    type V = CompuMethodModel;

    open spec fn view(&self) -> CompuMethodModel {
        CompuMethodModel {
            name: self.name@,
            long_identifier: self.long_identifier@,
            conversion_type: self.conversion_type,
            format: self.format@,
            unit: self.unit@,
            coeffs_linear: opt_pair(self.coeffs_linear),
            coeffs: match self.coeffs {
                Some((a, b, c, d, e, f)) => Some((a@, b@, c@, d@, e@, f@)),
                None => None,
            },
            compu_tab_ref: opt_text(self.compu_tab_ref),
            formula: opt_text(self.formula),
            formula_inv: opt_text(self.formula_inv),
            ref_unit: opt_text(self.ref_unit),
            status_string_ref: opt_text(self.status_string_ref),
        }
    }
}

/// A computation method with no coefficients, table, formula or unit reference.
pub open spec fn bare_compu_method(
    name: Seq<char>,
    long_identifier: Seq<char>,
    conversion_type: CompuMethodType,
    format: Seq<char>,
    unit: Seq<char>,
) -> CompuMethodModel {
    CompuMethodModel {
        name,
        long_identifier,
        conversion_type,
        format,
        unit,
        coeffs_linear: None,
        coeffs: None,
        compu_tab_ref: None,
        formula: None,
        formula_inv: None,
        ref_unit: None,
        status_string_ref: None,
    }
}

impl A2lCompuMethod {
    /// Create a new computation method, shown with `%.3f` and no unit.
    pub fn new(name: &str, description: &str, conv_type: CompuMethodType) -> (r: Self)
        ensures
            r@ == bare_compu_method(name@, description@, conv_type, "%.3f"@, Seq::empty()),
    {
        A2lCompuMethod {
            name: name.to_string(),
            long_identifier: description.to_string(),
            conversion_type: conv_type,
            format: "%.3f".to_string(),
            unit: String::new(),
            coeffs_linear: None,
            coeffs: None,
            compu_tab_ref: None,
            formula: None,
            formula_inv: None,
            ref_unit: None,
            status_string_ref: None,
        }
    }

    /// Create an identical (no conversion) method.
    pub fn identical(name: &str, description: &str) -> (r: Self)
        ensures
            r@ == bare_compu_method(name@, description@, CompuMethodType::Identical, "%.3f"@, Seq::empty()),
    {
        Self::new(name, description, CompuMethodType::Identical)
    }

    /// Create a linear conversion method with the given slope and offset
    /// (decimal text).
    pub fn linear(name: &str, description: &str, slope: &str, offset: &str) -> (r: Self)
        ensures
            r@ == (CompuMethodModel {
                coeffs_linear: Some((slope@, offset@)),
                ..bare_compu_method(name@, description@, CompuMethodType::Linear, "%.3f"@, Seq::empty())
            }),
    {
        let mut cm = Self::new(name, description, CompuMethodType::Linear);
        cm.coeffs_linear = Some((slope.to_string(), offset.to_string()));
        cm
    }

    /// Set unit.
    pub fn with_unit(self, unit: &str) -> (r: Self)
        ensures
            r@ == (CompuMethodModel { unit: unit@, ..self@ }),
    {
        let mut s = self;
        s.unit = unit.to_string();
        s
    }

    /// Set format.
    pub fn with_format(self, format: &str) -> (r: Self)
        ensures
            r@ == (CompuMethodModel { format: format@, ..self@ }),
    {
        let mut s = self;
        s.format = format.to_string();
        s
    }
}


/// AXIS_DESCR - axis description within a characteristic.
#[derive(Debug, Clone, PartialEq, Eq, Default)]
pub struct A2lAxisDescr {
    /// Axis type
    pub axis_type: AxisType,
    /// Input quantity (measurement reference)
    pub input_quantity: String,
    /// Computation method reference
    pub compu_method: String,
    /// Maximum number of axis points
    pub max_axis_points: u16,
    /// Lower limit, as decimal text
    pub lower_limit: String,
    /// Upper limit, as decimal text
    pub upper_limit: String,
    /// Extended limits, as decimal text
    pub extended_limits: Option<(String, String)>,
    /// Byte order override
    pub byte_order: Option<A2lByteOrder>,
    /// Deposit mode
    pub deposit: Option<DepositMode>,
    /// Display format
    pub format: Option<String>,
    /// Physical unit override
    pub phys_unit: Option<String>,
    /// Read-only flag
    pub read_only: bool,
    /// Step size, as decimal text
    pub step_size: Option<String>,
    /// Maximum gradient, as decimal text
    pub max_grad: Option<String>,
    /// Monotony constraint
    pub monotony: Option<String>,
    /// Axis points reference (for COM_AXIS, RES_AXIS)
    pub axis_pts_ref: Option<String>,
    /// Curve axis reference (for CURVE_AXIS)
    pub curve_axis_ref: Option<String>,
    /// Fix axis parameters (offset, shift, count)
    pub fix_axis_par: Option<(String, String, u16)>,
    /// Fix axis parameter distribution (offset, distance, count)
    pub fix_axis_par_dist: Option<(String, String, u16)>,
    /// Fix axis parameter list (explicit values)
    pub fix_axis_par_list: Option<Vec<String>>,
    /// Annotations
    pub annotations: Vec<A2lAnnotation>,
}

/// The contents of an `AXIS_DESCR` block that the file format sets, and
/// whether all other entries are absent.
pub ghost struct AxisDescrModel {
    pub axis_type: AxisType,
    pub input_quantity: Seq<char>,
    pub compu_method: Seq<char>,
    pub max_axis_points: u16,
    pub lower_limit: Seq<char>,
    pub upper_limit: Seq<char>,
    pub extended_limits: Option<(Seq<char>, Seq<char>)>,
    pub read_only: bool,
    pub axis_pts_ref: Option<Seq<char>>,
    pub curve_axis_ref: Option<Seq<char>>,
    pub others_default: bool,
}

impl View for A2lAxisDescr {
    type V = AxisDescrModel;

    open spec fn view(&self) -> AxisDescrModel {
        AxisDescrModel {
            axis_type: self.axis_type,
            input_quantity: self.input_quantity@,
            compu_method: self.compu_method@,
            max_axis_points: self.max_axis_points,
            lower_limit: self.lower_limit@,
            upper_limit: self.upper_limit@,
            extended_limits: opt_pair(self.extended_limits),
            read_only: self.read_only,
            axis_pts_ref: opt_text(self.axis_pts_ref),
            curve_axis_ref: opt_text(self.curve_axis_ref),
            others_default: self.byte_order is None && self.deposit is None && self.format is None
                && self.phys_unit is None && self.step_size is None && self.max_grad is None
                && self.monotony is None && self.fix_axis_par is None && self.fix_axis_par_dist is None
                && self.fix_axis_par_list is None && self.annotations@.len() == 0,
        }
    }
}

/// AXIS_PTS - standalone axis points definition.
#[derive(Debug, Clone, PartialEq, Eq, Default)]
pub struct A2lAxisPts {
    /// Name
    pub name: String,
    /// Long identifier
    pub long_identifier: String,
    /// ECU address
    pub address: u64,
    /// Input quantity reference
    pub input_quantity: String,
    /// Record layout reference
    pub record_layout: String,
    /// Maximum difference, as decimal text
    pub max_diff: String,
    /// Computation method reference
    pub compu_method: String,
    /// Maximum number of axis points
    pub max_axis_points: u16,
    /// Lower limit, as decimal text
    pub lower_limit: String,
    /// Upper limit, as decimal text
    pub upper_limit: String,
    /// Extended limits, as decimal text
    pub extended_limits: Option<(String, String)>,
    /// Byte order override
    pub byte_order: Option<A2lByteOrder>,
    /// Deposit mode
    pub deposit: Option<DepositMode>,
    /// Display format
    pub format: Option<String>,
    /// Physical unit override
    pub phys_unit: Option<String>,
    /// Display identifier
    pub display_identifier: Option<String>,
    /// Read-only flag
    pub read_only: bool,
    /// Step size, as decimal text
    pub step_size: Option<String>,
    /// Guard rails flag
    pub guard_rails: bool,
    /// Monotony constraint
    pub monotony: Option<String>,
    /// Symbol link
    pub symbol_link: Option<(String, i64)>,
    /// Calibration access
    pub calibration_access: Option<String>,
    /// ECU address extension
    pub ecu_address_extension: Option<u8>,
    /// Function list references
    pub function_list: Vec<String>,
    /// IF_DATA sections
    pub if_data: Vec<A2lIfData>,
    /// Annotations
    pub annotations: Vec<A2lAnnotation>,
    /// Memory segment reference
    pub ref_memory_segment: Option<String>,
    /// Max refresh rate
    pub max_refresh: Option<(u16, u32)>,
}

/// The contents of an `AXIS_PTS` block that the file format sets, and
/// whether all other entries are absent.
pub ghost struct AxisPtsModel {
    pub name: Seq<char>,
    pub long_identifier: Seq<char>,
    pub address: u64,
    pub input_quantity: Seq<char>,
    pub record_layout: Seq<char>,
    pub max_diff: Seq<char>,
    pub compu_method: Seq<char>,
    pub max_axis_points: u16,
    pub lower_limit: Seq<char>,
    pub upper_limit: Seq<char>,
    pub read_only: bool,
    pub guard_rails: bool,
    pub others_default: bool,
}

impl View for A2lAxisPts {
    type V = AxisPtsModel;

    open spec fn view(&self) -> AxisPtsModel {
        AxisPtsModel {
            name: self.name@,
            long_identifier: self.long_identifier@,
            address: self.address,
            input_quantity: self.input_quantity@,
            record_layout: self.record_layout@,
            max_diff: self.max_diff@,
            compu_method: self.compu_method@,
            max_axis_points: self.max_axis_points,
            lower_limit: self.lower_limit@,
            upper_limit: self.upper_limit@,
            read_only: self.read_only,
            guard_rails: self.guard_rails,
            others_default: self.extended_limits is None && self.byte_order is None
                && self.deposit is None && self.format is None && self.phys_unit is None
                && self.display_identifier is None && self.step_size is None && self.monotony is None
                && self.symbol_link is None && self.calibration_access is None
                && self.ecu_address_extension is None && self.function_list@.len() == 0
                && self.if_data@.len() == 0 && self.annotations@.len() == 0
                && self.ref_memory_segment is None && self.max_refresh is None,
        }
    }
}

/// MEASUREMENT - recordable ECU variable.
#[derive(Debug, Clone, PartialEq, Eq, Default)]
pub struct A2lMeasurement {
    /// Measurement name (identifier)
    pub name: String,
    /// Long identifier/description
    pub long_identifier: String,
    /// Data type
    pub data_type: A2lDataType,
    /// Reference to computation method
    pub compu_method: String,
    /// Resolution (smallest change), as decimal text
    pub resolution: String,
    /// Accuracy, as decimal text
    pub accuracy: String,
    /// Lower limit, as decimal text
    pub lower_limit: String,
    /// Upper limit, as decimal text
    pub upper_limit: String,
    /// ECU address
    pub ecu_address: Option<u64>,
    /// ECU address extension
    pub ecu_address_extension: Option<u8>,
    /// Byte order override
    pub byte_order: Option<A2lByteOrder>,
    /// Bit mask
    pub bit_mask: Option<u64>,
    /// Array size (for arrays)
    pub array_size: Option<u32>,
    /// Matrix dimensions
    pub matrix_dim: Option<Vec<u32>>,
    /// Display format (C printf style)
    pub format: Option<String>,
    /// Physical unit override
    pub phys_unit: Option<String>,
    /// Display identifier
    pub display_identifier: Option<String>,
    /// Read-write flag
    pub read_write: bool,
    /// Discrete flag (no interpolation)
    pub discrete: bool,
    /// Symbol link (linker map reference)
    pub symbol_link: Option<(String, i64)>,
    /// Function list references
    pub function_list: Vec<String>,
    /// IF_DATA sections
    pub if_data: Vec<A2lIfData>,
    /// Annotations
    pub annotations: Vec<A2lAnnotation>,
    /// Max refresh rate
    pub max_refresh: Option<(u16, u32)>,
    /// Virtual measurement formula inputs
    pub virtual_inputs: Vec<String>,
}

/// The dimensions of an optional matrix.
pub open spec fn opt_dims(o: Option<Vec<u32>>) -> Option<Seq<u32>> {
    match o {
        Some(v) => Some(v@),
        None => None,
    }
}

/// The contents of a `MEASUREMENT` block that the file format sets, and
/// whether all other entries are absent.
pub ghost struct MeasurementModel {
    pub name: Seq<char>,
    pub long_identifier: Seq<char>,
    pub data_type: A2lDataType,
    pub compu_method: Seq<char>,
    pub resolution: Seq<char>,
    pub accuracy: Seq<char>,
    pub lower_limit: Seq<char>,
    pub upper_limit: Seq<char>,
    pub ecu_address: Option<u64>,
    pub ecu_address_extension: Option<u8>,
    pub byte_order: Option<A2lByteOrder>,
    pub bit_mask: Option<u64>,
    pub matrix_dim: Option<Seq<u32>>,
    pub format: Option<Seq<char>>,
    pub phys_unit: Option<Seq<char>>,
    pub display_identifier: Option<Seq<char>>,
    pub read_write: bool,
    pub discrete: bool,
    pub if_data: Seq<IfDataModel>,
    pub annotations: Seq<AnnotationModel>,
    pub others_default: bool,
}

impl View for A2lMeasurement {
    type V = MeasurementModel;

    open spec fn view(&self) -> MeasurementModel {
        MeasurementModel {
            name: self.name@,
            long_identifier: self.long_identifier@,
            data_type: self.data_type,
            compu_method: self.compu_method@,
            resolution: self.resolution@,
            accuracy: self.accuracy@,
            lower_limit: self.lower_limit@,
            upper_limit: self.upper_limit@,
            ecu_address: self.ecu_address,
            ecu_address_extension: self.ecu_address_extension,
            byte_order: self.byte_order,
            bit_mask: self.bit_mask,
            matrix_dim: opt_dims(self.matrix_dim),
            format: opt_text(self.format),
            phys_unit: opt_text(self.phys_unit),
            display_identifier: opt_text(self.display_identifier),
            read_write: self.read_write,
            discrete: self.discrete,
            if_data: if_data_view(self.if_data@),
            annotations: annotations_view(self.annotations@),
            others_default: self.array_size is None && self.symbol_link is None
                && self.function_list@.len() == 0 && self.max_refresh is None
                && self.virtual_inputs@.len() == 0,
        }
    }
}

/// A measurement with the given header values and nothing else set.
pub open spec fn plain_measurement(
    name: Seq<char>,
    long_identifier: Seq<char>,
    data_type: A2lDataType,
    compu_method: Seq<char>,
    resolution: Seq<char>,
    accuracy: Seq<char>,
    lower_limit: Seq<char>,
    upper_limit: Seq<char>,
) -> MeasurementModel {
    MeasurementModel {
        name,
        long_identifier,
        data_type,
        compu_method,
        resolution,
        accuracy,
        lower_limit,
        upper_limit,
        ecu_address: None,
        ecu_address_extension: None,
        byte_order: None,
        bit_mask: None,
        matrix_dim: None,
        format: None,
        phys_unit: None,
        display_identifier: None,
        read_write: false,
        discrete: false,
        if_data: Seq::empty(),
        annotations: Seq::empty(),
        others_default: true,
    }
}

impl A2lMeasurement {
    /// A measurement with the given header values and nothing else set.
    pub(crate) fn plain(
        name: String,
        long_identifier: String,
        data_type: A2lDataType,
        compu_method: String,
        resolution: String,
        accuracy: String,
        lower_limit: String,
        upper_limit: String,
    ) -> (r: Self)
        ensures
            r@ == plain_measurement(name@, long_identifier@, data_type, compu_method@, resolution@,
                accuracy@, lower_limit@, upper_limit@),
    {
        let r = A2lMeasurement {
            name,
            long_identifier,
            data_type,
            compu_method,
            resolution,
            accuracy,
            lower_limit,
            upper_limit,
            ecu_address: None,
            ecu_address_extension: None,
            byte_order: None,
            bit_mask: None,
            array_size: None,
            matrix_dim: None,
            format: None,
            phys_unit: None,
            display_identifier: None,
            read_write: false,
            discrete: false,
            symbol_link: None,
            function_list: Vec::new(),
            if_data: Vec::new(),
            annotations: Vec::new(),
            max_refresh: None,
            virtual_inputs: Vec::new(),
        };
        proof {
            assert(if_data_view(r.if_data@) =~= Seq::empty());
            assert(annotations_view(r.annotations@) =~= Seq::empty());
        }
        r
    }

    /// Create a new measurement: no computation method (`NO_COMPU_METHOD`),
    /// all numbers zero, nothing else set.
    pub fn new(name: &str, description: &str, data_type: A2lDataType) -> (r: Self)
        ensures
            r@ == plain_measurement(name@, description@, data_type, "NO_COMPU_METHOD"@, "0"@, "0"@,
                "0"@, "0"@),
    {
        Self::plain(
            name.to_string(),
            description.to_string(),
            data_type,
            "NO_COMPU_METHOD".to_string(),
            "0".to_string(),
            "0".to_string(),
            "0".to_string(),
            "0".to_string(),
        )
    }

    /// Set ECU address.
    pub fn with_address(self, address: u64) -> (r: Self)
        ensures
            r@ == (MeasurementModel { ecu_address: Some(address), ..self@ }),
    {
        let mut s = self;
        s.ecu_address = Some(address);
        s
    }

    /// Set limits (decimal text).
    pub fn with_limits(self, lower: &str, upper: &str) -> (r: Self)
        ensures
            r@ == (MeasurementModel { lower_limit: lower@, upper_limit: upper@, ..self@ }),
    {
        let mut s = self;
        s.lower_limit = lower.to_string();
        s.upper_limit = upper.to_string();
        s
    }

    /// Set computation method reference.
    pub fn with_compu_method(self, name: &str) -> (r: Self)
        ensures
            r@ == (MeasurementModel { compu_method: name@, ..self@ }),
    {
        let mut s = self;
        s.compu_method = name.to_string();
        s
    }
}


/// CHARACTERISTIC - tunable parameter.
#[derive(Debug, Clone, PartialEq, Eq, Default)]
pub struct A2lCharacteristic {
    /// Characteristic name
    pub name: String,
    /// Long identifier/description
    pub long_identifier: String,
    /// Characteristic type
    pub char_type: CharacteristicType,
    /// ECU address
    pub address: u64,
    /// Record layout reference
    pub record_layout: String,
    /// Maximum difference (for calibration), as decimal text
    pub max_diff: String,
    /// Computation method reference
    pub compu_method: String,
    /// Lower limit, as decimal text
    pub lower_limit: String,
    /// Upper limit, as decimal text
    pub upper_limit: String,
    /// Extended limits (lower, upper), as decimal text
    pub extended_limits: Option<(String, String)>,
    /// Byte order override
    pub byte_order: Option<A2lByteOrder>,
    /// Bit mask
    pub bit_mask: Option<u64>,
    /// Display format
    pub format: Option<String>,
    /// Physical unit override
    pub phys_unit: Option<String>,
    /// Display identifier
    pub display_identifier: Option<String>,
    /// Read-only flag
    pub read_only: bool,
    /// Discrete flag
    pub discrete: bool,
    /// Guard rails flag
    pub guard_rails: bool,
    /// Step size for calibration, as decimal text
    pub step_size: Option<String>,
    /// Number of elements (for arrays/strings)
    pub number: Option<u32>,
    /// Matrix dimensions
    pub matrix_dim: Option<Vec<u32>>,
    /// Axis descriptions (for curves/maps)
    pub axis_descr: Vec<A2lAxisDescr>,
    /// Symbol link
    pub symbol_link: Option<(String, i64)>,
    /// Calibration access type
    pub calibration_access: Option<String>,
    /// ECU address extension
    pub ecu_address_extension: Option<u8>,
    /// Function list references
    pub function_list: Vec<String>,
    /// IF_DATA sections
    pub if_data: Vec<A2lIfData>,
    /// Annotations
    pub annotations: Vec<A2lAnnotation>,
    /// Dependent characteristic formula
    pub dependent_characteristic: Option<(String, Vec<String>)>,
    /// Virtual characteristic formula
    pub virtual_characteristic: Option<(String, Vec<String>)>,
    /// Map list (for cuboids)
    pub map_list: Vec<String>,
    /// Comparison quantity reference
    pub comparison_quantity: Option<String>,
    /// Memory segment reference
    pub ref_memory_segment: Option<String>,
    /// Max refresh rate
    pub max_refresh: Option<(u16, u32)>,
}

/// The axis descriptions of a list.
pub open spec fn axes_view(v: Seq<A2lAxisDescr>) -> Seq<AxisDescrModel> {
    v.map_values(|a: A2lAxisDescr| a@)
}

/// The contents of a `CHARACTERISTIC` block that the file format sets, and
/// whether all other entries are absent.
pub ghost struct CharacteristicModel {
    pub name: Seq<char>,
    pub long_identifier: Seq<char>,
    pub char_type: CharacteristicType,
    pub address: u64,
    pub record_layout: Seq<char>,
    pub max_diff: Seq<char>,
    pub compu_method: Seq<char>,
    pub lower_limit: Seq<char>,
    pub upper_limit: Seq<char>,
    pub extended_limits: Option<(Seq<char>, Seq<char>)>,
    pub format: Option<Seq<char>>,
    pub phys_unit: Option<Seq<char>>,
    pub read_only: bool,
    pub discrete: bool,
    pub guard_rails: bool,
    pub step_size: Option<Seq<char>>,
    pub number: Option<u32>,
    pub matrix_dim: Option<Seq<u32>>,
    pub axis_descr: Seq<AxisDescrModel>,
    pub if_data: Seq<IfDataModel>,
    pub annotations: Seq<AnnotationModel>,
    pub others_default: bool,
}

impl View for A2lCharacteristic {
    type V = CharacteristicModel;

    open spec fn view(&self) -> CharacteristicModel {
        CharacteristicModel {
            name: self.name@,
            long_identifier: self.long_identifier@,
            char_type: self.char_type,
            address: self.address,
            record_layout: self.record_layout@,
            max_diff: self.max_diff@,
            compu_method: self.compu_method@,
            lower_limit: self.lower_limit@,
            upper_limit: self.upper_limit@,
            extended_limits: opt_pair(self.extended_limits),
            format: opt_text(self.format),
            phys_unit: opt_text(self.phys_unit),
            read_only: self.read_only,
            discrete: self.discrete,
            guard_rails: self.guard_rails,
            step_size: opt_text(self.step_size),
            number: self.number,
            matrix_dim: opt_dims(self.matrix_dim),
            axis_descr: axes_view(self.axis_descr@),
            if_data: if_data_view(self.if_data@),
            annotations: annotations_view(self.annotations@),
            others_default: self.byte_order is None && self.bit_mask is None
                && self.display_identifier is None && self.symbol_link is None
                && self.calibration_access is None && self.ecu_address_extension is None
                && self.function_list@.len() == 0 && self.dependent_characteristic is None
                && self.virtual_characteristic is None && self.map_list@.len() == 0
                && self.comparison_quantity is None && self.ref_memory_segment is None
                && self.max_refresh is None,
        }
    }
}

/// A characteristic with the given header values and nothing else set.
pub open spec fn plain_characteristic(
    name: Seq<char>,
    long_identifier: Seq<char>,
    char_type: CharacteristicType,
    address: u64,
    record_layout: Seq<char>,
    max_diff: Seq<char>,
    compu_method: Seq<char>,
    lower_limit: Seq<char>,
    upper_limit: Seq<char>,
) -> CharacteristicModel {
    CharacteristicModel {
        name,
        long_identifier,
        char_type,
        address,
        record_layout,
        max_diff,
        compu_method,
        lower_limit,
        upper_limit,
        extended_limits: None,
        format: None,
        phys_unit: None,
        read_only: false,
        discrete: false,
        guard_rails: false,
        step_size: None,
        number: None,
        matrix_dim: None,
        axis_descr: Seq::empty(),
        if_data: Seq::empty(),
        annotations: Seq::empty(),
        others_default: true,
    }
}

impl A2lCharacteristic {
    /// A characteristic with the given header values and nothing else set.
    pub(crate) fn plain(
        name: String,
        long_identifier: String,
        char_type: CharacteristicType,
        address: u64,
        record_layout: String,
        max_diff: String,
        compu_method: String,
        lower_limit: String,
        upper_limit: String,
    ) -> (r: Self)
        ensures
            r@ == plain_characteristic(name@, long_identifier@, char_type, address, record_layout@,
                max_diff@, compu_method@, lower_limit@, upper_limit@),
    {
        let r = A2lCharacteristic {
            name,
            long_identifier,
            char_type,
            address,
            record_layout,
            max_diff,
            compu_method,
            lower_limit,
            upper_limit,
            extended_limits: None,
            byte_order: None,
            bit_mask: None,
            format: None,
            phys_unit: None,
            display_identifier: None,
            read_only: false,
            discrete: false,
            guard_rails: false,
            step_size: None,
            number: None,
            matrix_dim: None,
            axis_descr: Vec::new(),
            symbol_link: None,
            calibration_access: None,
            ecu_address_extension: None,
            function_list: Vec::new(),
            if_data: Vec::new(),
            annotations: Vec::new(),
            dependent_characteristic: None,
            virtual_characteristic: None,
            map_list: Vec::new(),
            comparison_quantity: None,
            ref_memory_segment: None,
            max_refresh: None,
        };
        proof {
            assert(axes_view(r.axis_descr@) =~= Seq::empty());
            assert(if_data_view(r.if_data@) =~= Seq::empty());
            assert(annotations_view(r.annotations@) =~= Seq::empty());
        }
        r
    }

    /// Create a new characteristic: no computation method
    /// (`NO_COMPU_METHOD`), all numbers zero, nothing else set.
    pub fn new(
        name: &str,
        description: &str,
        char_type: CharacteristicType,
        address: u64,
        record_layout: &str,
    ) -> (r: Self)
        ensures
            r@ == plain_characteristic(name@, description@, char_type, address, record_layout@, "0"@,
                "NO_COMPU_METHOD"@, "0"@, "0"@),
    {
        Self::plain(
            name.to_string(),
            description.to_string(),
            char_type,
            address,
            record_layout.to_string(),
            "0".to_string(),
            "NO_COMPU_METHOD".to_string(),
            "0".to_string(),
            "0".to_string(),
        )
    }

    /// Set limits (decimal text).
    pub fn with_limits(self, lower: &str, upper: &str) -> (r: Self)
        ensures
            r@ == (CharacteristicModel { lower_limit: lower@, upper_limit: upper@, ..self@ }),
    {
        let mut s = self;
        s.lower_limit = lower.to_string();
        s.upper_limit = upper.to_string();
        s
    }

    /// Set computation method.
    pub fn with_compu_method(self, name: &str) -> (r: Self)
        ensures
            r@ == (CharacteristicModel { compu_method: name@, ..self@ }),
    {
        let mut s = self;
        s.compu_method = name.to_string();
        s
    }

    /// Add axis description.
    pub fn add_axis(&mut self, axis: A2lAxisDescr)
        ensures
            final(self)@ == (CharacteristicModel {
                axis_descr: old(self)@.axis_descr.push(axis@),
                ..old(self)@
            }),
    {
        self.axis_descr.push(axis);
        proof {
            assert(axes_view(self.axis_descr@) =~= axes_view(old(self).axis_descr@).push(axis@));
        }
    }
}

/// A2L Module - ECU description container.
#[derive(Debug, Clone, Default)]
pub struct A2lModule {
    /// Module name
    pub name: String,
    /// Long identifier/description
    pub long_identifier: String,
    /// Common module parameters
    pub mod_common: Option<A2lModCommon>,
    /// Module parameters
    pub mod_par: Option<A2lModPar>,
    /// Measurements (recordable variables)
    pub measurements: Vec<A2lMeasurement>,
    /// Characteristics (tunable parameters)
    pub characteristics: Vec<A2lCharacteristic>,
    /// Computation methods
    pub compu_methods: Vec<A2lCompuMethod>,
    /// Computation tables
    pub compu_tabs: Vec<A2lCompuTab>,
    /// Verbal computation tables
    pub compu_vtabs: Vec<A2lCompuVtab>,
    /// Record layouts
    pub record_layouts: Vec<A2lRecordLayout>,
    /// Axis points definitions
    pub axis_pts: Vec<A2lAxisPts>,
    /// Functions (grouping)
    pub functions: Vec<A2lFunction>,
    /// Groups
    pub groups: Vec<A2lGroup>,
    /// Units
    pub units: Vec<A2lUnit>,
    /// IF_DATA sections (interface configuration)
    pub if_data: Vec<A2lIfData>,
}

/// The contents of a `MODULE` block.
pub ghost struct ModuleModel {
    pub name: Seq<char>,
    pub long_identifier: Seq<char>,
    pub mod_common: Option<ModCommonModel>,
    pub mod_par: Option<ModParModel>,
    pub measurements: Seq<MeasurementModel>,
    pub characteristics: Seq<CharacteristicModel>,
    pub compu_methods: Seq<CompuMethodModel>,
    pub compu_tabs: Seq<CompuTabModel>,
    pub compu_vtabs: Seq<CompuVtabModel>,
    pub record_layouts: Seq<RecordLayoutModel>,
    pub axis_pts: Seq<AxisPtsModel>,
    pub functions: Seq<FunctionModel>,
    pub groups: Seq<GroupModel>,
    pub units: Seq<UnitModel>,
    pub if_data: Seq<IfDataModel>,
}

impl View for A2lModule {
    type V = ModuleModel;

    open spec fn view(&self) -> ModuleModel {
        ModuleModel {
            name: self.name@,
            long_identifier: self.long_identifier@,
            mod_common: match self.mod_common {
                Some(m) => Some(m@),
                None => None,
            },
            mod_par: match self.mod_par {
                Some(m) => Some(m@),
                None => None,
            },
            measurements: self.measurements@.map_values(|m: A2lMeasurement| m@),
            characteristics: self.characteristics@.map_values(|c: A2lCharacteristic| c@),
            compu_methods: self.compu_methods@.map_values(|c: A2lCompuMethod| c@),
            compu_tabs: self.compu_tabs@.map_values(|c: A2lCompuTab| c@),
            compu_vtabs: self.compu_vtabs@.map_values(|c: A2lCompuVtab| c@),
            record_layouts: self.record_layouts@.map_values(|r: A2lRecordLayout| r@),
            axis_pts: self.axis_pts@.map_values(|a: A2lAxisPts| a@),
            functions: self.functions@.map_values(|f: A2lFunction| f@),
            groups: self.groups@.map_values(|g: A2lGroup| g@),
            units: self.units@.map_values(|u: A2lUnit| u@),
            if_data: if_data_view(self.if_data@),
        }
    }
}

/// A2L Project - top-level container.
#[derive(Debug, Clone, Default)]
pub struct A2lProject {
    /// Project name
    pub name: String,
    /// Long identifier/description
    pub long_identifier: String,
    /// Header information
    pub header: Option<A2lHeader>,
    /// Modules (ECU descriptions)
    pub modules: Vec<A2lModule>,
}

/// The contents of a `PROJECT` block.
pub ghost struct ProjectModel {
    pub name: Seq<char>,
    pub long_identifier: Seq<char>,
    pub header: Option<HeaderModel>,
    pub modules: Seq<ModuleModel>,
}

impl View for A2lProject {
    type V = ProjectModel;

    open spec fn view(&self) -> ProjectModel {
        ProjectModel {
            name: self.name@,
            long_identifier: self.long_identifier@,
            header: match self.header {
                Some(h) => Some(h@),
                None => None,
            },
            modules: self.modules@.map_values(|m: A2lModule| m@),
        }
    }
}

/// A2L database: the versions and the project.
#[derive(Debug, Clone, Default)]
pub struct A2lDatabase {
    /// ASAP2 version
    pub asap2_version: Asap2Version,
    /// A2ML version (optional)
    pub a2ml_version: Option<Asap2Version>,
    /// Project definition
    pub project: A2lProject,
}

/// The contents of an A2L database.
pub ghost struct A2lDatabaseModel {
    pub asap2_version: Asap2Version,
    pub a2ml_version: Option<Asap2Version>,
    pub project: ProjectModel,
}

impl View for A2lDatabase {
    type V = A2lDatabaseModel;

    open spec fn view(&self) -> A2lDatabaseModel {
        A2lDatabaseModel {
            asap2_version: self.asap2_version,
            a2ml_version: self.a2ml_version,
            project: self.project@,
        }
    }
}

/// A database with version 0.0, no A2ML version and an empty, unnamed project.
pub open spec fn empty_a2l_database() -> A2lDatabaseModel {
    A2lDatabaseModel {
        asap2_version: Asap2Version { major: 0, minor: 0 },
        a2ml_version: None,
        project: ProjectModel {
            name: Seq::empty(),
            long_identifier: Seq::empty(),
            header: None,
            modules: Seq::empty(),
        },
    }
}

/// One kind of item of all modules, module by module.
pub open spec fn across_modules<T>(mods: Seq<A2lModule>, items: spec_fn(A2lModule) -> Seq<T>) -> Seq<T>
    decreases mods.len(),
{
    if mods.len() == 0 {
        Seq::empty()
    } else {
        across_modules(mods.drop_last(), items) + items(mods.last())
    }
}

/// The measurements of each module.
pub open spec fn measurement_items() -> spec_fn(A2lModule) -> Seq<A2lMeasurement> {
    |m: A2lModule| m.measurements@
}

/// The characteristics of each module.
pub open spec fn characteristic_items() -> spec_fn(A2lModule) -> Seq<A2lCharacteristic> {
    |m: A2lModule| m.characteristics@
}

/// The computation methods of each module.
pub open spec fn compu_method_items() -> spec_fn(A2lModule) -> Seq<A2lCompuMethod> {
    |m: A2lModule| m.compu_methods@
}

/// The position of the first item whose name is `name`.
pub open spec fn first_named<T>(v: Seq<T>, name_of: spec_fn(T) -> Seq<char>, name: Seq<char>) -> Option<int> {
    if exists|i: int| 0 <= i < v.len() && name_of(v[i]) == name {
        Some(choose|i: int| 0 <= i < v.len() && name_of(v[i]) == name
            && forall|j: int| 0 <= j < i ==> name_of(v[j]) != name)
    } else {
        None
    }
}

proof fn lemma_across_step<T>(mods: Seq<A2lModule>, items: spec_fn(A2lModule) -> Seq<T>, k: int)
    requires
        0 <= k < mods.len(),
    ensures
        across_modules(mods.take(k + 1), items) == across_modules(mods.take(k), items) + items(mods[k]),
{
    assert(mods.take(k + 1).drop_last() =~= mods.take(k));
}

proof fn lemma_across_prefix<T>(mods: Seq<A2lModule>, items: spec_fn(A2lModule) -> Seq<T>, k: int)
    requires
        0 <= k <= mods.len(),
    ensures
        across_modules(mods.take(k), items).len() <= across_modules(mods, items).len(),
        across_modules(mods.take(k), items) =~= across_modules(mods, items).take(
            across_modules(mods.take(k), items).len() as int,
        ),
    decreases mods.len(),
{
    if k == mods.len() {
        assert(mods.take(k) =~= mods);
    } else {
        lemma_across_prefix(mods.drop_last(), items, k);
        assert(mods.drop_last().take(k) =~= mods.take(k));
    }
}

/// The first item in `v` named `name` is at `i`, given that none before is.
pub proof fn lemma_first_named_at<T>(v: Seq<T>, name_of: spec_fn(T) -> Seq<char>, name: Seq<char>, i: int)
    requires
        0 <= i < v.len(),
        name_of(v[i]) == name,
        forall|j: int| 0 <= j < i ==> name_of(v[j]) != name,
    ensures
        first_named(v, name_of, name) == Some(i),
{
    let c = choose|c: int| 0 <= c < v.len() && name_of(v[c]) == name
        && forall|j: int| 0 <= j < c ==> name_of(v[j]) != name;
    assert(0 <= c < v.len() && name_of(v[c]) == name && forall|j: int| 0 <= j < c ==> name_of(v[j]) != name);
    if c < i {
        assert(name_of(v[c]) != name);
    } else if c > i {
        assert(name_of(v[i]) != name);
    }
}

proof fn lemma_first_named_from<T>(v: Seq<T>, name_of: spec_fn(T) -> Seq<char>, name: Seq<char>, k: int)
    requires
        0 <= k <= v.len(),
        forall|j: int| 0 <= j < k ==> name_of(v[j]) != name,
        exists|i: int| k <= i < v.len() && name_of(v[i]) == name,
    ensures
        exists|i: int| 0 <= i < v.len() && name_of(v[i]) == name && forall|j: int| 0 <= j < i ==> name_of(v[j]) != name,
    decreases v.len() - k,
{
    if name_of(v[k]) == name {
        assert(0 <= k < v.len() && name_of(v[k]) == name && forall|j: int| 0 <= j < k ==> name_of(v[j]) != name);
    } else {
        lemma_first_named_from(v, name_of, name, k + 1);
    }
}

/// Where there is a first item of a name, it is in range, has the name, and
/// none before it has.
pub proof fn lemma_first_named_found<T>(v: Seq<T>, name_of: spec_fn(T) -> Seq<char>, name: Seq<char>)
    ensures
        first_named(v, name_of, name) matches Some(i) ==> 0 <= i < v.len() && name_of(v[i]) == name && forall|j: int|
            0 <= j < i ==> name_of(v[j]) != name,
{
    if exists|i: int| 0 <= i < v.len() && name_of(v[i]) == name {
        lemma_first_named_from(v, name_of, name, 0);
    }
}

/// The name of each measurement.
pub open spec fn measurement_name() -> spec_fn(A2lMeasurement) -> Seq<char> {
    |m: A2lMeasurement| m.name@
}

/// The name of each characteristic.
pub open spec fn characteristic_name() -> spec_fn(A2lCharacteristic) -> Seq<char> {
    |c: A2lCharacteristic| c.name@
}

/// The name of each computation method.
pub open spec fn compu_method_name() -> spec_fn(A2lCompuMethod) -> Seq<char> {
    |c: A2lCompuMethod| c.name@
}

impl A2lDatabase {
    /// Create a new empty A2L database.
    pub fn new() -> (r: Self)
        ensures
            r@ == empty_a2l_database(),
    {
        let r = A2lDatabase {
            asap2_version: Asap2Version { major: 0, minor: 0 },
            a2ml_version: None,
            project: A2lProject {
                name: String::new(),
                long_identifier: String::new(),
                header: None,
                modules: Vec::new(),
            },
        };
        proof {
            assert(r.project@.modules =~= Seq::empty());
        }
        r
    }

    /// Find a measurement by name: the first of that name, module by module.
    pub fn find_measurement(&self, name: &str) -> (r: Option<&A2lMeasurement>)
        ensures
            ({
                let all = across_modules(self.project.modules@, measurement_items());
                match first_named(all, measurement_name(), name@) {
                    Some(i) => r == Some(&all[i]),
                    None => r is None,
                }
            }),
    {
        let key = name.to_string();
        let ghost items = measurement_items();
        let ghost name_of = measurement_name();
        let ghost mods = self.project.modules@;
        let ghost all = across_modules(mods, items);
        let mut k: usize = 0;
        while k < self.project.modules.len()
            invariant
                k <= mods.len(),
                items == measurement_items(),
                name_of == measurement_name(),
                mods == self.project.modules@,
                all == across_modules(mods, items),
                key@ == name@,
                forall|j: int| 0 <= j < across_modules(mods.take(k as int), items).len()
                    ==> name_of(all[j]) != name@,
            decreases self.project.modules.len() - k,
        {
            let module = &self.project.modules[k];
            proof {
                lemma_across_step(mods, items, k as int);
                lemma_across_prefix(mods, items, k as int + 1);
            }
            let ghost base = across_modules(mods.take(k as int), items).len() as int;
            let mut i: usize = 0;
            while i < module.measurements.len()
                invariant
                    i <= module.measurements@.len(),
                    items == measurement_items(),
                    name_of == measurement_name(),
                    mods == self.project.modules@,
                    all == across_modules(mods, items),
                    *module == mods[k as int],
                    0 <= k < mods.len(),
                    base == across_modules(mods.take(k as int), items).len(),
                    across_modules(mods.take(k as int + 1), items) == across_modules(mods.take(k as int), items)
                        + items(mods[k as int]),
                    across_modules(mods.take(k as int + 1), items) =~= all.take(
                        across_modules(mods.take(k as int + 1), items).len() as int),
                    across_modules(mods.take(k as int + 1), items).len() <= all.len(),
                    key@ == name@,
                    forall|j: int| 0 <= j < base + i ==> name_of(all[j]) != name@,
                decreases module.measurements.len() - i,
            {
                assert(items(mods[k as int]) == module.measurements@);
                assert(all[base + i] == module.measurements@[i as int]) by {
                    let pre = across_modules(mods.take(k as int + 1), items);
                    assert(pre[base + i] == module.measurements@[i as int]);
                    assert(pre.len() == base + module.measurements@.len());
                    assert(pre[base + i] == all.take(pre.len() as int)[base + i]);
                }
                if module.measurements[i].name == key {
                    proof {
                        lemma_first_named_at(all, name_of, name@, base + i);
                    }
                    return Some(&module.measurements[i]);
                }
                i += 1;
            }
            k += 1;
        }
        proof {
            assert(mods.take(mods.len() as int) =~= mods);
            assert(forall|j: int| 0 <= j < all.len() ==> name_of(all[j]) != name@);
        }
        None
    }

    /// Find a characteristic by name: the first of that name, module by module.
    pub fn find_characteristic(&self, name: &str) -> (r: Option<&A2lCharacteristic>)
        ensures
            ({
                let all = across_modules(self.project.modules@, characteristic_items());
                match first_named(all, characteristic_name(), name@) {
                    Some(i) => r == Some(&all[i]),
                    None => r is None,
                }
            }),
    {
        let key = name.to_string();
        let ghost items = characteristic_items();
        let ghost name_of = characteristic_name();
        let ghost mods = self.project.modules@;
        let ghost all = across_modules(mods, items);
        let mut k: usize = 0;
        while k < self.project.modules.len()
            invariant
                k <= mods.len(),
                items == characteristic_items(),
                name_of == characteristic_name(),
                mods == self.project.modules@,
                all == across_modules(mods, items),
                key@ == name@,
                forall|j: int| 0 <= j < across_modules(mods.take(k as int), items).len()
                    ==> name_of(all[j]) != name@,
            decreases self.project.modules.len() - k,
        {
            let module = &self.project.modules[k];
            proof {
                lemma_across_step(mods, items, k as int);
                lemma_across_prefix(mods, items, k as int + 1);
            }
            let ghost base = across_modules(mods.take(k as int), items).len() as int;
            let mut i: usize = 0;
            while i < module.characteristics.len()
                invariant
                    i <= module.characteristics@.len(),
                    items == characteristic_items(),
                    name_of == characteristic_name(),
                    mods == self.project.modules@,
                    all == across_modules(mods, items),
                    *module == mods[k as int],
                    0 <= k < mods.len(),
                    base == across_modules(mods.take(k as int), items).len(),
                    across_modules(mods.take(k as int + 1), items) == across_modules(mods.take(k as int), items)
                        + items(mods[k as int]),
                    across_modules(mods.take(k as int + 1), items) =~= all.take(
                        across_modules(mods.take(k as int + 1), items).len() as int),
                    across_modules(mods.take(k as int + 1), items).len() <= all.len(),
                    key@ == name@,
                    forall|j: int| 0 <= j < base + i ==> name_of(all[j]) != name@,
                decreases module.characteristics.len() - i,
            {
                assert(items(mods[k as int]) == module.characteristics@);
                assert(all[base + i] == module.characteristics@[i as int]) by {
                    let pre = across_modules(mods.take(k as int + 1), items);
                    assert(pre[base + i] == module.characteristics@[i as int]);
                    assert(pre.len() == base + module.characteristics@.len());
                    assert(pre[base + i] == all.take(pre.len() as int)[base + i]);
                }
                if module.characteristics[i].name == key {
                    proof {
                        lemma_first_named_at(all, name_of, name@, base + i);
                    }
                    return Some(&module.characteristics[i]);
                }
                i += 1;
            }
            k += 1;
        }
        proof {
            assert(mods.take(mods.len() as int) =~= mods);
            assert(forall|j: int| 0 <= j < all.len() ==> name_of(all[j]) != name@);
        }
        None
    }

    /// Find a computation method by name: the first of that name, module by module.
    pub fn find_compu_method(&self, name: &str) -> (r: Option<&A2lCompuMethod>)
        ensures
            ({
                let all = across_modules(self.project.modules@, compu_method_items());
                match first_named(all, compu_method_name(), name@) {
                    Some(i) => r == Some(&all[i]),
                    None => r is None,
                }
            }),
    {
        let key = name.to_string();
        let ghost items = compu_method_items();
        let ghost name_of = compu_method_name();
        let ghost mods = self.project.modules@;
        let ghost all = across_modules(mods, items);
        let mut k: usize = 0;
        while k < self.project.modules.len()
            invariant
                k <= mods.len(),
                items == compu_method_items(),
                name_of == compu_method_name(),
                mods == self.project.modules@,
                all == across_modules(mods, items),
                key@ == name@,
                forall|j: int| 0 <= j < across_modules(mods.take(k as int), items).len()
                    ==> name_of(all[j]) != name@,
            decreases self.project.modules.len() - k,
        {
            let module = &self.project.modules[k];
            proof {
                lemma_across_step(mods, items, k as int);
                lemma_across_prefix(mods, items, k as int + 1);
            }
            let ghost base = across_modules(mods.take(k as int), items).len() as int;
            let mut i: usize = 0;
            while i < module.compu_methods.len()
                invariant
                    i <= module.compu_methods@.len(),
                    items == compu_method_items(),
                    name_of == compu_method_name(),
                    mods == self.project.modules@,
                    all == across_modules(mods, items),
                    *module == mods[k as int],
                    0 <= k < mods.len(),
                    base == across_modules(mods.take(k as int), items).len(),
                    across_modules(mods.take(k as int + 1), items) == across_modules(mods.take(k as int), items)
                        + items(mods[k as int]),
                    across_modules(mods.take(k as int + 1), items) =~= all.take(
                        across_modules(mods.take(k as int + 1), items).len() as int),
                    across_modules(mods.take(k as int + 1), items).len() <= all.len(),
                    key@ == name@,
                    forall|j: int| 0 <= j < base + i ==> name_of(all[j]) != name@,
                decreases module.compu_methods.len() - i,
            {
                assert(items(mods[k as int]) == module.compu_methods@);
                assert(all[base + i] == module.compu_methods@[i as int]) by {
                    let pre = across_modules(mods.take(k as int + 1), items);
                    assert(pre[base + i] == module.compu_methods@[i as int]);
                    assert(pre.len() == base + module.compu_methods@.len());
                    assert(pre[base + i] == all.take(pre.len() as int)[base + i]);
                }
                if module.compu_methods[i].name == key {
                    proof {
                        lemma_first_named_at(all, name_of, name@, base + i);
                    }
                    return Some(&module.compu_methods[i]);
                }
                i += 1;
            }
            k += 1;
        }
        proof {
            assert(mods.take(mods.len() as int) =~= mods);
            assert(forall|j: int| 0 <= j < all.len() ==> name_of(all[j]) != name@);
        }
        None
    }

    /// All measurements across all modules, module by module.
    pub fn all_measurements(&self) -> (r: Vec<&A2lMeasurement>)
        ensures
            r@.len() == across_modules(self.project.modules@, measurement_items()).len(),
            forall|i: int| 0 <= i < r@.len()
                ==> *r@[i] == across_modules(self.project.modules@, measurement_items())[i],
    {
        let ghost items = measurement_items();
        let ghost mods = self.project.modules@;
        let mut r: Vec<&A2lMeasurement> = Vec::new();
        let mut k: usize = 0;
        while k < self.project.modules.len()
            invariant
                k <= mods.len(),
                items == measurement_items(),
                mods == self.project.modules@,
                r@.len() == across_modules(mods.take(k as int), items).len(),
                forall|i: int| 0 <= i < r@.len() ==> *r@[i] == across_modules(mods.take(k as int), items)[i],
            decreases self.project.modules.len() - k,
        {
            let module = &self.project.modules[k];
            proof {
                lemma_across_step(mods, items, k as int);
            }
            let ghost base = r@.len();
            let mut i: usize = 0;
            while i < module.measurements.len()
                invariant
                    i <= module.measurements@.len(),
                    items == measurement_items(),
                    *module == mods[k as int],
                    0 <= k < mods.len(),
                    base == across_modules(mods.take(k as int), items).len(),
                    across_modules(mods.take(k as int + 1), items) == across_modules(mods.take(k as int), items)
                        + module.measurements@,
                    r@.len() == base + i,
                    forall|j: int| 0 <= j < r@.len() ==> *r@[j] == across_modules(mods.take(k as int + 1), items)[j],
                decreases module.measurements.len() - i,
            {
                r.push(&module.measurements[i]);
                i += 1;
            }
            k += 1;
        }
        proof {
            assert(mods.take(mods.len() as int) =~= mods);
        }
        r
    }


    /// All characteristics across all modules, module by module.
    pub fn all_characteristics(&self) -> (r: Vec<&A2lCharacteristic>)
        ensures
            r@.len() == across_modules(self.project.modules@, characteristic_items()).len(),
            forall|i: int| 0 <= i < r@.len()
                ==> *r@[i] == across_modules(self.project.modules@, characteristic_items())[i],
    {
        let ghost items = characteristic_items();
        let ghost mods = self.project.modules@;
        let mut r: Vec<&A2lCharacteristic> = Vec::new();
        let mut k: usize = 0;
        while k < self.project.modules.len()
            invariant
                k <= mods.len(),
                items == characteristic_items(),
                mods == self.project.modules@,
                r@.len() == across_modules(mods.take(k as int), items).len(),
                forall|i: int| 0 <= i < r@.len() ==> *r@[i] == across_modules(mods.take(k as int), items)[i],
            decreases self.project.modules.len() - k,
        {
            let module = &self.project.modules[k];
            proof {
                lemma_across_step(mods, items, k as int);
            }
            let ghost base = r@.len();
            let mut i: usize = 0;
            while i < module.characteristics.len()
                invariant
                    i <= module.characteristics@.len(),
                    items == characteristic_items(),
                    *module == mods[k as int],
                    0 <= k < mods.len(),
                    base == across_modules(mods.take(k as int), items).len(),
                    across_modules(mods.take(k as int + 1), items) == across_modules(mods.take(k as int), items)
                        + module.characteristics@,
                    r@.len() == base + i,
                    forall|j: int| 0 <= j < r@.len() ==> *r@[j] == across_modules(mods.take(k as int + 1), items)[j],
                decreases module.characteristics.len() - i,
            {
                r.push(&module.characteristics[i]);
                i += 1;
            }
            k += 1;
        }
        proof {
            assert(mods.take(mods.len() as int) =~= mods);
        }
        r
    }

}


/// An axis description with the given header values and nothing else set.
pub open spec fn plain_axis_descr(
    axis_type: AxisType,
    input_quantity: Seq<char>,
    compu_method: Seq<char>,
    max_axis_points: u16,
    lower_limit: Seq<char>,
    upper_limit: Seq<char>,
) -> AxisDescrModel {
    AxisDescrModel {
        axis_type,
        input_quantity,
        compu_method,
        max_axis_points,
        lower_limit,
        upper_limit,
        extended_limits: None,
        read_only: false,
        axis_pts_ref: None,
        curve_axis_ref: None,
        others_default: true,
    }
}

impl A2lAxisDescr {
    /// An axis description with the given header values and nothing else set.
    pub(crate) fn plain(
        axis_type: AxisType,
        input_quantity: String,
        compu_method: String,
        max_axis_points: u16,
        lower_limit: String,
        upper_limit: String,
    ) -> (r: Self)
        ensures
            r@ == plain_axis_descr(axis_type, input_quantity@, compu_method@, max_axis_points, lower_limit@,
                upper_limit@),
    {
        A2lAxisDescr {
            axis_type,
            input_quantity,
            compu_method,
            max_axis_points,
            lower_limit,
            upper_limit,
            extended_limits: None,
            byte_order: None,
            deposit: None,
            format: None,
            phys_unit: None,
            read_only: false,
            step_size: None,
            max_grad: None,
            monotony: None,
            axis_pts_ref: None,
            curve_axis_ref: None,
            fix_axis_par: None,
            fix_axis_par_dist: None,
            fix_axis_par_list: None,
            annotations: Vec::new(),
        }
    }
}

/// Axis points with the given header values and nothing else set.
pub open spec fn plain_axis_pts(
    name: Seq<char>,
    long_identifier: Seq<char>,
    address: u64,
    input_quantity: Seq<char>,
    record_layout: Seq<char>,
    max_diff: Seq<char>,
    compu_method: Seq<char>,
    max_axis_points: u16,
    lower_limit: Seq<char>,
    upper_limit: Seq<char>,
) -> AxisPtsModel {
    AxisPtsModel {
        name,
        long_identifier,
        address,
        input_quantity,
        record_layout,
        max_diff,
        compu_method,
        max_axis_points,
        lower_limit,
        upper_limit,
        read_only: false,
        guard_rails: false,
        others_default: true,
    }
}

impl A2lAxisPts {
    /// Axis points with the given header values and nothing else set.
    pub(crate) fn plain(
        name: String,
        long_identifier: String,
        address: u64,
        input_quantity: String,
        record_layout: String,
        max_diff: String,
        compu_method: String,
        max_axis_points: u16,
        lower_limit: String,
        upper_limit: String,
    ) -> (r: Self)
        ensures
            r@ == plain_axis_pts(name@, long_identifier@, address, input_quantity@, record_layout@, max_diff@,
                compu_method@, max_axis_points, lower_limit@, upper_limit@),
    {
        A2lAxisPts {
            name,
            long_identifier,
            address,
            input_quantity,
            record_layout,
            max_diff,
            compu_method,
            max_axis_points,
            lower_limit,
            upper_limit,
            extended_limits: None,
            byte_order: None,
            deposit: None,
            format: None,
            phys_unit: None,
            display_identifier: None,
            read_only: false,
            step_size: None,
            guard_rails: false,
            monotony: None,
            symbol_link: None,
            calibration_access: None,
            ecu_address_extension: None,
            function_list: Vec::new(),
            if_data: Vec::new(),
            annotations: Vec::new(),
            ref_memory_segment: None,
            max_refresh: None,
        }
    }
}

impl A2lCompuMethod {
    /// A computation method with the given header values and nothing else set.
    pub(crate) fn bare(
        name: String,
        long_identifier: String,
        conversion_type: CompuMethodType,
        format: String,
        unit: String,
    ) -> (r: Self)
        ensures
            r@ == bare_compu_method(name@, long_identifier@, conversion_type, format@, unit@),
    {
        A2lCompuMethod {
            name,
            long_identifier,
            conversion_type,
            format,
            unit,
            coeffs_linear: None,
            coeffs: None,
            compu_tab_ref: None,
            formula: None,
            formula_inv: None,
            ref_unit: None,
            status_string_ref: None,
        }
    }
}

/// A record layout with the given name and nothing else set.
pub open spec fn named_record_layout(name: Seq<char>) -> RecordLayoutModel {
    RecordLayoutModel { name, fnc_values: None, static_record_layout: false, others_default: true }
}

impl A2lRecordLayout {
    /// A record layout with the given name and nothing else set.
    pub(crate) fn named(name: String) -> (r: Self)
        ensures
            r@ == named_record_layout(name@),
    {
        A2lRecordLayout {
            name,
            fnc_values: None,
            identification: None,
            axis_pts_x: None,
            axis_pts_y: None,
            axis_pts_z: None,
            axis_pts_4: None,
            axis_pts_5: None,
            no_axis_pts_x: None,
            no_axis_pts_y: None,
            no_axis_pts_z: None,
            fix_no_axis_pts_x: None,
            fix_no_axis_pts_y: None,
            fix_no_axis_pts_z: None,
            src_addr_x: None,
            src_addr_y: None,
            src_addr_z: None,
            rip_addr_w: None,
            rip_addr_x: None,
            rip_addr_y: None,
            rip_addr_z: None,
            shift_op_x: None,
            shift_op_y: None,
            shift_op_z: None,
            offset_x: None,
            offset_y: None,
            offset_z: None,
            dist_op_x: None,
            dist_op_y: None,
            dist_op_z: None,
            axis_rescale_x: None,
            reserved: Vec::new(),
            static_record_layout: false,
            alignment_byte: None,
            alignment_word: None,
            alignment_long: None,
            alignment_float32: None,
            alignment_float64: None,
            alignment_int64: None,
        }
    }
}

/// A function block with the given name and description and nothing else set.
pub open spec fn named_function(name: Seq<char>, long_identifier: Seq<char>) -> FunctionModel {
    FunctionModel {
        name,
        long_identifier,
        version: None,
        in_measurement: Seq::empty(),
        out_measurement: Seq::empty(),
        loc_measurement: Seq::empty(),
        def_characteristic: Seq::empty(),
        ref_characteristic: Seq::empty(),
        sub_function: Seq::empty(),
        annotations: Seq::empty(),
        if_data: Seq::empty(),
    }
}

impl A2lFunction {
    /// A function block with the given name and description and nothing else set.
    pub(crate) fn named(name: String, long_identifier: String) -> (r: Self)
        ensures
            r@ == named_function(name@, long_identifier@),
    {
        let r = A2lFunction {
            name,
            long_identifier,
            version: None,
            in_measurement: Vec::new(),
            out_measurement: Vec::new(),
            loc_measurement: Vec::new(),
            def_characteristic: Vec::new(),
            ref_characteristic: Vec::new(),
            sub_function: Vec::new(),
            annotations: Vec::new(),
            if_data: Vec::new(),
        };
        proof {
            assert(texts(r.in_measurement@) =~= Seq::empty());
            assert(texts(r.out_measurement@) =~= Seq::empty());
            assert(texts(r.loc_measurement@) =~= Seq::empty());
            assert(texts(r.def_characteristic@) =~= Seq::empty());
            assert(texts(r.ref_characteristic@) =~= Seq::empty());
            assert(texts(r.sub_function@) =~= Seq::empty());
            assert(annotations_view(r.annotations@) =~= Seq::empty());
            assert(if_data_view(r.if_data@) =~= Seq::empty());
        }
        r
    }
}

/// A group with the given name and description and nothing else set.
pub open spec fn named_group(name: Seq<char>, long_identifier: Seq<char>) -> GroupModel {
    GroupModel {
        name,
        long_identifier,
        root: false,
        ref_characteristic: Seq::empty(),
        ref_measurement: Seq::empty(),
        sub_group: Seq::empty(),
        annotations: Seq::empty(),
        if_data: Seq::empty(),
    }
}

impl A2lGroup {
    /// A group with the given name and description and nothing else set.
    pub(crate) fn named(name: String, long_identifier: String) -> (r: Self)
        ensures
            r@ == named_group(name@, long_identifier@),
    {
        let r = A2lGroup {
            name,
            long_identifier,
            root: false,
            ref_characteristic: Vec::new(),
            ref_measurement: Vec::new(),
            sub_group: Vec::new(),
            annotations: Vec::new(),
            if_data: Vec::new(),
        };
        proof {
            assert(texts(r.ref_characteristic@) =~= Seq::empty());
            assert(texts(r.ref_measurement@) =~= Seq::empty());
            assert(texts(r.sub_group@) =~= Seq::empty());
            assert(annotations_view(r.annotations@) =~= Seq::empty());
            assert(if_data_view(r.if_data@) =~= Seq::empty());
        }
        r
    }
}

/// A module with the given name and description and nothing in it.
pub open spec fn named_module(name: Seq<char>, long_identifier: Seq<char>) -> ModuleModel {
    ModuleModel {
        name,
        long_identifier,
        mod_common: None,
        mod_par: None,
        measurements: Seq::empty(),
        characteristics: Seq::empty(),
        compu_methods: Seq::empty(),
        compu_tabs: Seq::empty(),
        compu_vtabs: Seq::empty(),
        record_layouts: Seq::empty(),
        axis_pts: Seq::empty(),
        functions: Seq::empty(),
        groups: Seq::empty(),
        units: Seq::empty(),
        if_data: Seq::empty(),
    }
}

impl A2lModule {
    /// A module with the given name and description and nothing in it.
    pub(crate) fn named(name: String, long_identifier: String) -> (r: Self)
        ensures
            r@ == named_module(name@, long_identifier@),
    {
        let r = A2lModule {
            name,
            long_identifier,
            mod_common: None,
            mod_par: None,
            measurements: Vec::new(),
            characteristics: Vec::new(),
            compu_methods: Vec::new(),
            compu_tabs: Vec::new(),
            compu_vtabs: Vec::new(),
            record_layouts: Vec::new(),
            axis_pts: Vec::new(),
            functions: Vec::new(),
            groups: Vec::new(),
            units: Vec::new(),
            if_data: Vec::new(),
        };
        proof {
            assert(r@.measurements =~= Seq::empty());
            assert(r@.characteristics =~= Seq::empty());
            assert(r@.compu_methods =~= Seq::empty());
            assert(r@.compu_tabs =~= Seq::empty());
            assert(r@.compu_vtabs =~= Seq::empty());
            assert(r@.record_layouts =~= Seq::empty());
            assert(r@.axis_pts =~= Seq::empty());
            assert(r@.functions =~= Seq::empty());
            assert(r@.groups =~= Seq::empty());
            assert(r@.units =~= Seq::empty());
            assert(r@.if_data =~= Seq::empty());
        }
        r
    }
}

/// Module parameters with the given comment and nothing else set.
pub open spec fn commented_mod_par(comment: Seq<char>) -> ModParModel {
    ModParModel {
        comment,
        cpu_type: None,
        customer: None,
        version: None,
        epk: None,
        memory_segments: Seq::empty(),
        others_default: true,
    }
}

impl A2lModPar {
    /// Module parameters with the given comment and nothing else set.
    pub(crate) fn commented(comment: String) -> (r: Self)
        ensures
            r@ == commented_mod_par(comment@),
    {
        let r = A2lModPar {
            comment,
            cpu_type: None,
            customer: None,
            customer_no: None,
            ecu: None,
            ecu_calibration_offset: None,
            addr_epk: None,
            epk: None,
            no_of_interfaces: None,
            phone_no: None,
            supplier: None,
            user: None,
            version: None,
            memory_segments: Vec::new(),
            system_constants: HashMap::new(),
        };
        proof {
            assert(r@.memory_segments =~= Seq::empty());
        }
        r
    }
}

/// Common module parameters with the given comment and nothing else set.
pub open spec fn commented_mod_common(comment: Seq<char>) -> ModCommonModel {
    ModCommonModel {
        comment,
        byte_order: None,
        data_size: None,
        deposit: None,
        alignment_byte: None,
        alignment_word: None,
        alignment_long: None,
        alignment_float32: None,
        alignment_float64: None,
        alignment_int64: None,
    }
}

} // verus!
