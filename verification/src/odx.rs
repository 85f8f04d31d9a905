//! ODX (diagnostic data exchange) data model: diagnostic layers, services,
//! requests and responses, parameters, trouble codes and communication
//! parameters, with the number syntax that ODX files use.
use vstd::prelude::*;
use crate::a2l::opt_text;
use crate::ecu_database::{first_where, lemma_first_where_at};
use crate::number::{IntErrorKind, parse_i64_radix, parse_signed_spec};
use crate::text::{all_ascii, ascii_upper, chars_eq, chars_of, digit_char, hex_digit, owned, push_char, push_str, slice_to_vec, string_from_chars, to_uppercase, trim, trim_spec, unicode_uppercase};

verus! {

broadcast use vstd::string::group_string_axioms;

/// Diagnostic layer type.
#[derive(Debug, Clone, Copy, PartialEq, Eq, Structural, Default)]
pub enum DiagLayerType {
    /// Protocol layer (base communication)
    Protocol,
    /// Functional group layer
    FunctionalGroup,
    /// Base variant layer
    BaseVariant,
    /// ECU variant layer
    #[default]
    EcuVariant,
    /// ECU shared data layer
    EcuSharedData,
}

/// The layer type that an uppercased name stands for.
pub open spec fn layer_type_of_upper(u: Seq<char>) -> Option<DiagLayerType> {
    if u == "PROTOCOL"@ {
        Some(DiagLayerType::Protocol)
    } else if u == "FUNCTIONAL-GROUP"@ {
        Some(DiagLayerType::FunctionalGroup)
    } else if u == "BASE-VARIANT"@ {
        Some(DiagLayerType::BaseVariant)
    } else if u == "ECU-VARIANT"@ {
        Some(DiagLayerType::EcuVariant)
    } else if u == "ECU-SHARED-DATA"@ {
        Some(DiagLayerType::EcuSharedData)
    } else {
        None
    }
}

fn is_text(t: &[char], lit: &str) -> (r: bool)
    ensures
        r == (t@ == lit@),
{
    let l = chars_of(lit);
    crate::text::chars_eq(t, l.as_slice())
}

impl DiagLayerType {
    /// The layer type that an already uppercased name stands for.
    pub fn from_uppercase_name(u: &str) -> (r: Option<Self>)
        ensures
            r == layer_type_of_upper(u@),
    {
        let v = chars_of(u);
        let t = v.as_slice();
        if is_text(t, "PROTOCOL") {
            Some(DiagLayerType::Protocol)
        } else if is_text(t, "FUNCTIONAL-GROUP") {
            Some(DiagLayerType::FunctionalGroup)
        } else if is_text(t, "BASE-VARIANT") {
            Some(DiagLayerType::BaseVariant)
        } else if is_text(t, "ECU-VARIANT") {
            Some(DiagLayerType::EcuVariant)
        } else if is_text(t, "ECU-SHARED-DATA") {
            Some(DiagLayerType::EcuSharedData)
        } else {
            None
        }
    }

    /// Parse from string: the name is compared after Unicode uppercasing.
    pub fn parse(s: &str) -> (r: Option<Self>)
        ensures
            r == layer_type_of_upper(unicode_uppercase(s@)),
            all_ascii(s@) ==> r == layer_type_of_upper(ascii_upper(s@)),
    {
        let u = to_uppercase(s);
        Self::from_uppercase_name(u.as_str())
    }
}

/// Audience (access level).
#[derive(Debug, Clone, Copy, PartialEq, Eq, Structural, Default)]
pub struct Audience {
    /// Is development
    pub is_development: bool,
    /// Is manufacturing
    pub is_manufacturing: bool,
    /// Is supplier
    pub is_supplier: bool,
    /// Is aftersales
    pub is_aftersales: bool,
    /// Is aftermarket
    pub is_aftermarket: bool,
}

/// Parameter semantic type.
#[derive(Debug, Clone, Copy, PartialEq, Eq, Structural, Default)]
pub enum ParamSemantic {
    /// Service identifier
    ServiceId,
    /// Sub-function
    SubFunction,
    /// Data identifier
    #[default]
    Data,
    /// Table key
    TableKey,
    /// Table struct
    TableStruct,
    /// Table row
    TableRow,
    /// Table entry
    TableEntry,
}

/// Parameter type.
#[derive(Debug, Clone, Copy, PartialEq, Eq, Structural, Default)]
pub enum ParamType {
    /// Coded constant
    CodedConst,
    /// Matching request parameter
    MatchingRequestParam,
    /// Value parameter
    #[default]
    Value,
    /// Reserved parameter
    Reserved,
    /// Table key parameter
    TableKey,
    /// Table struct parameter
    TableStruct,
    /// Table entry parameter
    TableEntry,
    /// Length key parameter
    LengthKey,
    /// Dynamic parameter
    Dynamic,
    /// End of PDU field
    EndOfPduField,
    /// NRC constant
    NrcConst,
}

/// Parameter definition.
#[derive(Debug, Clone, Default)]
pub struct Param {
    /// Unique identifier
    pub id: String,
    /// Short name
    pub short_name: String,
    /// Long name
    pub long_name: Option<String>,
    /// Description
    pub description: Option<String>,
    /// Parameter type
    pub param_type: ParamType,
    /// Semantic
    pub semantic: ParamSemantic,
    /// Byte position
    pub byte_position: Option<u32>,
    /// Bit position within byte
    pub bit_position: Option<u8>,
    /// Byte size
    pub byte_size: Option<u32>,
    /// Bit size
    pub bit_size: Option<u32>,
    /// Coded value (for constants)
    pub coded_value: Option<i64>,
    /// Data object property reference
    pub dop_ref: Option<String>,
    /// Physical default value
    pub physical_default: Option<String>,
    /// Is mandatory
    pub mandatory: bool,
}

/// A mandatory parameter with the given names and type and nothing else
/// known: data semantic, no positions, sizes, value or references.
pub open spec fn fresh_param(p: Param, id: Seq<char>, short_name: Seq<char>, t: ParamType) -> bool {
    &&& p.id@ == id
    &&& p.short_name@ == short_name
    &&& p.long_name is None
    &&& p.description is None
    &&& p.param_type == t
    &&& p.semantic == ParamSemantic::Data
    &&& p.bit_position is None
    &&& p.bit_size is None
    &&& p.dop_ref is None
    &&& p.physical_default is None
    &&& p.mandatory
}

impl Param {
    /// Create a new mandatory parameter.
    pub fn new(id: &str, short_name: &str, param_type: ParamType) -> (r: Self)
        ensures
            fresh_param(r, id@, short_name@, param_type),
            r.byte_position is None,
            r.byte_size is None,
            r.coded_value is None,
    {
        Param {
            id: owned(id),
            short_name: owned(short_name),
            long_name: None,
            description: None,
            param_type,
            semantic: ParamSemantic::Data,
            byte_position: None,
            bit_position: None,
            byte_size: None,
            bit_size: None,
            coded_value: None,
            dop_ref: None,
            physical_default: None,
            mandatory: true,
        }
    }

    /// Create a one-byte coded constant parameter at `byte_pos`.
    pub fn coded_const(id: &str, short_name: &str, value: i64, byte_pos: u32) -> (r: Self)
        ensures
            fresh_param(r, id@, short_name@, ParamType::CodedConst),
            r.byte_position == Some(byte_pos),
            r.byte_size == Some(1u32),
            r.coded_value == Some(value),
    {
        let mut p = Param::new(id, short_name, ParamType::CodedConst);
        p.byte_position = Some(byte_pos);
        p.coded_value = Some(value);
        p.byte_size = Some(1);
        p
    }

    /// Create a value parameter of `byte_size` bytes at `byte_pos`.
    pub fn value(id: &str, short_name: &str, byte_pos: u32, byte_size: u32) -> (r: Self)
        ensures
            fresh_param(r, id@, short_name@, ParamType::Value),
            r.byte_position == Some(byte_pos),
            r.byte_size == Some(byte_size),
            r.coded_value is None,
    {
        let mut p = Param::new(id, short_name, ParamType::Value);
        p.byte_position = Some(byte_pos);
        p.byte_size = Some(byte_size);
        p
    }

    /// Set DOP reference
    pub fn with_dop_ref(self, dop_ref: &str) -> (r: Self)
        ensures
            r.dop_ref matches Some(d) && d@ == dop_ref@,
            r.id == self.id,
            r.short_name == self.short_name,
            r.long_name == self.long_name,
            r.description == self.description,
            r.param_type == self.param_type,
            r.semantic == self.semantic,
            r.byte_position == self.byte_position,
            r.bit_position == self.bit_position,
            r.byte_size == self.byte_size,
            r.bit_size == self.bit_size,
            r.coded_value == self.coded_value,
            r.physical_default == self.physical_default,
            r.mandatory == self.mandatory,
    {
        let mut p = self;
        p.dop_ref = Some(owned(dop_ref));
        p
    }
}

/// The sum of the byte sizes of the first `n` parameters (a parameter
/// without a size counts 0).
pub open spec fn byte_total(params: Seq<Param>, n: int) -> nat
    decreases n,
{
    if n <= 0 {
        0
    } else {
        byte_total(params, n - 1) + match params[n - 1].byte_size {
            Some(b) => b as nat,
            None => 0,
        }
    }
}

proof fn lemma_byte_total_mono(params: Seq<Param>, a: int, b: int)
    requires
        0 <= a <= b,
    ensures
        byte_total(params, a) <= byte_total(params, b),
    decreases b - a,
{
    if a < b {
        lemma_byte_total_mono(params, a, b - 1);
    }
}

/// Request structure.
#[derive(Debug, Clone, Default)]
pub struct Request {
    /// Unique identifier
    pub id: String,
    /// Short name
    pub short_name: String,
    /// Parameters
    pub params: Vec<Param>,
}

impl Request {
    /// Create a new request without parameters.
    pub fn new(id: &str, short_name: &str) -> (r: Self)
        ensures
            r.id@ == id@,
            r.short_name@ == short_name@,
            r.params@.len() == 0,
    {
        Request { id: owned(id), short_name: owned(short_name), params: Vec::new() }
    }

    /// Add a parameter at the end.
    pub fn add_param(&mut self, param: Param)
        ensures
            final(self).params@ == old(self).params@.push(param),
            final(self).id == old(self).id,
            final(self).short_name == old(self).short_name,
    {
        self.params.push(param);
    }

    /// Get total byte length: the sum of the parameters' byte sizes.
    pub fn byte_length(&self) -> (r: usize)
        requires
            byte_total(self.params@, self.params@.len() as int) <= usize::MAX,
        ensures
            r == byte_total(self.params@, self.params@.len() as int),
    {
        let mut total: usize = 0;
        let mut i: usize = 0;
        while i < self.params.len()
            invariant
                i <= self.params.len(),
                total == byte_total(self.params@, i as int),
                byte_total(self.params@, self.params@.len() as int) <= usize::MAX,
            decreases self.params.len() - i,
        {
            proof {
                lemma_byte_total_mono(self.params@, i + 1, self.params@.len() as int);
            }
            let add: usize = match self.params[i].byte_size {
                Some(b) => b as usize,
                None => 0,
            };
            total = total + add;
            i += 1;
        }
        total
    }
}

/// Response structure.
#[derive(Debug, Clone, Default)]
pub struct Response {
    /// Unique identifier
    pub id: String,
    /// Short name
    pub short_name: String,
    /// Parameters
    pub params: Vec<Param>,
}

impl Response {
    /// Create a new response without parameters.
    pub fn new(id: &str, short_name: &str) -> (r: Self)
        ensures
            r.id@ == id@,
            r.short_name@ == short_name@,
            r.params@.len() == 0,
    {
        Response { id: owned(id), short_name: owned(short_name), params: Vec::new() }
    }

    /// Add a parameter at the end.
    pub fn add_param(&mut self, param: Param)
        ensures
            final(self).params@ == old(self).params@.push(param),
            final(self).id == old(self).id,
            final(self).short_name == old(self).short_name,
    {
        self.params.push(param);
    }
}

/// Diagnostic service (request/response pair).
#[derive(Debug, Clone, Default)]
pub struct DiagService {
    /// Unique identifier
    pub id: String,
    /// Short name
    pub short_name: String,
    /// Long name
    pub long_name: Option<String>,
    /// Description
    pub description: Option<String>,
    /// UDS Service ID (SID)
    pub service_id: Option<u8>,
    /// Semantic (e.g., "READ", "WRITE", "CONTROL")
    pub semantic: Option<String>,
    /// Request structure
    pub request: Option<Request>,
    /// Positive response structure
    pub positive_response: Option<Response>,
    /// Negative response structure
    pub negative_response: Option<Response>,
    /// Functional class references
    pub functional_class_refs: Vec<String>,
    /// Audience (access level)
    pub audience: Option<Audience>,
    /// Is addressing physical (vs functional)
    pub addressing_physical: bool,
    /// Is addressing functional
    pub addressing_functional: bool,
}

impl DiagService {
    /// Create a new diagnostic service, physically addressed, with nothing
    /// else known.
    pub fn new(id: &str, short_name: &str) -> (r: Self)
        ensures
            r.id@ == id@,
            r.short_name@ == short_name@,
            r.long_name is None,
            r.description is None,
            r.service_id is None,
            r.semantic is None,
            r.request is None,
            r.positive_response is None,
            r.negative_response is None,
            r.functional_class_refs@.len() == 0,
            r.audience is None,
            r.addressing_physical,
            !r.addressing_functional,
    {
        DiagService {
            id: owned(id),
            short_name: owned(short_name),
            long_name: None,
            description: None,
            service_id: None,
            semantic: None,
            request: None,
            positive_response: None,
            negative_response: None,
            functional_class_refs: Vec::new(),
            audience: None,
            addressing_physical: true,
            addressing_functional: false,
        }
    }

    /// Set service ID
    pub fn with_service_id(self, sid: u8) -> (r: Self)
        ensures
            r == (DiagService { service_id: Some(sid), ..self }),
    {
        let mut s = self;
        s.service_id = Some(sid);
        s
    }

    /// Set request
    pub fn with_request(self, request: Request) -> (r: Self)
        ensures
            r == (DiagService { request: Some(request), ..self }),
    {
        let mut s = self;
        s.request = Some(request);
        s
    }

    /// Set positive response
    pub fn with_positive_response(self, response: Response) -> (r: Self)
        ensures
            r == (DiagService { positive_response: Some(response), ..self }),
    {
        let mut s = self;
        s.positive_response = Some(response);
        s
    }
}

/// Physical type.
#[derive(Debug, Clone, Default)]
pub struct PhysicalType {
    /// Base data type
    pub base_data_type: BaseDataType,
    /// Display radix
    pub display_radix: Option<String>,
}

/// Base data type.
#[derive(Debug, Clone, Copy, PartialEq, Eq, Structural, Default)]
pub enum BaseDataType {
    /// Unsigned integer
    #[default]
    AUint32,
    /// Signed integer
    AInt32,
    /// Float
    AFloat32,
    /// Double
    AFloat64,
    /// ASCII string
    AAsciiString,
    /// Unicode string
    AUnicodeString,
    /// Byte field
    AByteField,
}

/// Diag coded type.
#[derive(Debug, Clone, Copy, PartialEq, Eq, Structural, Default)]
pub struct DiagCodedType {
    /// Base data type
    pub base_data_type: BaseDataType,
    /// Bit length
    pub bit_length: Option<u32>,
    /// Byte order
    pub byte_order: Option<ByteOrder>,
    /// Is high-low byte order
    pub is_highlow_byte_order: bool,
}

/// Byte order.
#[derive(Debug, Clone, Copy, PartialEq, Eq, Structural, Default)]
pub enum ByteOrder {
    /// Little endian (LSB first)
    #[default]
    LittleEndian,
    /// Big endian (MSB first)
    BigEndian,
}

/// Computation category.
#[derive(Debug, Clone, Copy, PartialEq, Eq, Structural, Default)]
pub enum CompuCategory {
    /// Identical (no conversion)
    #[default]
    Identical,
    /// Linear conversion
    Linear,
    /// Scale linear (piecewise linear)
    ScaleLinear,
    /// Table interpolation
    TabIntp,
    /// Table no interpolation
    TabNoIntp,
    /// Text table
    TextTable,
    /// Bit-to-text table
    BitToTextTable,
}

/// DTC severity level.
#[derive(Debug, Clone, Copy, PartialEq, Eq, Structural, Default)]
pub enum DtcSeverity {
    /// No severity
    #[default]
    NoSeverity,
    /// Maintenance only
    MaintenanceOnly,
    /// Check at next halt
    CheckAtNextHalt,
    /// Check immediately
    CheckImmediately,
}

/// Diagnostic Trouble Code.
#[derive(Debug, Clone, Default)]
pub struct Dtc {
    /// Unique identifier
    pub id: String,
    /// Short name
    pub short_name: String,
    /// Long name
    pub long_name: Option<String>,
    /// Description
    pub description: Option<String>,
    /// DTC code (3-byte value)
    pub code: u32,
    /// Display code (e.g., "P0123")
    pub display_code: Option<String>,
    /// Severity
    pub severity: DtcSeverity,
    /// Functional class references
    pub functional_class_refs: Vec<String>,
    /// Text (human-readable description)
    pub text: Option<String>,
    /// Level (for hierarchical DTCs)
    pub level: Option<u8>,
}

/// The OBD-II letter of a trouble code: from the top two bits of its high
/// byte, P (powertrain), C (chassis), B (body) or U (network).
pub open spec fn obd_category(code: u32) -> char {
    let b1 = (code / 0x10000) % 0x100;
    if b1 / 64 == 1 {
        'C'
    } else if b1 / 64 == 2 {
        'B'
    } else if b1 / 64 == 3 {
        'U'
    } else {
        'P'
    }
}

/// A trouble code in OBD-II form (five characters, such as "P0100"): its
/// letter from bits 23-22, then the hexadecimal digits of bits 21-20,
/// 19-16, 15-12 and 11-8.
pub open spec fn obd_code_text(code: u32) -> Seq<char> {
    seq![
        obd_category(code),
        digit_char(((code / 0x100000) % 4) as int),
        digit_char(((code / 0x10000) % 16) as int),
        digit_char(((code / 0x1000) % 16) as int),
        digit_char(((code / 0x100) % 16) as int),
    ]
}

impl Dtc {
    /// Create a new DTC with nothing known beyond its names and code.
    pub fn new(id: &str, short_name: &str, code: u32) -> (r: Self)
        ensures
            r.id@ == id@,
            r.short_name@ == short_name@,
            r.long_name is None,
            r.description is None,
            r.code == code,
            r.display_code is None,
            r.severity == DtcSeverity::NoSeverity,
            r.functional_class_refs@.len() == 0,
            r.text is None,
            r.level is None,
    {
        Dtc {
            id: owned(id),
            short_name: owned(short_name),
            long_name: None,
            description: None,
            code,
            display_code: None,
            severity: DtcSeverity::NoSeverity,
            functional_class_refs: Vec::new(),
            text: None,
            level: None,
        }
    }

    /// Set display code
    pub fn with_display_code(self, display_code: &str) -> (r: Self)
        ensures
            r.display_code matches Some(d) && d@ == display_code@,
            r.id == self.id,
            r.short_name == self.short_name,
            r.long_name == self.long_name,
            r.description == self.description,
            r.code == self.code,
            r.severity == self.severity,
            r.functional_class_refs == self.functional_class_refs,
            r.text == self.text,
            r.level == self.level,
    {
        let mut d = self;
        d.display_code = Some(owned(display_code));
        d
    }

    /// Set description text
    pub fn with_text(self, text: &str) -> (r: Self)
        ensures
            r.text matches Some(t) && t@ == text@,
            r.id == self.id,
            r.short_name == self.short_name,
            r.long_name == self.long_name,
            r.description == self.description,
            r.code == self.code,
            r.display_code == self.display_code,
            r.severity == self.severity,
            r.functional_class_refs == self.functional_class_refs,
            r.level == self.level,
    {
        let mut d = self;
        d.text = Some(owned(text));
        d
    }

    /// Set severity
    pub fn with_severity(self, severity: DtcSeverity) -> (r: Self)
        ensures
            r == (Dtc { severity, ..self }),
    {
        let mut d = self;
        d.severity = severity;
        d
    }

    /// Get DTC as OBD-II style code (e.g., "P0123"): the display code when
    /// there is one, otherwise the code in OBD-II form.
    pub fn as_obd_code(&self) -> (r: String)
        ensures
            match self.display_code {
                Some(d) => r@ == d@,
                None => r@ == obd_code_text(self.code),
            },
    {
        match &self.display_code {
            Some(d) => return d.clone(),
            None => {},
        }
        let byte1: u32 = (self.code / 0x10000) % 0x100;
        let category = if byte1 / 64 == 1 {
            'C'
        } else if byte1 / 64 == 2 {
            'B'
        } else if byte1 / 64 == 3 {
            'U'
        } else {
            'P'
        };
        let mut out = String::new();
        push_char(&mut out, category);
        push_char(&mut out, hex_digit(((self.code / 0x100000) % 4) as u8));
        push_char(&mut out, hex_digit(((self.code / 0x10000) % 16) as u8));
        push_char(&mut out, hex_digit(((self.code / 0x1000) % 16) as u8));
        push_char(&mut out, hex_digit(((self.code / 0x100) % 16) as u8));
        assert(out@ =~= obd_code_text(self.code));
        out
    }
}

/// Communication parameter class.
#[derive(Debug, Clone, Copy, PartialEq, Eq, Structural, Default)]
pub enum ComparamClass {
    /// Timing parameter
    #[default]
    Timing,
    /// Initialization parameter
    Init,
    /// Error handling parameter
    ErrorHandling,
    /// Unique response ID
    UniqueRespId,
    /// Bus type
    BusType,
}

/// Communication parameter.
#[derive(Debug, Clone, Default)]
pub struct Comparam {
    /// Unique identifier
    pub id: String,
    /// Short name
    pub short_name: String,
    /// Description
    pub description: Option<String>,
    /// Parameter type
    pub param_class: ComparamClass,
    /// Physical default value
    pub physical_default: Option<String>,
    /// Data object property reference
    pub dop_ref: Option<String>,
}

/// Communication parameter specification.
#[derive(Debug, Clone, Default)]
pub struct ComparamSpec {
    /// Unique identifier
    pub id: String,
    /// Short name
    pub short_name: String,
    /// Description
    pub description: Option<String>,
    /// Protocol type
    pub protocol_type: Option<String>,
    /// Communication parameters
    pub comparams: Vec<Comparam>,
}

/// Logical link (ECU connection).
#[derive(Debug, Clone, Default)]
pub struct LogicalLink {
    /// Short name
    pub short_name: String,
    /// Description
    pub description: Option<String>,
    /// Protocol reference
    pub protocol_ref: Option<String>,
    /// Physical vehicle link reference
    pub physical_vehicle_link_ref: Option<String>,
}

/// Vehicle information.
#[derive(Debug, Clone, Default)]
pub struct VehicleInfo {
    /// Short name
    pub short_name: String,
    /// Long name
    pub long_name: Option<String>,
    /// Description
    pub description: Option<String>,
    /// Logical links
    pub logical_links: Vec<LogicalLink>,
}

/// Functional group.
#[derive(Debug, Clone, Default)]
pub struct FunctionalGroup {
    /// Short name
    pub short_name: String,
    /// Long name
    pub long_name: Option<String>,
    /// Description
    pub description: Option<String>,
    /// Functional class references
    pub functional_class_refs: Vec<String>,
}

/// Functional class.
#[derive(Debug, Clone, Default)]
pub struct FunctionalClass {
    /// Unique identifier
    pub id: String,
    /// Short name
    pub short_name: String,
    /// Long name
    pub long_name: Option<String>,
    /// Description
    pub description: Option<String>,
}

/// Single ECU job.
#[derive(Debug, Clone, Default)]
pub struct SingleEcuJob {
    /// Unique identifier
    pub id: String,
    /// Short name
    pub short_name: String,
    /// Description
    pub description: Option<String>,
    /// Functional class references
    pub functional_class_refs: Vec<String>,
    /// Audience
    pub audience: Option<Audience>,
    /// Programming language
    pub prog_language: Option<String>,
    /// Code (script)
    pub code: Option<String>,
}

/// ODX parse error.
#[derive(Debug, Clone)]
pub enum OdxParseError {
    /// IO error
    IoError(String),
    /// XML parse error
    XmlError(String),
    /// Missing required element
    MissingElement(String),
    /// Invalid value
    InvalidValue(String),
}

/// The text that an ODX error displays.
pub open spec fn odx_error_text(e: OdxParseError) -> Seq<char> {
    match e {
        OdxParseError::IoError(m) => "IO error: "@ + m@,
        OdxParseError::XmlError(m) => "XML error: "@ + m@,
        OdxParseError::MissingElement(m) => "Missing element: "@ + m@,
        OdxParseError::InvalidValue(m) => "Invalid value: "@ + m@,
    }
}

impl OdxParseError {
    /// The text that the error displays.
    pub fn to_display_string(&self) -> (r: String)
        ensures
            r@ == odx_error_text(*self),
    {
        let mut out = String::new();
        match self {
            OdxParseError::IoError(m) => {
                push_str(&mut out, "IO error: ");
                push_str(&mut out, m.as_str());
            },
            OdxParseError::XmlError(m) => {
                push_str(&mut out, "XML error: ");
                push_str(&mut out, m.as_str());
            },
            OdxParseError::MissingElement(m) => {
                push_str(&mut out, "Missing element: ");
                push_str(&mut out, m.as_str());
            },
            OdxParseError::InvalidValue(m) => {
                push_str(&mut out, "Invalid value: ");
                push_str(&mut out, m.as_str());
            },
        }
        out
    }
}

/// What an ODX number field holds: after trimming, `0x`/`0X` and
/// hexadecimal digits, `0b`/`0B` and binary digits, or a decimal number,
/// each with an optional sign (after the prefix) and within `i64`.
pub open spec fn odx_number_spec(s: Seq<char>) -> Option<i64> {
    let t = trim_spec(s);
    let r = if t.len() >= 2 && t[0] == '0' && (t[1] == 'x' || t[1] == 'X') {
        parse_signed_spec(t.subrange(2, t.len() as int), 16)
    } else if t.len() >= 2 && t[0] == '0' && (t[1] == 'b' || t[1] == 'B') {
        parse_signed_spec(t.subrange(2, t.len() as int), 2)
    } else {
        parse_signed_spec(t, 10)
    };
    match r {
        Ok(v) => Some(v as i64),
        Err(_) => None,
    }
}

/// Computation scale.
#[derive(Debug, Clone, Default)]
pub struct CompuScale {
    /// Lower limit (decimal text)
    pub lower_limit: Option<String>,
    /// Upper limit (decimal text)
    pub upper_limit: Option<String>,
    /// Coefficients (a, b, c, d, e, f) for rational function
    pub compu_rational_coeffs: Option<CompuRationalCoeffs>,
    /// Constant value
    pub compu_const: Option<String>,
    /// Short label
    pub short_label: Option<String>,
    /// Description
    pub description: Option<String>,
}

/// Rational function coefficients.
#[derive(Debug, Clone, Default)]
pub struct CompuRationalCoeffs {
    /// Numerator coefficients (decimal text)
    pub numerators: Vec<String>,
    /// Denominator coefficients (decimal text)
    pub denominators: Vec<String>,
}

/// Computation method for value conversion.
#[derive(Debug, Clone, Default)]
pub struct CompuMethod {
    /// Category
    pub category: CompuCategory,
    /// Internal to physical coefficients (for LINEAR)
    pub compu_internal_to_phys: Option<CompuScale>,
    /// Physical to internal coefficients
    pub compu_phys_to_internal: Option<CompuScale>,
    /// Computation scales (for SCALE-LINEAR, TAB-INTP)
    pub compu_scales: Vec<CompuScale>,
    /// Default value
    pub compu_default_value: Option<String>,
}

/// Data Object Property: how data is encoded and decoded.
#[derive(Debug, Clone, Default)]
pub struct DataObjectProperty {
    /// Unique identifier
    pub id: String,
    /// Short name
    pub short_name: String,
    /// Long name
    pub long_name: Option<String>,
    /// Description
    pub description: Option<String>,
    /// Computation method
    pub compu_method: Option<CompuMethod>,
    /// Physical type
    pub physical_type: Option<PhysicalType>,
    /// Diag coded type
    pub diag_coded_type: Option<DiagCodedType>,
    /// Unit reference
    pub unit_ref: Option<String>,
}

impl DataObjectProperty {
    /// A new DOP with nothing known beyond its names.
    pub fn new(id: &str, short_name: &str) -> (r: Self)
        ensures
            r.id@ == id@,
            r.short_name@ == short_name@,
            r.long_name is None,
            r.description is None,
            r.compu_method is None,
            r.physical_type is None,
            r.diag_coded_type is None,
            r.unit_ref is None,
    {
        DataObjectProperty {
            id: owned(id),
            short_name: owned(short_name),
            long_name: None,
            description: None,
            compu_method: None,
            physical_type: None,
            diag_coded_type: None,
            unit_ref: None,
        }
    }
}

/// ECU shared data.
#[derive(Debug, Clone, Default)]
pub struct EcuSharedData {
    /// Short name
    pub short_name: String,
    /// Description
    pub description: Option<String>,
    /// Shared DOPs
    pub dops: Vec<DataObjectProperty>,
    /// Shared DTCs
    pub dtcs: Vec<Dtc>,
}

/// Data dictionary entry.
#[derive(Debug, Clone, Default)]
pub struct DataDictionaryEntry {
    /// Unique identifier
    pub id: String,
    /// Short name
    pub short_name: String,
    /// Data object property
    pub dop: DataObjectProperty,
}

/// The texts of a list of strings.
pub open spec fn texts(v: Seq<String>) -> Seq<Seq<char>> {
    v.map_values(|x: String| x@)
}

/// A parameter as plain values.
pub ghost struct ParamModel {
    pub id: Seq<char>,
    pub short_name: Seq<char>,
    pub long_name: Option<Seq<char>>,
    pub description: Option<Seq<char>>,
    pub param_type: ParamType,
    pub semantic: ParamSemantic,
    pub byte_position: Option<u32>,
    pub bit_position: Option<u8>,
    pub byte_size: Option<u32>,
    pub bit_size: Option<u32>,
    pub coded_value: Option<i64>,
    pub dop_ref: Option<Seq<char>>,
    pub physical_default: Option<Seq<char>>,
    pub mandatory: bool,
}

impl View for Param {
    type V = ParamModel;

    open spec fn view(&self) -> ParamModel {
        ParamModel {
            id: self.id@,
            short_name: self.short_name@,
            long_name: opt_text(self.long_name),
            description: opt_text(self.description),
            param_type: self.param_type,
            semantic: self.semantic,
            byte_position: self.byte_position,
            bit_position: self.bit_position,
            byte_size: self.byte_size,
            bit_size: self.bit_size,
            coded_value: self.coded_value,
            dop_ref: opt_text(self.dop_ref),
            physical_default: opt_text(self.physical_default),
            mandatory: self.mandatory,
        }
    }
}

/// The parameters of a list as plain values.
pub open spec fn params_view(v: Seq<Param>) -> Seq<ParamModel> {
    v.map_values(|x: Param| x@)
}

/// A request or a response as plain values.
pub ghost struct MessageModel {
    pub id: Seq<char>,
    pub short_name: Seq<char>,
    pub params: Seq<ParamModel>,
}

impl View for Request {
    type V = MessageModel;

    open spec fn view(&self) -> MessageModel {
        MessageModel { id: self.id@, short_name: self.short_name@, params: params_view(self.params@) }
    }
}

impl View for Response {
    type V = MessageModel;

    open spec fn view(&self) -> MessageModel {
        MessageModel { id: self.id@, short_name: self.short_name@, params: params_view(self.params@) }
    }
}

/// An optional request as plain values.
pub open spec fn opt_request(o: Option<Request>) -> Option<MessageModel> {
    match o {
        Some(x) => Some(x@),
        None => None,
    }
}

/// An optional response as plain values.
pub open spec fn opt_response(o: Option<Response>) -> Option<MessageModel> {
    match o {
        Some(x) => Some(x@),
        None => None,
    }
}

/// A diagnostic service as plain values.
pub ghost struct ServiceModel {
    pub id: Seq<char>,
    pub short_name: Seq<char>,
    pub long_name: Option<Seq<char>>,
    pub description: Option<Seq<char>>,
    pub service_id: Option<u8>,
    pub semantic: Option<Seq<char>>,
    pub request: Option<MessageModel>,
    pub positive_response: Option<MessageModel>,
    pub negative_response: Option<MessageModel>,
    pub functional_class_refs: Seq<Seq<char>>,
    pub audience: Option<Audience>,
    pub addressing_physical: bool,
    pub addressing_functional: bool,
}

impl View for DiagService {
    type V = ServiceModel;

    open spec fn view(&self) -> ServiceModel {
        ServiceModel {
            id: self.id@,
            short_name: self.short_name@,
            long_name: opt_text(self.long_name),
            description: opt_text(self.description),
            service_id: self.service_id,
            semantic: opt_text(self.semantic),
            request: opt_request(self.request),
            positive_response: opt_response(self.positive_response),
            negative_response: opt_response(self.negative_response),
            functional_class_refs: texts(self.functional_class_refs@),
            audience: self.audience,
            addressing_physical: self.addressing_physical,
            addressing_functional: self.addressing_functional,
        }
    }
}

/// A trouble code as plain values.
pub ghost struct DtcModel {
    pub id: Seq<char>,
    pub short_name: Seq<char>,
    pub long_name: Option<Seq<char>>,
    pub description: Option<Seq<char>>,
    pub code: u32,
    pub display_code: Option<Seq<char>>,
    pub severity: DtcSeverity,
    pub functional_class_refs: Seq<Seq<char>>,
    pub text: Option<Seq<char>>,
    pub level: Option<u8>,
}

impl View for Dtc {
    type V = DtcModel;

    open spec fn view(&self) -> DtcModel {
        DtcModel {
            id: self.id@,
            short_name: self.short_name@,
            long_name: opt_text(self.long_name),
            description: opt_text(self.description),
            code: self.code,
            display_code: opt_text(self.display_code),
            severity: self.severity,
            functional_class_refs: texts(self.functional_class_refs@),
            text: opt_text(self.text),
            level: self.level,
        }
    }
}

/// A single-ECU job as plain values.
pub ghost struct JobModel {
    pub id: Seq<char>,
    pub short_name: Seq<char>,
    pub description: Option<Seq<char>>,
    pub functional_class_refs: Seq<Seq<char>>,
    pub audience: Option<Audience>,
    pub prog_language: Option<Seq<char>>,
    pub code: Option<Seq<char>>,
}

impl View for SingleEcuJob {
    type V = JobModel;

    open spec fn view(&self) -> JobModel {
        JobModel {
            id: self.id@,
            short_name: self.short_name@,
            description: opt_text(self.description),
            functional_class_refs: texts(self.functional_class_refs@),
            audience: self.audience,
            prog_language: opt_text(self.prog_language),
            code: opt_text(self.code),
        }
    }
}

/// A communication parameter as plain values.
pub ghost struct ComparamModel {
    pub id: Seq<char>,
    pub short_name: Seq<char>,
    pub description: Option<Seq<char>>,
    pub param_class: ComparamClass,
    pub physical_default: Option<Seq<char>>,
    pub dop_ref: Option<Seq<char>>,
}

impl View for Comparam {
    type V = ComparamModel;

    open spec fn view(&self) -> ComparamModel {
        ComparamModel {
            id: self.id@,
            short_name: self.short_name@,
            description: opt_text(self.description),
            param_class: self.param_class,
            physical_default: opt_text(self.physical_default),
            dop_ref: opt_text(self.dop_ref),
        }
    }
}

/// A communication parameter specification as plain values.
pub ghost struct ComparamSpecModel {
    pub id: Seq<char>,
    pub short_name: Seq<char>,
    pub description: Option<Seq<char>>,
    pub protocol_type: Option<Seq<char>>,
    pub comparams: Seq<ComparamModel>,
}

impl View for ComparamSpec {
    type V = ComparamSpecModel;

    open spec fn view(&self) -> ComparamSpecModel {
        ComparamSpecModel {
            id: self.id@,
            short_name: self.short_name@,
            description: opt_text(self.description),
            protocol_type: opt_text(self.protocol_type),
            comparams: self.comparams@.map_values(|x: Comparam| x@),
        }
    }
}

/// A logical link as plain values.
pub ghost struct LinkModel {
    pub short_name: Seq<char>,
    pub description: Option<Seq<char>>,
    pub protocol_ref: Option<Seq<char>>,
    pub physical_vehicle_link_ref: Option<Seq<char>>,
}

impl View for LogicalLink {
    type V = LinkModel;

    open spec fn view(&self) -> LinkModel {
        LinkModel {
            short_name: self.short_name@,
            description: opt_text(self.description),
            protocol_ref: opt_text(self.protocol_ref),
            physical_vehicle_link_ref: opt_text(self.physical_vehicle_link_ref),
        }
    }
}

/// Vehicle information as plain values.
pub ghost struct VehicleInfoModel {
    pub short_name: Seq<char>,
    pub long_name: Option<Seq<char>>,
    pub description: Option<Seq<char>>,
    pub logical_links: Seq<LinkModel>,
}

impl View for VehicleInfo {
    type V = VehicleInfoModel;

    open spec fn view(&self) -> VehicleInfoModel {
        VehicleInfoModel {
            short_name: self.short_name@,
            long_name: opt_text(self.long_name),
            description: opt_text(self.description),
            logical_links: self.logical_links@.map_values(|x: LogicalLink| x@),
        }
    }
}

/// Diagnostic layer: a container for diagnostic services.
#[derive(Debug, Clone, Default)]
pub struct DiagLayer {
    /// Unique identifier
    pub id: String,
    /// Short name
    pub short_name: String,
    /// Long name
    pub long_name: Option<String>,
    /// Description
    pub description: Option<String>,
    /// Layer type
    pub layer_type: DiagLayerType,
    /// Parent layer references
    pub parent_refs: Vec<String>,
    /// Diagnostic services
    pub services: Vec<DiagService>,
    /// Single ECU jobs
    pub single_ecu_jobs: Vec<SingleEcuJob>,
    /// Diagnostic trouble codes
    pub dtcs: Vec<Dtc>,
    /// Data dictionary (parameters)
    pub data_dictionary: Vec<DataDictionaryEntry>,
    /// Communication parameters
    pub comparam_refs: Vec<String>,
    /// Functional classes
    pub functional_classes: Vec<FunctionalClass>,
    /// Audience (access level)
    pub audience: Option<Audience>,
}

/// A diagnostic layer as plain values (the data dictionary and the
/// functional classes as they are).
pub ghost struct LayerModel {
    pub id: Seq<char>,
    pub short_name: Seq<char>,
    pub long_name: Option<Seq<char>>,
    pub description: Option<Seq<char>>,
    pub layer_type: DiagLayerType,
    pub parent_refs: Seq<Seq<char>>,
    pub services: Seq<ServiceModel>,
    pub single_ecu_jobs: Seq<JobModel>,
    pub dtcs: Seq<DtcModel>,
    pub data_dictionary: Seq<DataDictionaryEntry>,
    pub comparam_refs: Seq<Seq<char>>,
    pub functional_classes: Seq<FunctionalClass>,
    pub audience: Option<Audience>,
}

/// The services of a list as plain values.
pub open spec fn services_view(v: Seq<DiagService>) -> Seq<ServiceModel> {
    v.map_values(|x: DiagService| x@)
}

/// The trouble codes of a list as plain values.
pub open spec fn dtcs_view(v: Seq<Dtc>) -> Seq<DtcModel> {
    v.map_values(|x: Dtc| x@)
}

impl View for DiagLayer {
    type V = LayerModel;

    open spec fn view(&self) -> LayerModel {
        LayerModel {
            id: self.id@,
            short_name: self.short_name@,
            long_name: opt_text(self.long_name),
            description: opt_text(self.description),
            layer_type: self.layer_type,
            parent_refs: texts(self.parent_refs@),
            services: services_view(self.services@),
            single_ecu_jobs: self.single_ecu_jobs@.map_values(|x: SingleEcuJob| x@),
            dtcs: dtcs_view(self.dtcs@),
            data_dictionary: self.data_dictionary@,
            comparam_refs: texts(self.comparam_refs@),
            functional_classes: self.functional_classes@,
            audience: self.audience,
        }
    }
}

/// An empty layer with the given identifier, short name and type.
pub open spec fn empty_layer(id: Seq<char>, short_name: Seq<char>, t: DiagLayerType) -> LayerModel {
    LayerModel {
        id,
        short_name,
        long_name: None,
        description: None,
        layer_type: t,
        parent_refs: Seq::empty(),
        services: Seq::empty(),
        single_ecu_jobs: Seq::empty(),
        dtcs: Seq::empty(),
        data_dictionary: Seq::empty(),
        comparam_refs: Seq::empty(),
        functional_classes: Seq::empty(),
        audience: None,
    }
}

/// A service named `name`.
pub open spec fn service_named(name: Seq<char>) -> spec_fn(DiagService) -> bool {
    |x: DiagService| x.short_name@ == name
}

/// A service with service identifier `sid`.
pub open spec fn service_with_id(sid: u8) -> spec_fn(DiagService) -> bool {
    |x: DiagService| x.service_id == Some(sid)
}

/// A trouble code with code `code`.
pub open spec fn dtc_with_code(code: u32) -> spec_fn(Dtc) -> bool {
    |x: Dtc| x.code == code
}

impl DiagLayer {
    /// A new, empty diagnostic layer.
    pub fn new(id: &str, short_name: &str, layer_type: DiagLayerType) -> (r: Self)
        ensures
            r@ == empty_layer(id@, short_name@, layer_type),
    {
        let r = DiagLayer {
            id: owned(id),
            short_name: owned(short_name),
            long_name: None,
            description: None,
            layer_type,
            parent_refs: Vec::new(),
            services: Vec::new(),
            single_ecu_jobs: Vec::new(),
            dtcs: Vec::new(),
            data_dictionary: Vec::new(),
            comparam_refs: Vec::new(),
            functional_classes: Vec::new(),
            audience: None,
        };
        assert(r@.parent_refs =~= Seq::<Seq<char>>::empty());
        assert(r@.services =~= Seq::<ServiceModel>::empty());
        assert(r@.single_ecu_jobs =~= Seq::<JobModel>::empty());
        assert(r@.dtcs =~= Seq::<DtcModel>::empty());
        assert(r@.comparam_refs =~= Seq::<Seq<char>>::empty());
        r
    }

    /// Find a service by name: the first of that name.
    pub fn find_service(&self, name: &str) -> (r: Option<&DiagService>)
        ensures
            match first_where(self.services@, service_named(name@)) {
                Some(i) => r == Some(&self.services@[i]),
                None => r is None,
            },
    {
        let n = chars_of(name);
        let mut i: usize = 0;
        while i < self.services.len()
            invariant
                i <= self.services.len(),
                n@ == name@,
                forall|j: int| 0 <= j < i ==> !service_named(name@)(#[trigger] self.services@[j]),
            decreases self.services.len() - i,
        {
            let s = chars_of(self.services[i].short_name.as_str());
            if chars_eq(s.as_slice(), n.as_slice()) {
                proof {
                    lemma_first_where_at(self.services@, service_named(name@), i as int);
                }
                return Some(&self.services[i]);
            }
            i += 1;
        }
        None
    }

    /// Find a service by service identifier: the first with it.
    pub fn find_service_by_id(&self, service_id: u8) -> (r: Option<&DiagService>)
        ensures
            match first_where(self.services@, service_with_id(service_id)) {
                Some(i) => r == Some(&self.services@[i]),
                None => r is None,
            },
    {
        let mut i: usize = 0;
        while i < self.services.len()
            invariant
                i <= self.services.len(),
                forall|j: int| 0 <= j < i ==> !service_with_id(service_id)(#[trigger] self.services@[j]),
            decreases self.services.len() - i,
        {
            if self.services[i].service_id == Some(service_id) {
                proof {
                    lemma_first_where_at(self.services@, service_with_id(service_id), i as int);
                }
                return Some(&self.services[i]);
            }
            i += 1;
        }
        None
    }

    /// Find a DTC by code: the first with it.
    pub fn find_dtc(&self, code: u32) -> (r: Option<&Dtc>)
        ensures
            match first_where(self.dtcs@, dtc_with_code(code)) {
                Some(i) => r == Some(&self.dtcs@[i]),
                None => r is None,
            },
    {
        let mut i: usize = 0;
        while i < self.dtcs.len()
            invariant
                i <= self.dtcs.len(),
                forall|j: int| 0 <= j < i ==> !dtc_with_code(code)(#[trigger] self.dtcs@[j]),
            decreases self.dtcs.len() - i,
        {
            if self.dtcs[i].code == code {
                proof {
                    lemma_first_where_at(self.dtcs@, dtc_with_code(code), i as int);
                }
                return Some(&self.dtcs[i]);
            }
            i += 1;
        }
        None
    }

    /// Add a service at the end.
    pub fn add_service(&mut self, service: DiagService)
        ensures
            final(self)@ == (LayerModel { services: old(self)@.services.push(service@), ..old(self)@ }),
    {
        let ghost v = service@;
        self.services.push(service);
        assert(self@.services =~= old(self)@.services.push(v));
    }

    /// Add a DTC at the end.
    pub fn add_dtc(&mut self, dtc: Dtc)
        ensures
            final(self)@ == (LayerModel { dtcs: old(self)@.dtcs.push(dtc@), ..old(self)@ }),
    {
        let ghost v = dtc@;
        self.dtcs.push(dtc);
        assert(self@.dtcs =~= old(self)@.dtcs.push(v));
    }
}

/// ODX database: the root container for parsed ODX data.
#[derive(Debug, Clone, Default)]
pub struct OdxDatabase {
    /// Database short name
    pub short_name: String,
    /// Database long name
    pub long_name: Option<String>,
    /// Description
    pub description: Option<String>,
    /// ODX version
    pub version: Option<String>,
    /// Diagnostic layers
    pub diag_layers: Vec<DiagLayer>,
    /// Communication parameters
    pub comparam_specs: Vec<ComparamSpec>,
    /// Vehicle information
    pub vehicle_info: Option<VehicleInfo>,
    /// ECU shared data
    pub ecu_shared_data: Option<EcuSharedData>,
    /// Functional groups
    pub functional_groups: Vec<FunctionalGroup>,
}

/// The database as plain values (the shared data and the functional groups
/// as they are).
pub ghost struct OdxModel {
    pub short_name: Seq<char>,
    pub long_name: Option<Seq<char>>,
    pub description: Option<Seq<char>>,
    pub version: Option<Seq<char>>,
    pub diag_layers: Seq<LayerModel>,
    pub comparam_specs: Seq<ComparamSpecModel>,
    pub vehicle_info: Option<VehicleInfoModel>,
    pub ecu_shared_data: Option<EcuSharedData>,
    pub functional_groups: Seq<FunctionalGroup>,
}

/// The layers of a list as plain values.
pub open spec fn layers_view(v: Seq<DiagLayer>) -> Seq<LayerModel> {
    v.map_values(|x: DiagLayer| x@)
}

/// Optional vehicle information as plain values.
pub open spec fn opt_vehicle(o: Option<VehicleInfo>) -> Option<VehicleInfoModel> {
    match o {
        Some(x) => Some(x@),
        None => None,
    }
}

impl View for OdxDatabase {
    type V = OdxModel;

    open spec fn view(&self) -> OdxModel {
        OdxModel {
            short_name: self.short_name@,
            long_name: opt_text(self.long_name),
            description: opt_text(self.description),
            version: opt_text(self.version),
            diag_layers: layers_view(self.diag_layers@),
            comparam_specs: self.comparam_specs@.map_values(|x: ComparamSpec| x@),
            vehicle_info: opt_vehicle(self.vehicle_info),
            ecu_shared_data: self.ecu_shared_data,
            functional_groups: self.functional_groups@,
        }
    }
}

/// The empty database.
pub open spec fn empty_odx() -> OdxModel {
    OdxModel {
        short_name: Seq::empty(),
        long_name: None,
        description: None,
        version: None,
        diag_layers: Seq::empty(),
        comparam_specs: Seq::empty(),
        vehicle_info: None,
        ecu_shared_data: None,
        functional_groups: Seq::empty(),
    }
}

/// The services of the layers, layer by layer.
pub open spec fn all_services_of(layers: Seq<DiagLayer>) -> Seq<DiagService>
    decreases layers.len(),
{
    if layers.len() == 0 {
        Seq::empty()
    } else {
        all_services_of(layers.drop_last()) + layers.last().services@
    }
}

/// The trouble codes of the layers, layer by layer.
pub open spec fn all_dtcs_of(layers: Seq<DiagLayer>) -> Seq<Dtc>
    decreases layers.len(),
{
    if layers.len() == 0 {
        Seq::empty()
    } else {
        all_dtcs_of(layers.drop_last()) + layers.last().dtcs@
    }
}

/// The first service named `name` in the layers, searched layer by layer.
pub open spec fn service_in_layers(layers: Seq<DiagLayer>, name: Seq<char>) -> Option<DiagService>
    decreases layers.len(),
{
    if layers.len() == 0 {
        None
    } else {
        match service_in_layers(layers.drop_last(), name) {
            Some(x) => Some(x),
            None => match first_where(layers.last().services@, service_named(name)) {
                Some(i) => Some(layers.last().services@[i]),
                None => None,
            },
        }
    }
}

/// The first trouble code with `code` in the layers, searched layer by
/// layer.
pub open spec fn dtc_in_layers(layers: Seq<DiagLayer>, code: u32) -> Option<Dtc>
    decreases layers.len(),
{
    if layers.len() == 0 {
        None
    } else {
        match dtc_in_layers(layers.drop_last(), code) {
            Some(x) => Some(x),
            None => match first_where(layers.last().dtcs@, dtc_with_code(code)) {
                Some(i) => Some(layers.last().dtcs@[i]),
                None => None,
            },
        }
    }
}

/// A layer named `name`.
pub open spec fn layer_named(name: Seq<char>) -> spec_fn(DiagLayer) -> bool {
    |x: DiagLayer| x.short_name@ == name
}

impl OdxDatabase {
    /// A new, empty database.
    pub fn new() -> (r: Self)
        ensures
            r@ == empty_odx(),
    {
        let r = OdxDatabase {
            short_name: String::new(),
            long_name: None,
            description: None,
            version: None,
            diag_layers: Vec::new(),
            comparam_specs: Vec::new(),
            vehicle_info: None,
            ecu_shared_data: None,
            functional_groups: Vec::new(),
        };
        assert(r@.diag_layers =~= Seq::<LayerModel>::empty());
        assert(r@.comparam_specs =~= Seq::<ComparamSpecModel>::empty());
        r
    }

    /// Find a diagnostic layer by short name: the first of that name.
    pub fn find_diag_layer(&self, name: &str) -> (r: Option<&DiagLayer>)
        ensures
            match first_where(self.diag_layers@, layer_named(name@)) {
                Some(i) => r == Some(&self.diag_layers@[i]),
                None => r is None,
            },
    {
        let n = chars_of(name);
        let mut i: usize = 0;
        while i < self.diag_layers.len()
            invariant
                i <= self.diag_layers.len(),
                n@ == name@,
                forall|j: int| 0 <= j < i ==> !layer_named(name@)(#[trigger] self.diag_layers@[j]),
            decreases self.diag_layers.len() - i,
        {
            let s = chars_of(self.diag_layers[i].short_name.as_str());
            if chars_eq(s.as_slice(), n.as_slice()) {
                proof {
                    lemma_first_where_at(self.diag_layers@, layer_named(name@), i as int);
                }
                return Some(&self.diag_layers[i]);
            }
            i += 1;
        }
        None
    }

    /// Find a service by name across all layers: the first of that name in
    /// the first layer that has one.
    pub fn find_service(&self, name: &str) -> (r: Option<&DiagService>)
        ensures
            match service_in_layers(self.diag_layers@, name@) {
                Some(x) => r matches Some(y) && *y == x,
                None => r is None,
            },
    {
        let mut i: usize = 0;
        while i < self.diag_layers.len()
            invariant
                i <= self.diag_layers.len(),
                service_in_layers(self.diag_layers@.take(i as int), name@) is None,
            decreases self.diag_layers.len() - i,
        {
            assert(self.diag_layers@.take(i + 1).drop_last() =~= self.diag_layers@.take(i as int));
            match self.diag_layers[i].find_service(name) {
                Some(s) => {
                    proof {
                        lemma_found_in_prefix_service(self.diag_layers@, name@, (i + 1) as int);
                    }
                    return Some(s);
                },
                None => {},
            }
            i += 1;
        }
        assert(self.diag_layers@.take(i as int) =~= self.diag_layers@);
        None
    }

    /// Find a DTC by code across all layers: the first with it in the first
    /// layer that has one.
    pub fn find_dtc(&self, code: u32) -> (r: Option<&Dtc>)
        ensures
            match dtc_in_layers(self.diag_layers@, code) {
                Some(x) => r matches Some(y) && *y == x,
                None => r is None,
            },
    {
        let mut i: usize = 0;
        while i < self.diag_layers.len()
            invariant
                i <= self.diag_layers.len(),
                dtc_in_layers(self.diag_layers@.take(i as int), code) is None,
            decreases self.diag_layers.len() - i,
        {
            assert(self.diag_layers@.take(i + 1).drop_last() =~= self.diag_layers@.take(i as int));
            match self.diag_layers[i].find_dtc(code) {
                Some(d) => {
                    proof {
                        lemma_found_in_prefix_dtc(self.diag_layers@, code, (i + 1) as int);
                    }
                    return Some(d);
                },
                None => {},
            }
            i += 1;
        }
        assert(self.diag_layers@.take(i as int) =~= self.diag_layers@);
        None
    }

    /// All services across all layers, layer by layer.
    pub fn all_services(&self) -> (r: Vec<&DiagService>)
        ensures
            r@.map_values(|x: &DiagService| *x) == all_services_of(self.diag_layers@),
    {
        let mut out: Vec<&DiagService> = Vec::new();
        let mut i: usize = 0;
        while i < self.diag_layers.len()
            invariant
                i <= self.diag_layers.len(),
                out@.map_values(|x: &DiagService| *x) == all_services_of(self.diag_layers@.take(i as int)),
            decreases self.diag_layers.len() - i,
        {
            let layer = &self.diag_layers[i];
            let ghost before = out@.map_values(|x: &DiagService| *x);
            let mut k: usize = 0;
            while k < layer.services.len()
                invariant
                    k <= layer.services.len(),
                    out@.map_values(|x: &DiagService| *x) == before + layer.services@.take(k as int),
                decreases layer.services.len() - k,
            {
                let ghost prev = out@;
                out.push(&layer.services[k]);
                assert(prev.map_values(|x: &DiagService| *x) == before + layer.services@.take(k as int));
                assert(out@ == prev.push(&layer.services@[k as int]));
                assert(out@.map_values(|x: &DiagService| *x) =~= prev.map_values(|x: &DiagService| *x).push(layer.services@[k as int]));
                assert(layer.services@.take(k + 1) =~= layer.services@.take(k as int).push(layer.services@[k as int]));
                assert(out@.map_values(|x: &DiagService| *x) =~= before + layer.services@.take(k + 1));
                k += 1;
            }
            assert(layer.services@.take(k as int) =~= layer.services@);
            assert(self.diag_layers@.take(i + 1).drop_last() =~= self.diag_layers@.take(i as int));
            i += 1;
        }
        assert(self.diag_layers@.take(i as int) =~= self.diag_layers@);
        out
    }

    /// All DTCs across all layers, layer by layer.
    pub fn all_dtcs(&self) -> (r: Vec<&Dtc>)
        ensures
            r@.map_values(|x: &Dtc| *x) == all_dtcs_of(self.diag_layers@),
    {
        let mut out: Vec<&Dtc> = Vec::new();
        let mut i: usize = 0;
        while i < self.diag_layers.len()
            invariant
                i <= self.diag_layers.len(),
                out@.map_values(|x: &Dtc| *x) == all_dtcs_of(self.diag_layers@.take(i as int)),
            decreases self.diag_layers.len() - i,
        {
            let layer = &self.diag_layers[i];
            let ghost before = out@.map_values(|x: &Dtc| *x);
            let mut k: usize = 0;
            while k < layer.dtcs.len()
                invariant
                    k <= layer.dtcs.len(),
                    out@.map_values(|x: &Dtc| *x) == before + layer.dtcs@.take(k as int),
                decreases layer.dtcs.len() - k,
            {
                let ghost prev = out@;
                out.push(&layer.dtcs[k]);
                assert(prev.map_values(|x: &Dtc| *x) == before + layer.dtcs@.take(k as int));
                assert(out@ == prev.push(&layer.dtcs@[k as int]));
                assert(out@.map_values(|x: &Dtc| *x) =~= prev.map_values(|x: &Dtc| *x).push(layer.dtcs@[k as int]));
                assert(layer.dtcs@.take(k + 1) =~= layer.dtcs@.take(k as int).push(layer.dtcs@[k as int]));
                assert(out@.map_values(|x: &Dtc| *x) =~= before + layer.dtcs@.take(k + 1));
                k += 1;
            }
            assert(layer.dtcs@.take(k as int) =~= layer.dtcs@);
            assert(self.diag_layers@.take(i + 1).drop_last() =~= self.diag_layers@.take(i as int));
            i += 1;
        }
        assert(self.diag_layers@.take(i as int) =~= self.diag_layers@);
        out
    }
}

proof fn lemma_found_in_prefix_service(layers: Seq<DiagLayer>, name: Seq<char>, n: int)
    requires
        0 < n <= layers.len(),
        service_in_layers(layers.take(n - 1), name) is None,
        first_where(layers[n - 1].services@, service_named(name)) is Some,
    ensures
        service_in_layers(layers, name) == Some(
            layers[n - 1].services@[first_where(layers[n - 1].services@, service_named(name))->0],
        ),
    decreases layers.len() - n,
{
    if n < layers.len() {
        assert(layers.drop_last().take(n - 1) =~= layers.take(n - 1));
        assert(layers.drop_last()[n - 1] == layers[n - 1]);
        lemma_found_in_prefix_service(layers.drop_last(), name, n);
    } else {
        assert(layers.take(n - 1) =~= layers.drop_last());
    }
}

proof fn lemma_found_in_prefix_dtc(layers: Seq<DiagLayer>, code: u32, n: int)
    requires
        0 < n <= layers.len(),
        dtc_in_layers(layers.take(n - 1), code) is None,
        first_where(layers[n - 1].dtcs@, dtc_with_code(code)) is Some,
    ensures
        dtc_in_layers(layers, code) == Some(
            layers[n - 1].dtcs@[first_where(layers[n - 1].dtcs@, dtc_with_code(code))->0],
        ),
    decreases layers.len() - n,
{
    if n < layers.len() {
        assert(layers.drop_last().take(n - 1) =~= layers.take(n - 1));
        assert(layers.drop_last()[n - 1] == layers[n - 1]);
        lemma_found_in_prefix_dtc(layers.drop_last(), code, n);
    } else {
        assert(layers.take(n - 1) =~= layers.drop_last());
    }
}

/// ODX parser.
pub struct OdxParser;

impl OdxParser {
    /// Read an ODX number field (see `odx_number_spec`).
    pub fn parse_number(s: &str) -> (r: Option<i64>)
        ensures
            r == odx_number_spec(s@),
    {
        let v = chars_of(s);
        let t = trim(v.as_slice());
        let ts = t.as_slice();
        let n = ts.len();
        let r = if n >= 2 && ts[0] == '0' && (ts[1] == 'x' || ts[1] == 'X') {
            parse_i64_radix(ts, 2, n, 16)
        } else if n >= 2 && ts[0] == '0' && (ts[1] == 'b' || ts[1] == 'B') {
            parse_i64_radix(ts, 2, n, 2)
        } else {
            assert(t@.subrange(0, n as int) =~= t@);
            parse_i64_radix(ts, 0, n, 10)
        };
        match r {
            Ok(v) => Some(v),
            Err(_) => None,
        }
    }
}

/// The letter of a trouble code in OBD-II form is fixed by bits 23-22 of
/// the code: 0 gives `P` (powertrain), 1 `C` (chassis), 2 `B` (body) and
/// 3 `U` (network), so two codes get the same letter exactly when those
/// bits agree.
pub proof fn lemma_obd_letter(code: u32, other: u32)
    ensures
        obd_code_text(code).len() == 5,
        (code / 0x400000) % 4 == 0 ==> obd_code_text(code)[0] == 'P',
        (code / 0x400000) % 4 == 1 ==> obd_code_text(code)[0] == 'C',
        (code / 0x400000) % 4 == 2 ==> obd_code_text(code)[0] == 'B',
        (code / 0x400000) % 4 == 3 ==> obd_code_text(code)[0] == 'U',
        (obd_code_text(code)[0] == obd_code_text(other)[0]) <==> ((code / 0x400000) % 4 == (other / 0x400000) % 4),
{
    assert((code / 0x10000) % 0x100 / 64 == (code / 0x400000) % 4) by (bit_vector);
    assert((other / 0x10000) % 0x100 / 64 == (other / 0x400000) % 4) by (bit_vector);
}

/// Different hexadecimal digit values are written as different characters.
proof fn lemma_digit_char_distinct(d: int, e: int)
    requires
        0 <= d < 16,
        0 <= e < 16,
        d != e,
    ensures
        digit_char(d) != digit_char(e),
{
    assert(digit_char(d) as int == if d < 10 { d + 48 } else { d + 55 });
    assert(digit_char(e) as int == if e < 10 { e + 48 } else { e + 55 });
}

/// The OBD-II form of a trouble code is fixed by bits 23-8 of the code, and
/// different values of those bits give different texts: two codes have the
/// same OBD-II text exactly when their bits 23-8 agree.
pub proof fn lemma_obd_code_determined(a: u32, b: u32)
    ensures
        (obd_code_text(a) == obd_code_text(b)) <==> ((a / 0x100) % 0x10000 == (b / 0x100) % 0x10000),
{
    lemma_obd_letter(a, b);
    let xa: u32 = (a / 0x100) % 0x10000;
    let xb: u32 = (b / 0x100) % 0x10000;
    assert((a / 0x400000) % 4 == xa / 0x4000 && (a / 0x100000) % 4 == (xa / 0x1000) % 4
        && (a / 0x10000) % 16 == (xa / 0x100) % 16 && (a / 0x1000) % 16 == (xa / 0x10) % 16
        && (a / 0x100) % 16 == xa % 16) by (bit_vector)
        requires
            xa == (a / 0x100) % 0x10000,
    ;
    assert((b / 0x400000) % 4 == xb / 0x4000 && (b / 0x100000) % 4 == (xb / 0x1000) % 4
        && (b / 0x10000) % 16 == (xb / 0x100) % 16 && (b / 0x1000) % 16 == (xb / 0x10) % 16
        && (b / 0x100) % 16 == xb % 16) by (bit_vector)
        requires
            xb == (b / 0x100) % 0x10000,
    ;
    assert(xa < 0x10000 && xb < 0x10000);
    assert(xa == (xa / 0x4000) * 0x4000 + ((xa / 0x1000) % 4) * 0x1000 + ((xa / 0x100) % 16) * 0x100 + ((xa / 0x10)
        % 16) * 0x10 + xa % 16) by (bit_vector)
        requires
            xa < 0x10000,
    ;
    assert(xb == (xb / 0x4000) * 0x4000 + ((xb / 0x1000) % 4) * 0x1000 + ((xb / 0x100) % 16) * 0x100 + ((xb / 0x10)
        % 16) * 0x10 + xb % 16) by (bit_vector)
        requires
            xb < 0x10000,
    ;
    let ta = obd_code_text(a);
    let tb = obd_code_text(b);
    if ta == tb {
        assert(ta[0] == tb[0]);
        if (xa / 0x1000) % 4 != (xb / 0x1000) % 4 {
            lemma_digit_char_distinct(((a / 0x100000) % 4) as int, ((b / 0x100000) % 4) as int);
            assert(ta[1] != tb[1]);
        }
        if (xa / 0x100) % 16 != (xb / 0x100) % 16 {
            lemma_digit_char_distinct(((a / 0x10000) % 16) as int, ((b / 0x10000) % 16) as int);
            assert(ta[2] != tb[2]);
        }
        if (xa / 0x10) % 16 != (xb / 0x10) % 16 {
            lemma_digit_char_distinct(((a / 0x1000) % 16) as int, ((b / 0x1000) % 16) as int);
            assert(ta[3] != tb[3]);
        }
        if xa % 16 != xb % 16 {
            lemma_digit_char_distinct(((a / 0x100) % 16) as int, ((b / 0x100) % 16) as int);
            assert(ta[4] != tb[4]);
        }
    }
    if xa == xb {
        assert(ta =~= tb);
    }
}

} // verus!
