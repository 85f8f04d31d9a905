//! ECU catalogue: manufacturers, ECU types and families, the UDS data
//! identifiers used to identify an ECU, scan settings, A2L associations and
//! a VIN decoder.
use vstd::prelude::*;
use crate::a2l::{first_named, lemma_first_named_at, lemma_first_named_found, opt_text};
use crate::dbf::contains_seq;
use crate::ecu_families::builtin_families;
use crate::text::{chars_of, owned, string_from_chars, to_uppercase, unicode_uppercase};

verus! {

broadcast use vstd::string::group_string_axioms;

/// ECU manufacturer/supplier.
#[derive(Debug, Clone, Copy, PartialEq, Eq, Hash, Structural)]
pub enum EcuManufacturer {
    /// Robert Bosch GmbH - World's largest automotive supplier
    Bosch,
    /// Continental AG (includes former Siemens VDO)
    Continental,
    /// Denso Corporation - Major Japanese supplier
    Denso,
    /// Delphi Technologies (now Aptiv/BorgWarner)
    Delphi,
    /// Magneti Marelli (now Marelli Holdings)
    MagnetiMarelli,
    /// Hitachi Automotive Systems
    Hitachi,
    /// Mitsubishi Electric
    MitsubishiElectric,
    /// ZF Friedrichshafen AG
    Zf,
    /// Valeo SA
    Valeo,
    /// Visteon Corporation
    Visteon,
    /// Hyundai Kefico
    HyundaiKefico,
    /// Keihin Corporation (now part of Hitachi Astemo)
    Keihin,
    /// Marelli (formerly Calsonic Kansei + Magneti Marelli)
    Marelli,
    /// Aptiv (formerly Delphi Automotive)
    Aptiv,
    /// Unknown manufacturer
    Unknown,
}

/// The name of a manufacturer.
pub open spec fn manufacturer_name(m: EcuManufacturer) -> Seq<char> {
    match m {
        EcuManufacturer::Bosch => "Bosch"@,
        EcuManufacturer::Continental => "Continental/Siemens"@,
        EcuManufacturer::Denso => "Denso"@,
        EcuManufacturer::Delphi => "Delphi"@,
        EcuManufacturer::MagnetiMarelli => "Magneti Marelli"@,
        EcuManufacturer::Hitachi => "Hitachi"@,
        EcuManufacturer::MitsubishiElectric => "Mitsubishi Electric"@,
        EcuManufacturer::Zf => "ZF"@,
        EcuManufacturer::Valeo => "Valeo"@,
        EcuManufacturer::Visteon => "Visteon"@,
        EcuManufacturer::HyundaiKefico => "Hyundai Kefico"@,
        EcuManufacturer::Keihin => "Keihin"@,
        EcuManufacturer::Marelli => "Marelli"@,
        EcuManufacturer::Aptiv => "Aptiv"@,
        EcuManufacturer::Unknown => "Unknown"@,
    }
}

/// Distinct manufacturers have distinct names.
pub proof fn lemma_manufacturer_names_distinct(a: EcuManufacturer, b: EcuManufacturer)
    requires
        a != b,
    ensures
        manufacturer_name(a) != manufacturer_name(b),
{
    reveal_strlit("Bosch");
    reveal_strlit("Continental/Siemens");
    reveal_strlit("Denso");
    reveal_strlit("Delphi");
    reveal_strlit("Magneti Marelli");
    reveal_strlit("Hitachi");
    reveal_strlit("Mitsubishi Electric");
    reveal_strlit("ZF");
    reveal_strlit("Valeo");
    reveal_strlit("Visteon");
    reveal_strlit("Hyundai Kefico");
    reveal_strlit("Keihin");
    reveal_strlit("Marelli");
    reveal_strlit("Aptiv");
    reveal_strlit("Unknown");
    let x = manufacturer_name(a);
    let y = manufacturer_name(b);
    if x.len() == y.len() {
        assert(x[0] != y[0] || x[1] != y[1] || x[x.len() - 1] != y[y.len() - 1]);
    }
}

impl EcuManufacturer {
    /// Get manufacturer name as string
    pub fn name(&self) -> (r: &'static str)
        ensures
            r@ == manufacturer_name(*self),
    {
        match self {
            EcuManufacturer::Bosch => "Bosch",
            EcuManufacturer::Continental => "Continental/Siemens",
            EcuManufacturer::Denso => "Denso",
            EcuManufacturer::Delphi => "Delphi",
            EcuManufacturer::MagnetiMarelli => "Magneti Marelli",
            EcuManufacturer::Hitachi => "Hitachi",
            EcuManufacturer::MitsubishiElectric => "Mitsubishi Electric",
            EcuManufacturer::Zf => "ZF",
            EcuManufacturer::Valeo => "Valeo",
            EcuManufacturer::Visteon => "Visteon",
            EcuManufacturer::HyundaiKefico => "Hyundai Kefico",
            EcuManufacturer::Keihin => "Keihin",
            EcuManufacturer::Marelli => "Marelli",
            EcuManufacturer::Aptiv => "Aptiv",
            EcuManufacturer::Unknown => "Unknown",
        }
    }
}

/// ECU type/domain.
#[derive(Debug, Clone, Copy, PartialEq, Eq, Hash, Structural)]
pub enum EcuType {
    /// Engine Control Module
    Engine,
    /// Transmission Control Module
    Transmission,
    /// Body Control Module
    Body,
    /// Anti-lock Braking System
    Abs,
    /// Electronic Stability Control
    Esc,
    /// Airbag Control Module
    Airbag,
    /// Instrument Cluster
    Cluster,
    /// Infotainment/Head Unit
    Infotainment,
    /// Gateway ECU
    Gateway,
    /// Battery Management System (EV/Hybrid)
    Bms,
    /// Motor Control Unit (EV)
    MotorControl,
    /// Inverter (EV)
    Inverter,
    /// ADAS/Driver Assistance
    Adas,
    /// Steering Control
    Steering,
    /// Climate Control
    Climate,
    /// Lighting Control
    Lighting,
    /// Door Control
    Door,
    /// Seat Control
    Seat,
    /// Parking Assist
    Parking,
    /// Telematics Control Unit
    Telematics,
    /// Other/Unknown
    Other,
}

/// The name of an ECU type.
pub open spec fn ecu_type_name(t: EcuType) -> Seq<char> {
    match t {
        EcuType::Engine => "Engine Control Module"@,
        EcuType::Transmission => "Transmission Control Module"@,
        EcuType::Body => "Body Control Module"@,
        EcuType::Abs => "ABS Control Module"@,
        EcuType::Esc => "ESC/ESP Control Module"@,
        EcuType::Airbag => "Airbag Control Module"@,
        EcuType::Cluster => "Instrument Cluster"@,
        EcuType::Infotainment => "Infotainment System"@,
        EcuType::Gateway => "Gateway ECU"@,
        EcuType::Bms => "Battery Management System"@,
        EcuType::MotorControl => "Motor Control Unit"@,
        EcuType::Inverter => "Inverter"@,
        EcuType::Adas => "ADAS Control Module"@,
        EcuType::Steering => "Steering Control Module"@,
        EcuType::Climate => "Climate Control Module"@,
        EcuType::Lighting => "Lighting Control Module"@,
        EcuType::Door => "Door Control Module"@,
        EcuType::Seat => "Seat Control Module"@,
        EcuType::Parking => "Parking Assist Module"@,
        EcuType::Telematics => "Telematics Control Unit"@,
        EcuType::Other => "Other"@,
    }
}

impl EcuType {
    /// Get ECU type name
    pub fn name(&self) -> (r: &'static str)
        ensures
            r@ == ecu_type_name(*self),
    {
        match self {
            EcuType::Engine => "Engine Control Module",
            EcuType::Transmission => "Transmission Control Module",
            EcuType::Body => "Body Control Module",
            EcuType::Abs => "ABS Control Module",
            EcuType::Esc => "ESC/ESP Control Module",
            EcuType::Airbag => "Airbag Control Module",
            EcuType::Cluster => "Instrument Cluster",
            EcuType::Infotainment => "Infotainment System",
            EcuType::Gateway => "Gateway ECU",
            EcuType::Bms => "Battery Management System",
            EcuType::MotorControl => "Motor Control Unit",
            EcuType::Inverter => "Inverter",
            EcuType::Adas => "ADAS Control Module",
            EcuType::Steering => "Steering Control Module",
            EcuType::Climate => "Climate Control Module",
            EcuType::Lighting => "Lighting Control Module",
            EcuType::Door => "Door Control Module",
            EcuType::Seat => "Seat Control Module",
            EcuType::Parking => "Parking Assist Module",
            EcuType::Telematics => "Telematics Control Unit",
            EcuType::Other => "Other",
        }
    }
}

/// An ECU family as plain values.
pub ghost struct EcuFamilyModel {
    pub name: Seq<char>,
    pub manufacturer: EcuManufacturer,
    pub ecu_type: EcuType,
    pub description: Seq<char>,
    pub processor: Option<Seq<char>>,
    pub protocols: Seq<Seq<char>>,
    pub year_range: Option<(u16, u16)>,
    pub can_baudrate: Option<u32>,
    pub diag_can_id_request: Option<u32>,
    pub diag_can_id_response: Option<u32>,
    pub variants: Seq<Seq<char>>,
}

/// ECU family/platform information.
#[derive(Debug, Clone)]
pub struct EcuFamily {
    /// Family name (e.g., "EDC17", "MED17", "SIMOS")
    pub name: String,
    /// Manufacturer
    pub manufacturer: EcuManufacturer,
    /// ECU type/domain
    pub ecu_type: EcuType,
    /// Description
    pub description: String,
    /// Processor type (e.g., "TC1796", "TC1797", "MPC5xx")
    pub processor: Option<String>,
    /// Supported protocols
    pub protocols: Vec<String>,
    /// Year range (start, end)
    pub year_range: Option<(u16, u16)>,
    /// Typical CAN baudrate
    pub can_baudrate: Option<u32>,
    /// Typical diagnostic CAN ID (request)
    pub diag_can_id_request: Option<u32>,
    /// Typical diagnostic CAN ID (response)
    pub diag_can_id_response: Option<u32>,
    /// Known variants
    pub variants: Vec<String>,
}

/// The strings of a sequence, each taken by its characters.
pub open spec fn strings_view(v: Seq<String>) -> Seq<Seq<char>> {
    v.map_values(|x: String| x@)
}

impl View for EcuFamily {
    type V = EcuFamilyModel;

    open spec fn view(&self) -> EcuFamilyModel {
        EcuFamilyModel {
            name: self.name@,
            manufacturer: self.manufacturer,
            ecu_type: self.ecu_type,
            description: self.description@,
            processor: match self.processor {
                Some(p) => Some(p@),
                None => None,
            },
            protocols: strings_view(self.protocols@),
            year_range: self.year_range,
            can_baudrate: self.can_baudrate,
            diag_can_id_request: self.diag_can_id_request,
            diag_can_id_response: self.diag_can_id_response,
            variants: strings_view(self.variants@),
        }
    }
}

impl EcuFamily {
    /// Create a new ECU family with nothing known beyond its name,
    /// manufacturer and type.
    pub fn new(name: &str, manufacturer: EcuManufacturer, ecu_type: EcuType) -> (r: Self)
        ensures
            r@ == (EcuFamilyModel {
                name: name@,
                manufacturer,
                ecu_type,
                description: Seq::empty(),
                processor: None,
                protocols: Seq::empty(),
                year_range: None,
                can_baudrate: None,
                diag_can_id_request: None,
                diag_can_id_response: None,
                variants: Seq::empty(),
            }),
    {
        let r = EcuFamily {
            name: owned(name),
            manufacturer,
            ecu_type,
            description: String::new(),
            processor: None,
            protocols: Vec::new(),
            year_range: None,
            can_baudrate: None,
            diag_can_id_request: None,
            diag_can_id_response: None,
            variants: Vec::new(),
        };
        assert(strings_view(r.protocols@) =~= Seq::<Seq<char>>::empty());
        assert(strings_view(r.variants@) =~= Seq::<Seq<char>>::empty());
        r
    }

    /// Set description
    pub fn with_description(self, desc: &str) -> (r: Self)
        ensures
            r@ == (EcuFamilyModel { description: desc@, ..self@ }),
    {
        let mut s = self;
        s.description = owned(desc);
        s
    }

    /// Set processor
    pub fn with_processor(self, processor: &str) -> (r: Self)
        ensures
            r@ == (EcuFamilyModel { processor: Some(processor@), ..self@ }),
    {
        let mut s = self;
        s.processor = Some(owned(processor));
        s
    }

    /// Add protocol
    pub fn with_protocol(self, protocol: &str) -> (r: Self)
        ensures
            r@ == (EcuFamilyModel { protocols: self@.protocols.push(protocol@), ..self@ }),
    {
        let mut s = self;
        s.protocols.push(owned(protocol));
        assert(strings_view(s.protocols@) =~= strings_view(self.protocols@).push(protocol@));
        s
    }

    /// Set year range
    pub fn with_years(self, start: u16, end: u16) -> (r: Self)
        ensures
            r@ == (EcuFamilyModel { year_range: Some((start, end)), ..self@ }),
    {
        let mut s = self;
        s.year_range = Some((start, end));
        s
    }

    /// Set diagnostic CAN IDs
    pub fn with_diag_ids(self, request: u32, response: u32) -> (r: Self)
        ensures
            r@ == (EcuFamilyModel {
                diag_can_id_request: Some(request),
                diag_can_id_response: Some(response),
                ..self@
            }),
    {
        let mut s = self;
        s.diag_can_id_request = Some(request);
        s.diag_can_id_response = Some(response);
        s
    }

    /// Add variant
    pub fn add_variant(&mut self, variant: &str)
        ensures
            final(self)@ == (EcuFamilyModel { variants: old(self)@.variants.push(variant@), ..old(self)@ }),
    {
        self.variants.push(owned(variant));
        assert(strings_view(self.variants@) =~= strings_view(old(self).variants@).push(variant@));
    }
}

/// Standard UDS Data Identifiers (DIDs) for ECU identification.
#[derive(Debug, Clone, Copy, PartialEq, Eq, Structural)]
pub struct UdsDid;

impl UdsDid {
    /// VIN (Vehicle Identification Number)
    pub const VIN: u16 = 0xF190;
    /// ECU Manufacturing Date
    pub const MFG_DATE: u16 = 0xF18B;
    /// ECU Serial Number
    pub const SERIAL_NUMBER: u16 = 0xF18C;
    /// Vehicle Manufacturer ECU Software Number
    pub const SW_NUMBER: u16 = 0xF188;
    /// Vehicle Manufacturer ECU Software Version
    pub const SW_VERSION: u16 = 0xF189;
    /// System Supplier ECU Hardware Number
    pub const HW_NUMBER: u16 = 0xF191;
    /// System Supplier ECU Hardware Version
    pub const HW_VERSION: u16 = 0xF193;
    /// System Supplier ECU Software Number
    pub const SUPPLIER_SW_NUMBER: u16 = 0xF194;
    /// System Supplier ECU Software Version
    pub const SUPPLIER_SW_VERSION: u16 = 0xF195;
    /// Boot Software Identification
    pub const BOOT_SW_ID: u16 = 0xF180;
    /// Application Software Identification
    pub const APP_SW_ID: u16 = 0xF181;
    /// Application Data Identification
    pub const APP_DATA_ID: u16 = 0xF182;
    /// Boot Software Fingerprint
    pub const BOOT_FINGERPRINT: u16 = 0xF183;
    /// Application Software Fingerprint
    pub const APP_FINGERPRINT: u16 = 0xF184;
    /// Application Data Fingerprint
    pub const DATA_FINGERPRINT: u16 = 0xF185;
    /// Active Diagnostic Session
    pub const ACTIVE_SESSION: u16 = 0xF186;
    /// Vehicle Manufacturer Spare Part Number
    pub const SPARE_PART_NUMBER: u16 = 0xF187;
    /// ECU Calibration Data Identification
    pub const CAL_DATA_ID: u16 = 0xF18A;
    /// System Name or Engine Type
    pub const SYSTEM_NAME: u16 = 0xF197;
    /// Repair Shop Code or Tester Serial Number
    pub const REPAIR_SHOP_CODE: u16 = 0xF198;
    /// Programming Date
    pub const PROGRAMMING_DATE: u16 = 0xF199;
    /// Calibration Repair Shop Code
    pub const CAL_REPAIR_SHOP: u16 = 0xF19A;
    /// Calibration Date
    pub const CAL_DATE: u16 = 0xF19B;
    /// Calibration Equipment Software Number
    pub const CAL_EQUIPMENT_SW: u16 = 0xF19C;
    /// ECU Installation Date
    pub const INSTALL_DATE: u16 = 0xF19D;
    /// ODX File Identifier
    pub const ODX_FILE_ID: u16 = 0xF19E;
    /// Entity Identifier
    pub const ENTITY_ID: u16 = 0xF19F;

    /// Get all standard identification DIDs, in the order a scan reads them.
    pub fn identification_dids() -> (r: Vec<u16>)
        ensures
            r@ == identification_did_list(),
    {
        let r = vec![
            Self::VIN,
            Self::SW_NUMBER,
            Self::SW_VERSION,
            Self::HW_NUMBER,
            Self::HW_VERSION,
            Self::SERIAL_NUMBER,
            Self::MFG_DATE,
            Self::BOOT_SW_ID,
            Self::APP_SW_ID,
            Self::CAL_DATA_ID,
            Self::SYSTEM_NAME,
            Self::SPARE_PART_NUMBER,
        ];
        assert(r@ =~= identification_did_list());
        r
    }
}

/// The identification DIDs a scan reads, in order.
pub open spec fn identification_did_list() -> Seq<u16> {
    seq![
        0xF190u16, 0xF188u16, 0xF189u16, 0xF191u16, 0xF193u16, 0xF18Cu16, 0xF18Bu16, 0xF180u16,
        0xF181u16, 0xF18Au16, 0xF197u16, 0xF187u16,
    ]
}

/// ECU scanner configuration.
#[derive(Debug, Clone)]
pub struct EcuScanConfig {
    /// Start CAN ID for scanning (default: 0x7E0)
    pub start_id: u32,
    /// End CAN ID for scanning (default: 0x7E7)
    pub end_id: u32,
    /// Use functional addressing (0x7DF broadcast)
    pub use_functional_addressing: bool,
    /// Timeout per ECU in milliseconds
    pub timeout_ms: u32,
    /// DIDs to read for identification
    pub identification_dids: Vec<u16>,
    /// Extended ID range scanning
    pub scan_extended_range: bool,
    /// Extended range start (if enabled)
    pub extended_start: u32,
    /// Extended range end (if enabled)
    pub extended_end: u32,
}

/// The default scan: ids 0x7E0..=0x7E7 with functional addressing, one
/// second per ECU, the standard identification DIDs, and the extended range
/// 0x600..=0x6FF switched off.
pub open spec fn default_scan_config(c: EcuScanConfig) -> bool {
    &&& c.start_id == 0x7E0
    &&& c.end_id == 0x7E7
    &&& c.use_functional_addressing
    &&& c.timeout_ms == 1000
    &&& c.identification_dids@ == identification_did_list()
    &&& !c.scan_extended_range
    &&& c.extended_start == 0x600
    &&& c.extended_end == 0x6FF
}

impl Default for EcuScanConfig {
    fn default() -> (r: Self)
        ensures
            default_scan_config(r),
    {
        EcuScanConfig {
            start_id: 0x7E0,
            end_id: 0x7E7,
            use_functional_addressing: true,
            timeout_ms: 1000,
            identification_dids: UdsDid::identification_dids(),
            scan_extended_range: false,
            extended_start: 0x600,
            extended_end: 0x6FF,
        }
    }
}

impl EcuScanConfig {
    /// Create a new scan configuration with the defaults.
    pub fn new() -> (r: Self)
        ensures
            default_scan_config(r),
    {
        Self::default()
    }

    /// Set ID range
    pub fn with_id_range(self, start: u32, end: u32) -> (r: Self)
        ensures
            r == (EcuScanConfig { start_id: start, end_id: end, ..self }),
    {
        let mut s = self;
        s.start_id = start;
        s.end_id = end;
        s
    }

    /// Enable extended range scanning over the given range.
    pub fn with_extended_range(self, start: u32, end: u32) -> (r: Self)
        ensures
            r == (EcuScanConfig {
                scan_extended_range: true,
                extended_start: start,
                extended_end: end,
                ..self
            }),
    {
        let mut s = self;
        s.scan_extended_range = true;
        s.extended_start = start;
        s.extended_end = end;
        s
    }

    /// Set timeout
    pub fn with_timeout(self, timeout_ms: u32) -> (r: Self)
        ensures
            r == (EcuScanConfig { timeout_ms, ..self }),
    {
        let mut s = self;
        s.timeout_ms = timeout_ms;
        s
    }
}

/// Detection method used.
#[derive(Debug, Clone, Copy, PartialEq, Eq, Structural)]
pub enum DetectionMethod {
    /// UDS ReadDataByIdentifier
    UdsReadDid,
    /// Functional addressing broadcast
    FunctionalBroadcast,
    /// OBD-II mode 09
    ObdMode09,
    /// Pattern matching from traffic
    TrafficAnalysis,
    /// A2L file association
    A2lAssociation,
    /// Manual configuration
    Manual,
}

/// The model year that the tenth character of a VIN stands for.
pub open spec fn model_year_of(c: char) -> Option<u16> {
    if c == 'A' {
        Some(2010u16)
    } else if c == 'B' {
        Some(2011u16)
    } else if c == 'C' {
        Some(2012u16)
    } else if c == 'D' {
        Some(2013u16)
    } else if c == 'E' {
        Some(2014u16)
    } else if c == 'F' {
        Some(2015u16)
    } else if c == 'G' {
        Some(2016u16)
    } else if c == 'H' {
        Some(2017u16)
    } else if c == 'J' {
        Some(2018u16)
    } else if c == 'K' {
        Some(2019u16)
    } else if c == 'L' {
        Some(2020u16)
    } else if c == 'M' {
        Some(2021u16)
    } else if c == 'N' {
        Some(2022u16)
    } else if c == 'P' {
        Some(2023u16)
    } else if c == 'R' {
        Some(2024u16)
    } else if c == 'S' {
        Some(2025u16)
    } else if c == 'T' {
        Some(2026u16)
    } else if c == 'V' {
        Some(2027u16)
    } else if c == 'W' {
        Some(2028u16)
    } else if c == 'X' {
        Some(2029u16)
    } else if c == 'Y' {
        Some(2030u16)
    } else if c == '1' {
        Some(2001u16)
    } else if c == '2' {
        Some(2002u16)
    } else if c == '3' {
        Some(2003u16)
    } else if c == '4' {
        Some(2004u16)
    } else if c == '5' {
        Some(2005u16)
    } else if c == '6' {
        Some(2006u16)
    } else if c == '7' {
        Some(2007u16)
    } else if c == '8' {
        Some(2008u16)
    } else if c == '9' {
        Some(2009u16)
    } else {
        None
    }
}

/// The manufacturer that the first two characters of a VIN stand for.
pub open spec fn manufacturer_of(a: char, b: char) -> Option<Seq<char>> {
    if (a == '1' && b == 'G') || (a == '2' && b == 'G') || (a == '3' && b == 'G') {
        Some("General Motors"@)
    } else if (a == '1' && b == 'F') || (a == '2' && b == 'F') || (a == '3' && b == 'F') {
        Some("Ford"@)
    } else if (a == '1' && b == 'C') || (a == '2' && b == 'C') || (a == '3' && b == 'C') {
        Some("Chrysler/FCA"@)
    } else if (a == 'J' && b == 'T') {
        Some("Toyota"@)
    } else if (a == 'J' && b == 'H') {
        Some("Honda"@)
    } else if (a == 'J' && b == 'N') {
        Some("Nissan"@)
    } else if (a == 'J' && b == 'M') {
        Some("Mazda/Mitsubishi"@)
    } else if (a == 'K' && b == 'M') || (a == 'K' && b == 'N') {
        Some("Hyundai/Kia"@)
    } else if (a == 'W' && b == 'A') || (a == 'W' && b == 'V') || (a == 'W' && b == 'F') {
        Some("Volkswagen Group"@)
    } else if (a == 'W' && b == 'B') {
        Some("BMW"@)
    } else if (a == 'W' && b == 'D') {
        Some("Mercedes-Benz"@)
    } else if (a == 'W' && b == 'P') {
        Some("Porsche"@)
    } else if (a == 'Z' && b == 'A') || (a == 'Z' && b == 'F') {
        Some("Fiat/Alfa Romeo"@)
    } else if (a == 'S' && b == 'A') || (a == 'S' && b == 'J') {
        Some("Jaguar/Land Rover"@)
    } else if (a == 'Y' && b == 'V') {
        Some("Volvo"@)
    } else if (a == 'V' && b == 'F') {
        Some("Renault/Peugeot"@)
    } else if (a == 'T' && b == 'R') {
        Some("Audi Hungary"@)
    } else if (a == 'L' && b == 'F') || (a == 'L' && b == 'V') || (a == 'L' && b == 'S') {
        Some("Chinese Manufacturer"@)
    } else {
        None
    }
}

fn decode_model_year(c: char) -> (r: Option<u16>)
    ensures
        r == model_year_of(c),
{
    if c == 'A' {
        Some(2010)
    } else if c == 'B' {
        Some(2011)
    } else if c == 'C' {
        Some(2012)
    } else if c == 'D' {
        Some(2013)
    } else if c == 'E' {
        Some(2014)
    } else if c == 'F' {
        Some(2015)
    } else if c == 'G' {
        Some(2016)
    } else if c == 'H' {
        Some(2017)
    } else if c == 'J' {
        Some(2018)
    } else if c == 'K' {
        Some(2019)
    } else if c == 'L' {
        Some(2020)
    } else if c == 'M' {
        Some(2021)
    } else if c == 'N' {
        Some(2022)
    } else if c == 'P' {
        Some(2023)
    } else if c == 'R' {
        Some(2024)
    } else if c == 'S' {
        Some(2025)
    } else if c == 'T' {
        Some(2026)
    } else if c == 'V' {
        Some(2027)
    } else if c == 'W' {
        Some(2028)
    } else if c == 'X' {
        Some(2029)
    } else if c == 'Y' {
        Some(2030)
    } else if c == '1' {
        Some(2001)
    } else if c == '2' {
        Some(2002)
    } else if c == '3' {
        Some(2003)
    } else if c == '4' {
        Some(2004)
    } else if c == '5' {
        Some(2005)
    } else if c == '6' {
        Some(2006)
    } else if c == '7' {
        Some(2007)
    } else if c == '8' {
        Some(2008)
    } else if c == '9' {
        Some(2009)
    } else {
        None
    }
}

fn decode_manufacturer(a: char, b: char) -> (r: Option<String>)
    ensures
        match manufacturer_of(a, b) {
            Some(n) => r matches Some(s) && s@ == n,
            None => r is None,
        },
{
    if (a == '1' && b == 'G') || (a == '2' && b == 'G') || (a == '3' && b == 'G') {
        Some(owned("General Motors"))
    } else if (a == '1' && b == 'F') || (a == '2' && b == 'F') || (a == '3' && b == 'F') {
        Some(owned("Ford"))
    } else if (a == '1' && b == 'C') || (a == '2' && b == 'C') || (a == '3' && b == 'C') {
        Some(owned("Chrysler/FCA"))
    } else if (a == 'J' && b == 'T') {
        Some(owned("Toyota"))
    } else if (a == 'J' && b == 'H') {
        Some(owned("Honda"))
    } else if (a == 'J' && b == 'N') {
        Some(owned("Nissan"))
    } else if (a == 'J' && b == 'M') {
        Some(owned("Mazda/Mitsubishi"))
    } else if (a == 'K' && b == 'M') || (a == 'K' && b == 'N') {
        Some(owned("Hyundai/Kia"))
    } else if (a == 'W' && b == 'A') || (a == 'W' && b == 'V') || (a == 'W' && b == 'F') {
        Some(owned("Volkswagen Group"))
    } else if (a == 'W' && b == 'B') {
        Some(owned("BMW"))
    } else if (a == 'W' && b == 'D') {
        Some(owned("Mercedes-Benz"))
    } else if (a == 'W' && b == 'P') {
        Some(owned("Porsche"))
    } else if (a == 'Z' && b == 'A') || (a == 'Z' && b == 'F') {
        Some(owned("Fiat/Alfa Romeo"))
    } else if (a == 'S' && b == 'A') || (a == 'S' && b == 'J') {
        Some(owned("Jaguar/Land Rover"))
    } else if (a == 'Y' && b == 'V') {
        Some(owned("Volvo"))
    } else if (a == 'V' && b == 'F') {
        Some(owned("Renault/Peugeot"))
    } else if (a == 'T' && b == 'R') {
        Some(owned("Audi Hungary"))
    } else if (a == 'L' && b == 'F') || (a == 'L' && b == 'V') || (a == 'L' && b == 'S') {
        Some(owned("Chinese Manufacturer"))
    } else {
        None
    }
}

/// Decoded VIN information as plain values.
pub ghost struct VinInfoModel {
    pub vin: Seq<char>,
    pub wmi: Seq<char>,
    pub vds: Seq<char>,
    pub vis: Seq<char>,
    pub manufacturer: Option<Seq<char>>,
    pub model_year: Option<u16>,
    pub plant_code: char,
    pub serial_number: Seq<char>,
}

/// Decoded VIN information.
#[derive(Debug, Clone)]
pub struct VinInfo {
    /// Full VIN
    pub vin: String,
    /// World Manufacturer Identifier
    pub wmi: String,
    /// Vehicle Descriptor Section
    pub vds: String,
    /// Vehicle Identifier Section
    pub vis: String,
    /// Manufacturer name
    pub manufacturer: Option<String>,
    /// Model year
    pub model_year: Option<u16>,
    /// Plant code
    pub plant_code: char,
    /// Serial number
    pub serial_number: String,
}

impl View for VinInfo {
    type V = VinInfoModel;

    open spec fn view(&self) -> VinInfoModel {
        VinInfoModel {
            vin: self.vin@,
            wmi: self.wmi@,
            vds: self.vds@,
            vis: self.vis@,
            manufacturer: match self.manufacturer {
                Some(m) => Some(m@),
                None => None,
            },
            model_year: self.model_year,
            plant_code: self.plant_code,
            serial_number: self.serial_number@,
        }
    }
}

/// Whether the first two bytes of an uppercased VIN end on a character
/// boundary: two ASCII characters, or one two-byte character.
pub open spec fn wmi_prefix_sliceable(u: Seq<char>) -> bool {
    ((u[0] as u32) < 0x80 && (u[1] as u32) < 0x80) || (0x80 <= (u[0] as u32) && (u[0] as u32) < 0x800)
}

/// What an uppercased VIN of at least 17 characters decodes to: WMI (1-3),
/// VDS (4-9), VIS (10-17), the model year from the tenth character, the
/// plant from the eleventh, the serial number (12-17), and the
/// manufacturer from the first two characters when they are ASCII.
pub open spec fn vin_info_of(u: Seq<char>) -> VinInfoModel {
    VinInfoModel {
        vin: u,
        wmi: u.subrange(0, 3),
        vds: u.subrange(3, 9),
        vis: u.subrange(9, 17),
        manufacturer: if (u[0] as u32) < 0x80 && (u[1] as u32) < 0x80 {
            manufacturer_of(u[0], u[1])
        } else {
            None
        },
        model_year: model_year_of(u[9]),
        plant_code: u[10],
        serial_number: u.subrange(11, 17),
    }
}

/// VIN (Vehicle Identification Number) decoder.
#[derive(Debug, Clone, Copy)]
pub struct VinDecoder;

impl VinDecoder {
    /// Decode a VIN that is already uppercased.
    pub fn decode_uppercase(u: &str) -> (r: VinInfo)
        requires
            u@.len() >= 17,
            wmi_prefix_sliceable(u@),
        ensures
            r@ == vin_info_of(u@),
    {
        let c = chars_of(u);
        let cs = c.as_slice();
        let manufacturer = if (cs[0] as u32) < 0x80 && (cs[1] as u32) < 0x80 {
            decode_manufacturer(cs[0], cs[1])
        } else {
            None
        };
        VinInfo {
            vin: owned(u),
            wmi: string_from_chars(crate::text::slice_to_vec(cs, 0, 3).as_slice()),
            vds: string_from_chars(crate::text::slice_to_vec(cs, 3, 9).as_slice()),
            vis: string_from_chars(crate::text::slice_to_vec(cs, 9, 17).as_slice()),
            manufacturer,
            model_year: decode_model_year(cs[9]),
            plant_code: cs[10],
            serial_number: string_from_chars(crate::text::slice_to_vec(cs, 11, 17).as_slice()),
        }
    }

    /// Decode a VIN and extract information.
    ///
    /// A VIN is 17 bytes long; anything else gives `None`. The text is
    /// uppercased (Unicode) and then decoded as `decode_uppercase` says;
    /// an uppercased text too short for the sections, or whose first two
    /// bytes split a character, gives `None` as well.
    pub fn decode(vin: &str) -> (r: Option<VinInfo>)
        ensures
            vin.len() != 17 ==> r is None,
            vin.len() == 17 ==> ({
                let u = unicode_uppercase(vin@);
                if u.len() >= 17 && wmi_prefix_sliceable(u) {
                    r matches Some(info) && info@ == vin_info_of(u)
                } else {
                    r is None
                }
            }),
    {
        if vin.len() != 17 {
            return None;
        }
        let u = to_uppercase(vin);
        let c = chars_of(u.as_str());
        if c.len() < 17 {
            return None;
        }
        let c0 = c[0] as u32;
        let c1 = c[1] as u32;
        if !((c0 < 0x80 && c1 < 0x80) || (0x80 <= c0 && c0 < 0x800)) {
            return None;
        }
        Some(Self::decode_uppercase(u.as_str()))
    }
}

/// Key/value pairs of strings, each taken by its characters.
pub open spec fn pairs_view(v: Seq<(String, String)>) -> Seq<(Seq<char>, Seq<char>)> {
    v.map_values(|p: (String, String)| (p.0@, p.1@))
}

/// No key occurs twice.
pub open spec fn keys_unique(v: Seq<(Seq<char>, Seq<char>)>) -> bool {
    forall|i: int, j: int| 0 <= i < j < v.len() ==> (#[trigger] v[i]).0 != (#[trigger] v[j]).0
}

/// The entries after associating `k` with `x`: the entry with key `k`
/// takes the new value in its place, or a new entry comes last.
pub open spec fn assoc_insert(v: Seq<(Seq<char>, Seq<char>)>, k: Seq<char>, x: Seq<char>) -> Seq<
    (Seq<char>, Seq<char>),
> {
    if exists|i: int| 0 <= i < v.len() && (#[trigger] v[i]).0 == k {
        v.update(choose|i: int| 0 <= i < v.len() && (#[trigger] v[i]).0 == k, (k, x))
    } else {
        v.push((k, x))
    }
}

/// The map that a list of unique-key entries stands for.
pub open spec fn assoc_map(v: Seq<(Seq<char>, Seq<char>)>) -> Map<Seq<char>, Seq<char>> {
    Map::new(
        |k: Seq<char>| exists|i: int| 0 <= i < v.len() && (#[trigger] v[i]).0 == k,
        |k: Seq<char>| v[choose|i: int| 0 <= i < v.len() && (#[trigger] v[i]).0 == k].1,
    )
}

/// Associating a key keeps keys unique, and acts on the map that the
/// entries stand for as an insertion.
pub proof fn lemma_assoc_insert(v: Seq<(Seq<char>, Seq<char>)>, k: Seq<char>, x: Seq<char>)
    requires
        keys_unique(v),
    ensures
        keys_unique(assoc_insert(v, k, x)),
        assoc_map(assoc_insert(v, k, x)) == assoc_map(v).insert(k, x),
{
    let w = assoc_insert(v, k, x);
    if exists|i: int| 0 <= i < v.len() && (#[trigger] v[i]).0 == k {
        let j = choose|i: int| 0 <= i < v.len() && (#[trigger] v[i]).0 == k;
        assert forall|a: int, b: int| 0 <= a < b < w.len() implies (#[trigger] w[a]).0 != (
        #[trigger] w[b]).0 by {
            assert(v[a].0 != v[b].0);
        }
        assert forall|q: Seq<char>| #[trigger] assoc_map(w).contains_key(q) == assoc_map(v).insert(k, x).contains_key(q) by {
            if q == k {
                assert(w[j].0 == k);
            } else {
                if exists|i: int| 0 <= i < v.len() && (#[trigger] v[i]).0 == q {
                    let i = choose|i: int| 0 <= i < v.len() && (#[trigger] v[i]).0 == q;
                    assert(w[i].0 == q);
                }
                if exists|i: int| 0 <= i < w.len() && (#[trigger] w[i]).0 == q {
                    let i = choose|i: int| 0 <= i < w.len() && (#[trigger] w[i]).0 == q;
                    assert(v[i].0 == q);
                }
            }
        }
        assert forall|q: Seq<char>| #[trigger] assoc_map(w).contains_key(q) implies assoc_map(w)[q]
            == assoc_map(v).insert(k, x)[q] by {
            let iw = choose|i: int| 0 <= i < w.len() && (#[trigger] w[i]).0 == q;
            if q == k {
                assert(iw == j);
            } else {
                let iv = choose|i: int| 0 <= i < v.len() && (#[trigger] v[i]).0 == q;
                assert(w[iv].0 == q);
                assert(iw == iv);
            }
        }
        assert(assoc_map(w) =~= assoc_map(v).insert(k, x));
    } else {
        assert forall|a: int, b: int| 0 <= a < b < w.len() implies (#[trigger] w[a]).0 != (
        #[trigger] w[b]).0 by {
            if b == v.len() {
                assert(w[a] == v[a]);
            } else {
                assert(v[a].0 != v[b].0);
            }
        }
        assert forall|q: Seq<char>| #[trigger] assoc_map(w).contains_key(q) == assoc_map(v).insert(k, x).contains_key(q) by {
            if q == k {
                assert(w[v.len() as int].0 == k);
            } else {
                if exists|i: int| 0 <= i < v.len() && (#[trigger] v[i]).0 == q {
                    let i = choose|i: int| 0 <= i < v.len() && (#[trigger] v[i]).0 == q;
                    assert(w[i].0 == q);
                }
                if exists|i: int| 0 <= i < w.len() && (#[trigger] w[i]).0 == q {
                    let i = choose|i: int| 0 <= i < w.len() && (#[trigger] w[i]).0 == q;
                    assert(v[i].0 == q);
                }
            }
        }
        assert forall|q: Seq<char>| #[trigger] assoc_map(w).contains_key(q) implies assoc_map(w)[q]
            == assoc_map(v).insert(k, x)[q] by {
            let iw = choose|i: int| 0 <= i < w.len() && (#[trigger] w[i]).0 == q;
            if q == k {
                assert(iw == v.len());
            } else {
                let iv = choose|i: int| 0 <= i < v.len() && (#[trigger] v[i]).0 == q;
                assert(w[iv].0 == q);
                assert(iw == iv);
            }
        }
        assert(assoc_map(w) =~= assoc_map(v).insert(k, x));
    }
}

fn associate(v: &mut Vec<(String, String)>, key: &str, value: &str)
    requires
        keys_unique(pairs_view(old(v)@)),
    ensures
        pairs_view(final(v)@) == assoc_insert(pairs_view(old(v)@), key@, value@),
        keys_unique(pairs_view(final(v)@)),
{
    let ghost pv = pairs_view(v@);
    let k = owned(key);
    let mut i: usize = 0;
    while i < v.len()
        invariant
            i <= v.len(),
            pv == pairs_view(v@),
            pv == pairs_view(old(v)@),
            keys_unique(pv),
            k@ == key@,
            forall|j: int| 0 <= j < i ==> (#[trigger] pv[j]).0 != key@,
        decreases v.len() - i,
    {
        if v[i].0 == k {
            proof {
                assert(pv[i as int].0 == key@);
                let c = choose|c: int| 0 <= c < pv.len() && (#[trigger] pv[c]).0 == key@;
                assert(c == i) by {
                    if c != i {
                        assert(pv[c].0 != pv[i as int].0);
                    }
                }
                assert(assoc_insert(pv, key@, value@) == pv.update(i as int, (key@, value@)));
            }
            v.set(i, (k, owned(value)));
            assert(pairs_view(v@) =~= pv.update(i as int, (key@, value@)));
            proof {
                lemma_assoc_insert(pv, key@, value@);
            }
            return;
        }
        i += 1;
    }
    v.push((k, owned(value)));
    assert(pairs_view(v@) =~= pv.push((key@, value@)));
    proof {
        lemma_assoc_insert(pv, key@, value@);
    }
}

/// The manager's associations as plain values.
pub ghost struct A2lAssociationModel {
    pub ecus: Seq<(Seq<char>, Seq<char>)>,
    pub families: Seq<(Seq<char>, Seq<char>)>,
    pub part_numbers: Seq<(Seq<char>, Seq<char>)>,
}

/// Each kind of association in the model holds a key at most once.
pub open spec fn assoc_model_wf(m: A2lAssociationModel) -> bool {
    &&& keys_unique(m.ecus)
    &&& keys_unique(m.families)
    &&& keys_unique(m.part_numbers)
}

/// With keys that occur once, looking a key up by its first entry is
/// looking it up in the map that the entries stand for.
pub proof fn lemma_first_entry_is_map_lookup(v: Seq<(Seq<char>, Seq<char>)>, k: Seq<char>)
    requires
        keys_unique(v),
    ensures
        match first_named(v, entry_key(), k) {
            Some(i) => assoc_map(v).contains_key(k) && v[i].1 == assoc_map(v)[k],
            None => !assoc_map(v).contains_key(k),
        },
{
    lemma_first_named_found(v, entry_key(), k);
    match first_named(v, entry_key(), k) {
        Some(i) => {
            assert(v[i].0 == k);
            assert(assoc_map(v).contains_key(k));
            let c = choose|c: int| 0 <= c < v.len() && (#[trigger] v[c]).0 == k;
            if c < i {
                assert(v[c].0 != v[i].0);
            } else if i < c {
                assert(v[i].0 != v[c].0);
            }
        },
        None => {
            if exists|i: int| 0 <= i < v.len() && (#[trigger] v[i]).0 == k {
                let i = choose|i: int| 0 <= i < v.len() && (#[trigger] v[i]).0 == k;
                assert(entry_key()(v[i]) == k);
                assert(first_named(v, entry_key(), k) is Some);
            }
        },
    }
}

/// Associating `x` with `k` (as `associate_ecu`, `associate_family` and
/// `associate_part_number` do) acts as a map insertion: afterwards a key
/// `q` is found exactly when it is `k` or was associated before, and what
/// is found is `x` for `k` and the earlier path for any other key.
pub proof fn lemma_associate_then_lookup(
    v: Seq<(Seq<char>, Seq<char>)>,
    k: Seq<char>,
    x: Seq<char>,
    q: Seq<char>,
)
    requires
        keys_unique(v),
    ensures
        keys_unique(assoc_insert(v, k, x)),
        match first_named(assoc_insert(v, k, x), entry_key(), q) {
            Some(i) => assoc_insert(v, k, x)[i].1 == (if q == k { x } else { assoc_map(v)[q] })
                && (q == k || assoc_map(v).contains_key(q)),
            None => q != k && !assoc_map(v).contains_key(q),
        },
{
    lemma_assoc_insert(v, k, x);
    lemma_first_entry_is_map_lookup(assoc_insert(v, k, x), q);
}

/// Manager for A2L file associations with ECUs: per ECU id, per family and
/// per part-number prefix, each key associated with one A2L path.
#[derive(Debug)]
pub struct A2lAssociationManager {
    associations: Vec<(String, String)>,
    family_associations: Vec<(String, String)>,
    part_number_associations: Vec<(String, String)>,
}

impl View for A2lAssociationManager {
    type V = A2lAssociationModel;

    closed spec fn view(&self) -> A2lAssociationModel {
        A2lAssociationModel {
            ecus: pairs_view(self.associations@),
            families: pairs_view(self.family_associations@),
            part_numbers: pairs_view(self.part_number_associations@),
        }
    }
}

impl A2lAssociationManager {
    /// Each kind of association holds a key at most once.
    #[verifier::type_invariant]
    spec fn unique_keys(&self) -> bool {
        &&& keys_unique(pairs_view(self.associations@))
        &&& keys_unique(pairs_view(self.family_associations@))
        &&& keys_unique(pairs_view(self.part_number_associations@))
    }

    /// Create a new association manager with no associations.
    pub fn new() -> (r: Self)
        ensures
            r@.ecus.len() == 0,
            r@.families.len() == 0,
            r@.part_numbers.len() == 0,
            assoc_model_wf(r@),
    {
        let r = A2lAssociationManager {
            associations: Vec::new(),
            family_associations: Vec::new(),
            part_number_associations: Vec::new(),
        };
        r
    }

    /// Associate A2L file with specific ECU ID
    pub fn associate_ecu(&mut self, ecu_id: &str, a2l_path: &str)
        ensures
            final(self)@ == (A2lAssociationModel {
                ecus: assoc_insert(old(self)@.ecus, ecu_id@, a2l_path@),
                ..old(self)@
            }),
            assoc_model_wf(final(self)@),
    {
        proof {
            use_type_invariant(&*self);
        }
        let mut v: Vec<(String, String)> = Vec::new();
        std::mem::swap(&mut v, &mut self.associations);
        associate(&mut v, ecu_id, a2l_path);
        self.associations = v;
        proof {
            use_type_invariant(&*self);
        }
    }

    /// Associate A2L file with ECU family
    pub fn associate_family(&mut self, family: &str, a2l_path: &str)
        ensures
            final(self)@ == (A2lAssociationModel {
                families: assoc_insert(old(self)@.families, family@, a2l_path@),
                ..old(self)@
            }),
            assoc_model_wf(final(self)@),
    {
        proof {
            use_type_invariant(&*self);
        }
        let mut v: Vec<(String, String)> = Vec::new();
        std::mem::swap(&mut v, &mut self.family_associations);
        associate(&mut v, family, a2l_path);
        self.family_associations = v;
        proof {
            use_type_invariant(&*self);
        }
    }

    /// Associate A2L file with part number prefix
    pub fn associate_part_number(&mut self, prefix: &str, a2l_path: &str)
        ensures
            final(self)@ == (A2lAssociationModel {
                part_numbers: assoc_insert(old(self)@.part_numbers, prefix@, a2l_path@),
                ..old(self)@
            }),
            assoc_model_wf(final(self)@),
    {
        proof {
            use_type_invariant(&*self);
        }
        let mut v: Vec<(String, String)> = Vec::new();
        std::mem::swap(&mut v, &mut self.part_number_associations);
        associate(&mut v, prefix, a2l_path);
        self.part_number_associations = v;
        proof {
            use_type_invariant(&*self);
        }
    }

    /// The A2L file for an ECU: by its id; else by its family, if it has one;
    /// else by the first part-number prefix that its part number starts
    /// with, if it has one.
    pub fn find_a2l(&self, ecu: &EcuInstance) -> (r: Option<&String>)
        ensures
            match first_named(self@.ecus, entry_key(), ecu.id@) {
                Some(i) => r matches Some(p) && p@ == self@.ecus[i].1,
                None => match (match ecu.family {
                    Some(f) => first_named(self@.families, entry_key(), f@),
                    None => None,
                }) {
                    Some(i) => r matches Some(p) && p@ == self@.families[i].1,
                    None => match (match ecu.part_number {
                        Some(pn) => first_prefix(self@.part_numbers, pn@),
                        None => None,
                    }) {
                        Some(i) => r matches Some(p) && p@ == self@.part_numbers[i].1,
                        None => r is None,
                    },
                },
            },
    {
        if let Some(i) = first_key_index(&self.associations, ecu.id.as_str()) {
            assert(self@.ecus[i as int].1 == self.associations@[i as int].1@);
            return Some(&self.associations[i].1);
        }
        if let Some(family) = &ecu.family {
            if let Some(i) = first_key_index(&self.family_associations, family.as_str()) {
                assert(self@.families[i as int].1 == self.family_associations@[i as int].1@);
                return Some(&self.family_associations[i].1);
            }
        }
        if let Some(pn) = &ecu.part_number {
            let ghost m = pairs_view(self.part_number_associations@);
            let mut i: usize = 0;
            while i < self.part_number_associations.len()
                invariant
                    i <= self.part_number_associations.len(),
                    m == pairs_view(self.part_number_associations@),
                    m == self@.part_numbers,
                    ecu.part_number matches Some(q) && q@ == pn@,
                    first_named(self@.ecus, entry_key(), ecu.id@) is None,
                    (match ecu.family {
                        Some(f) => first_named(self@.families, entry_key(), f@),
                        None => None,
                    }) is None,
                    forall|j: int| 0 <= j < i ==> !(#[trigger] m[j]).0.is_prefix_of(pn@),
                decreases self.part_number_associations.len() - i,
            {
                if starts_with(pn.as_str(), self.part_number_associations[i].0.as_str()) {
                    proof {
                        lemma_first_prefix_at(m, pn@, i as int);
                    }
                    assert(self@.part_numbers[i as int].1 == self.part_number_associations@[i as int].1@);
                    return Some(&self.part_number_associations[i].1);
                }
                i += 1;
            }
        }
        None
    }

    /// Get all ECU-id associations, as (ECU id, A2L path) pairs.
    pub fn all_associations(&self) -> (r: Vec<(&String, &String)>)
        ensures
            r@.len() == self@.ecus.len(),
            forall|i: int| 0 <= i < r@.len() ==> (#[trigger] r@[i].0@, r@[i].1@) == self@.ecus[i],
    {
        let mut out: Vec<(&String, &String)> = Vec::new();
        let mut i: usize = 0;
        while i < self.associations.len()
            invariant
                i <= self.associations.len(),
                out@.len() == i,
                forall|j: int|
                    0 <= j < i ==> (#[trigger] out@[j].0@, out@[j].1@) == pairs_view(
                        self.associations@,
                    )[j],
            decreases self.associations.len() - i,
        {
            let e = &self.associations[i];
            out.push((&e.0, &e.1));
            i += 1;
        }
        out
    }
}

impl Default for A2lAssociationManager {
    fn default() -> (r: Self)
        ensures
            r@.ecus.len() == 0,
            r@.families.len() == 0,
            r@.part_numbers.len() == 0,
    {
        A2lAssociationManager::new()
    }
}


/// An ECU instance as plain values.
pub ghost struct EcuInstanceModel {
    pub id: Seq<char>,
    pub family: Option<Seq<char>>,
    pub manufacturer: EcuManufacturer,
    pub ecu_type: EcuType,
    pub part_number: Option<Seq<char>>,
    pub hw_version: Option<Seq<char>>,
    pub sw_version: Option<Seq<char>>,
    pub cal_version: Option<Seq<char>>,
    pub boot_version: Option<Seq<char>>,
    pub vin: Option<Seq<char>>,
    pub diag_can_id_request: u32,
    pub diag_can_id_response: u32,
    pub a2l_file: Option<Seq<char>>,
    pub dbc_file: Option<Seq<char>>,
    pub properties: Seq<(Seq<char>, Seq<char>)>,
    pub detected_at: Option<Seq<char>>,
    pub confidence: Seq<char>,
}

/// A detected or known ECU instance.
#[derive(Debug, Clone)]
pub struct EcuInstance {
    /// Unique identifier
    pub id: String,
    /// ECU family reference
    pub family: Option<String>,
    /// Manufacturer
    pub manufacturer: EcuManufacturer,
    /// ECU type
    pub ecu_type: EcuType,
    /// Part number (OEM)
    pub part_number: Option<String>,
    /// Hardware version
    pub hw_version: Option<String>,
    /// Software version
    pub sw_version: Option<String>,
    /// Calibration version
    pub cal_version: Option<String>,
    /// Boot software version
    pub boot_version: Option<String>,
    /// VIN (if available)
    pub vin: Option<String>,
    /// Diagnostic CAN ID (request)
    pub diag_can_id_request: u32,
    /// Diagnostic CAN ID (response)
    pub diag_can_id_response: u32,
    /// Associated A2L file path
    pub a2l_file: Option<String>,
    /// Associated DBC file path
    pub dbc_file: Option<String>,
    /// Custom properties, each key at its first entry
    pub properties: Vec<(String, String)>,
    /// Detection timestamp
    pub detected_at: Option<String>,
    /// Detection confidence (0.0 - 1.0), as decimal text
    pub confidence: String,
}

impl View for EcuInstance {
    type V = EcuInstanceModel;

    open spec fn view(&self) -> EcuInstanceModel {
        EcuInstanceModel {
            id: self.id@,
            family: opt_text(self.family),
            manufacturer: self.manufacturer,
            ecu_type: self.ecu_type,
            part_number: opt_text(self.part_number),
            hw_version: opt_text(self.hw_version),
            sw_version: opt_text(self.sw_version),
            cal_version: opt_text(self.cal_version),
            boot_version: opt_text(self.boot_version),
            vin: opt_text(self.vin),
            diag_can_id_request: self.diag_can_id_request,
            diag_can_id_response: self.diag_can_id_response,
            a2l_file: opt_text(self.a2l_file),
            dbc_file: opt_text(self.dbc_file),
            properties: pairs_view(self.properties@),
            detected_at: opt_text(self.detected_at),
            confidence: self.confidence@,
        }
    }
}

/// The key of each entry.
pub open spec fn entry_key() -> spec_fn((Seq<char>, Seq<char>)) -> Seq<char> {
    |p: (Seq<char>, Seq<char>)| p.0
}

/// The entries after setting `k` to `x`: the first entry with key `k`
/// takes the new value in its place, or a new entry comes last.
pub open spec fn set_first(v: Seq<(Seq<char>, Seq<char>)>, k: Seq<char>, x: Seq<char>) -> Seq<
    (Seq<char>, Seq<char>),
> {
    match first_named(v, entry_key(), k) {
        Some(i) => v.update(i, (k, x)),
        None => v.push((k, x)),
    }
}

impl EcuInstance {
    /// A new instance with the given id and diagnostic identifiers, an
    /// unknown manufacturer, type `Other`, nothing else known and a
    /// confidence of 0.0.
    pub fn new(id: &str, diag_request: u32, diag_response: u32) -> (r: Self)
        ensures
            r@ == (EcuInstanceModel {
                id: id@,
                family: None,
                manufacturer: EcuManufacturer::Unknown,
                ecu_type: EcuType::Other,
                part_number: None,
                hw_version: None,
                sw_version: None,
                cal_version: None,
                boot_version: None,
                vin: None,
                diag_can_id_request: diag_request,
                diag_can_id_response: diag_response,
                a2l_file: None,
                dbc_file: None,
                properties: Seq::empty(),
                detected_at: None,
                confidence: "0.0"@,
            }),
    {
        let r = EcuInstance {
            id: owned(id),
            family: None,
            manufacturer: EcuManufacturer::Unknown,
            ecu_type: EcuType::Other,
            part_number: None,
            hw_version: None,
            sw_version: None,
            cal_version: None,
            boot_version: None,
            vin: None,
            diag_can_id_request: diag_request,
            diag_can_id_response: diag_response,
            a2l_file: None,
            dbc_file: None,
            properties: Vec::new(),
            detected_at: None,
            confidence: owned("0.0"),
        };
        assert(pairs_view(r.properties@) =~= Seq::<(Seq<char>, Seq<char>)>::empty());
        r
    }

    /// Set manufacturer
    pub fn with_manufacturer(self, mfr: EcuManufacturer) -> (r: Self)
        ensures
            r@ == (EcuInstanceModel { manufacturer: mfr, ..self@ }),
    {
        let mut s = self;
        s.manufacturer = mfr;
        s
    }

    /// Set ECU type
    pub fn with_type(self, ecu_type: EcuType) -> (r: Self)
        ensures
            r@ == (EcuInstanceModel { ecu_type, ..self@ }),
    {
        let mut s = self;
        s.ecu_type = ecu_type;
        s
    }

    /// Set part number
    pub fn with_part_number(self, pn: &str) -> (r: Self)
        ensures
            r@ == (EcuInstanceModel { part_number: Some(pn@), ..self@ }),
    {
        let mut s = self;
        s.part_number = Some(owned(pn));
        s
    }

    /// Set A2L file
    pub fn with_a2l(self, path: &str) -> (r: Self)
        ensures
            r@ == (EcuInstanceModel { a2l_file: Some(path@), ..self@ }),
    {
        let mut s = self;
        s.a2l_file = Some(owned(path));
        s
    }

    /// Set DBC file
    pub fn with_dbc(self, path: &str) -> (r: Self)
        ensures
            r@ == (EcuInstanceModel { dbc_file: Some(path@), ..self@ }),
    {
        let mut s = self;
        s.dbc_file = Some(owned(path));
        s
    }

    /// Set a custom property: a key already present takes the new value.
    pub fn set_property(&mut self, key: &str, value: &str)
        ensures
            final(self)@ == (EcuInstanceModel { properties: set_first(old(self)@.properties, key@, value@), ..old(self)@ }),
    {
        let ghost pv = pairs_view(self.properties@);
        let k = owned(key);
        let mut i: usize = 0;
        while i < self.properties.len()
            invariant
                i <= self.properties.len(),
                pv == pairs_view(self.properties@),
                pv == pairs_view(old(self).properties@),
                self@ == old(self)@,
                k@ == key@,
                forall|j: int| 0 <= j < i ==> (#[trigger] pv[j]).0 != key@,
            decreases self.properties.len() - i,
        {
            if self.properties[i].0 == k {
                proof {
                    lemma_first_named_at(pv, entry_key(), key@, i as int);
                }
                self.properties.set(i, (k, owned(value)));
                assert(pairs_view(self.properties@) =~= pv.update(i as int, (key@, value@)));
                return;
            }
            i += 1;
        }
        self.properties.push((k, owned(value)));
        assert(pairs_view(self.properties@) =~= pv.push((key@, value@)));
    }
}


/// Set `key` to `value` in a list of entries: the first entry with that key
/// takes the new value in its place, or a new entry comes last.
fn set_entry(v: &mut Vec<(String, String)>, key: &str, value: &str)
    ensures
        pairs_view(final(v)@) == set_first(pairs_view(old(v)@), key@, value@),
{
    let ghost pv = pairs_view(v@);
    let k = owned(key);
    let mut i: usize = 0;
    while i < v.len()
        invariant
            i <= v.len(),
            pv == pairs_view(v@),
            pv == pairs_view(old(v)@),
            k@ == key@,
            forall|j: int| 0 <= j < i ==> (#[trigger] pv[j]).0 != key@,
        decreases v.len() - i,
    {
        if v[i].0 == k {
            proof {
                lemma_first_named_at(pv, entry_key(), key@, i as int);
            }
            v.set(i, (k, owned(value)));
            assert(pairs_view(v@) =~= pv.update(i as int, (key@, value@)));
            return;
        }
        i += 1;
    }
    v.push((k, owned(value)));
    assert(pairs_view(v@) =~= pv.push((key@, value@)));
}

/// The view of each family.
pub open spec fn families_view(v: Seq<EcuFamily>) -> Seq<EcuFamilyModel> {
    v.map_values(|f: EcuFamily| f@)
}

/// The view of each instance.
pub open spec fn instances_view(v: Seq<EcuInstance>) -> Seq<EcuInstanceModel> {
    v.map_values(|e: EcuInstance| e@)
}

/// The name of a family.
pub open spec fn family_name() -> spec_fn(EcuFamily) -> Seq<char> {
    |f: EcuFamily| f.name@
}

/// The name of a family model.
pub open spec fn model_name() -> spec_fn(EcuFamilyModel) -> Seq<char> {
    |f: EcuFamilyModel| f.name
}

/// The families after adding `f`: a family of the same name is replaced in
/// its place, or `f` comes last.
pub open spec fn family_insert(v: Seq<EcuFamilyModel>, f: EcuFamilyModel) -> Seq<EcuFamilyModel> {
    match first_named(v, model_name(), f.name) {
        Some(i) => v.update(i, f),
        None => v.push(f),
    }
}

/// The families after adding each of `rows` in turn.
pub open spec fn add_families(v: Seq<EcuFamilyModel>, rows: Seq<EcuFamilyModel>) -> Seq<EcuFamilyModel>
    decreases rows.len(),
{
    if rows.len() == 0 {
        v
    } else {
        family_insert(add_families(v, rows.drop_last()), rows.last())
    }
}

/// Adding two lists of families in turn is adding their concatenation.
pub proof fn lemma_add_families_concat(v: Seq<EcuFamilyModel>, a: Seq<EcuFamilyModel>, b: Seq<EcuFamilyModel>)
    ensures
        add_families(add_families(v, a), b) == add_families(v, a + b),
    decreases b.len(),
{
    if b.len() == 0 {
        assert(a + b =~= a);
    } else {
        lemma_add_families_concat(v, a, b.drop_last());
        assert((a + b).drop_last() =~= a + b.drop_last());
        assert((a + b).last() == b.last());
    }
}

/// The entry of a list whose key is the first to prefix `text`.
pub open spec fn first_prefix(v: Seq<(Seq<char>, Seq<char>)>, text: Seq<char>) -> Option<int> {
    if exists|i: int| 0 <= i < v.len() && (#[trigger] v[i]).0.is_prefix_of(text) {
        Some(choose|i: int| 0 <= i < v.len() && (#[trigger] v[i]).0.is_prefix_of(text)
            && forall|j: int| 0 <= j < i ==> !(#[trigger] v[j]).0.is_prefix_of(text))
    } else {
        None
    }
}

proof fn lemma_first_prefix_at(v: Seq<(Seq<char>, Seq<char>)>, text: Seq<char>, i: int)
    requires
        0 <= i < v.len(),
        v[i].0.is_prefix_of(text),
        forall|j: int| 0 <= j < i ==> !(#[trigger] v[j]).0.is_prefix_of(text),
    ensures
        first_prefix(v, text) == Some(i),
{
    let c = choose|c: int| 0 <= c < v.len() && (#[trigger] v[c]).0.is_prefix_of(text)
        && forall|j: int| 0 <= j < c ==> !(#[trigger] v[j]).0.is_prefix_of(text);
    assert(0 <= c < v.len() && v[c].0.is_prefix_of(text) && forall|j: int| 0 <= j < c ==> !(#[trigger] v[j]).0.is_prefix_of(text));
    if c < i {
        assert(!v[c].0.is_prefix_of(text));
    } else if c > i {
        assert(!v[i].0.is_prefix_of(text));
    }
}

/// Whether `p` prefixes `t`.
fn starts_with(t: &str, p: &str) -> (r: bool)
    ensures
        r == p@.is_prefix_of(t@),
{
    let tv = chars_of(t);
    let pv = chars_of(p);
    if pv.len() > tv.len() {
        return false;
    }
    let r = crate::text::has_prefix_at(tv.as_slice(), 0, pv.as_slice());
    assert(tv@.subrange(0, pv@.len() as int) == t@.subrange(0, p@.len() as int));
    r
}

/// The ECU catalogue: families (each name at its first entry), known
/// instances, a part-number-to-family map and A2L associations (each key at
/// its first entry), with a version and a date.
#[derive(Debug, Clone)]
pub struct EcuDatabase {
    /// ECU families
    pub families: Vec<EcuFamily>,
    /// Known ECU instances
    pub instances: Vec<EcuInstance>,
    /// Part number to family name
    pub part_number_map: Vec<(String, String)>,
    /// Family name to A2L file path
    pub a2l_associations: Vec<(String, String)>,
    /// Database version
    pub version: String,
    /// Last updated date
    pub last_updated: String,
}

impl EcuDatabase {
    /// An empty database of version 1.0.0, dated 2026-01-26.
    pub fn new() -> (r: Self)
        ensures
            r.families@.len() == 0,
            r.instances@.len() == 0,
            r.part_number_map@.len() == 0,
            r.a2l_associations@.len() == 0,
            r.version@ == "1.0.0"@,
            r.last_updated@ == "2026-01-26"@,
    {
        EcuDatabase {
            families: Vec::new(),
            instances: Vec::new(),
            part_number_map: Vec::new(),
            a2l_associations: Vec::new(),
            version: owned("1.0.0"),
            last_updated: owned("2026-01-26"),
        }
    }

    /// Add an ECU family: one of the same name is replaced in its place.
    pub fn add_family(&mut self, family: EcuFamily)
        ensures
            families_view(final(self).families@) == family_insert(families_view(old(self).families@), family@),
            final(self).instances == old(self).instances,
            final(self).part_number_map == old(self).part_number_map,
            final(self).a2l_associations == old(self).a2l_associations,
            final(self).version == old(self).version,
            final(self).last_updated == old(self).last_updated,
    {
        let ghost fv = families_view(self.families@);
        let mut i: usize = 0;
        while i < self.families.len()
            invariant
                i <= self.families.len(),
                fv == families_view(self.families@),
                self.families == old(self).families,
                self.instances == old(self).instances,
                self.part_number_map == old(self).part_number_map,
                self.a2l_associations == old(self).a2l_associations,
                self.version == old(self).version,
                self.last_updated == old(self).last_updated,
                forall|j: int| 0 <= j < i ==> (#[trigger] fv[j]).name != family@.name,
            decreases self.families.len() - i,
        {
            if self.families[i].name == family.name {
                proof {
                    lemma_first_named_at(fv, model_name(), family@.name, i as int);
                }
                self.families.set(i, family);
                assert(families_view(self.families@) =~= fv.update(i as int, family@));
                return;
            }
            i += 1;
        }
        let ghost f = family@;
        self.families.push(family);
        assert(families_view(self.families@) =~= fv.push(f));
    }

    /// Add each family in turn.
    pub(crate) fn add_family_rows(&mut self, rows: Vec<EcuFamily>)
        ensures
            families_view(final(self).families@) == add_families(families_view(old(self).families@), families_view(rows@)),
            final(self).instances == old(self).instances,
            final(self).part_number_map == old(self).part_number_map,
            final(self).a2l_associations == old(self).a2l_associations,
            final(self).version == old(self).version,
            final(self).last_updated == old(self).last_updated,
    {
        let ghost all = families_view(rows@);
        let ghost base = families_view(self.families@);
        let mut rows = rows;
        let ghost n = rows@.len();
        assert(n == rows.len());
        let mut k: usize = 0;
        while rows.len() > 0
            invariant
                k + rows@.len() == n,
                n == all.len(),
                n <= usize::MAX,
                families_view(rows@) == all.skip(k as int),
                families_view(self.families@) == add_families(base, all.take(k as int)),
                self.instances == old(self).instances,
                self.part_number_map == old(self).part_number_map,
                self.a2l_associations == old(self).a2l_associations,
                self.version == old(self).version,
                self.last_updated == old(self).last_updated,
            decreases rows.len(),
        {
            let ghost before = rows@;
            let f = rows.remove(0);
            proof {
                assert(f@ == families_view(before)[0]);
                assert(all[k as int] == f@);
                assert(families_view(rows@) =~= families_view(before).skip(1));
                assert(all.take(k as int + 1).drop_last() =~= all.take(k as int));
            }
            self.add_family(f);
            k += 1;
            assert(families_view(rows@) =~= all.skip(k as int));
        }
        assert(all.take(k as int) =~= all);
    }

    /// Add an ECU instance.
    pub fn add_instance(&mut self, instance: EcuInstance)
        ensures
            final(self).instances@ == old(self).instances@.push(instance),
            final(self).families == old(self).families,
            final(self).part_number_map == old(self).part_number_map,
            final(self).a2l_associations == old(self).a2l_associations,
            final(self).version == old(self).version,
            final(self).last_updated == old(self).last_updated,
    {
        self.instances.push(instance);
    }

    /// Find a family by name: the first of that name.
    pub fn find_family(&self, name: &str) -> (r: Option<&EcuFamily>)
        ensures
            match first_named(self.families@, family_name(), name@) {
                Some(i) => r == Some(&self.families@[i]),
                None => r is None,
            },
    {
        let ghost v = self.families@;
        let mut i: usize = 0;
        while i < self.families.len()
            invariant
                i <= self.families.len(),
                v == self.families@,
                forall|j: int| 0 <= j < i ==> (#[trigger] v[j]).name@ != name@,
            decreases self.families.len() - i,
        {
            if crate::text::chars_eq(chars_of(self.families[i].name.as_str()).as_slice(), chars_of(name).as_slice()) {
                proof {
                    lemma_first_named_at(v, family_name(), name@, i as int);
                }
                return Some(&self.families[i]);
            }
            i += 1;
        }
        None
    }

    /// Find the family that a part number maps to: by the entry for the
    /// whole part number, else by the first entry whose key prefixes it.
    pub fn find_family_by_part_number(&self, part_number: &str) -> (r: Option<&EcuFamily>)
        ensures
            ({
                let m = pairs_view(self.part_number_map@);
                let chosen = match first_named(m, entry_key(), part_number@) {
                    Some(i) => Some(i),
                    None => first_prefix(m, part_number@),
                };
                match chosen {
                    None => r is None,
                    Some(i) => match first_named(self.families@, family_name(), m[i].1) {
                        Some(j) => r == Some(&self.families@[j]),
                        None => r is None,
                    },
                }
            }),
    {
        let ghost m = pairs_view(self.part_number_map@);
        let mut i: usize = 0;
        while i < self.part_number_map.len()
            invariant
                i <= self.part_number_map.len(),
                m == pairs_view(self.part_number_map@),
                forall|j: int| 0 <= j < i ==> (#[trigger] m[j]).0 != part_number@,
            decreases self.part_number_map.len() - i,
        {
            if crate::text::chars_eq(chars_of(self.part_number_map[i].0.as_str()).as_slice(), chars_of(part_number).as_slice()) {
                proof {
                    lemma_first_named_at(m, entry_key(), part_number@, i as int);
                }
                return self.find_family(self.part_number_map[i].1.as_str());
            }
            i += 1;
        }
        let mut i: usize = 0;
        while i < self.part_number_map.len()
            invariant
                i <= self.part_number_map.len(),
                m == pairs_view(self.part_number_map@),
                first_named(m, entry_key(), part_number@) is None,
                forall|j: int| 0 <= j < i ==> !(#[trigger] m[j]).0.is_prefix_of(part_number@),
            decreases self.part_number_map.len() - i,
        {
            if starts_with(part_number, self.part_number_map[i].0.as_str()) {
                proof {
                    lemma_first_prefix_at(m, part_number@, i as int);
                }
                return self.find_family(self.part_number_map[i].1.as_str());
            }
            i += 1;
        }
        None
    }

    /// Associate an A2L file with a family: a family already associated
    /// takes the new path.
    pub fn associate_a2l(&mut self, family_name: &str, a2l_path: &str)
        ensures
            pairs_view(final(self).a2l_associations@) == set_first(
                pairs_view(old(self).a2l_associations@),
                family_name@,
                a2l_path@,
            ),
            final(self).families == old(self).families,
            final(self).instances == old(self).instances,
            final(self).part_number_map == old(self).part_number_map,
            final(self).version == old(self).version,
            final(self).last_updated == old(self).last_updated,
    {
        set_entry(&mut self.a2l_associations, family_name, a2l_path);
    }

    /// The A2L file associated with a family, if any.
    pub fn get_a2l_for_family(&self, family_name: &str) -> (r: Option<&String>)
        ensures
            match first_named(pairs_view(self.a2l_associations@), entry_key(), family_name@) {
                Some(i) => r == Some(&self.a2l_associations@[i].1),
                None => r is None,
            },
    {
        let ghost m = pairs_view(self.a2l_associations@);
        let mut i: usize = 0;
        while i < self.a2l_associations.len()
            invariant
                i <= self.a2l_associations.len(),
                m == pairs_view(self.a2l_associations@),
                forall|j: int| 0 <= j < i ==> (#[trigger] m[j]).0 != family_name@,
            decreases self.a2l_associations.len() - i,
        {
            if crate::text::chars_eq(chars_of(self.a2l_associations[i].0.as_str()).as_slice(), chars_of(family_name).as_slice()) {
                proof {
                    lemma_first_named_at(m, entry_key(), family_name@, i as int);
                }
                return Some(&self.a2l_associations[i].1);
            }
            i += 1;
        }
        None
    }

    /// All families of a manufacturer, in catalogue order.
    pub fn families_by_manufacturer(&self, mfr: EcuManufacturer) -> (r: Vec<&EcuFamily>)
        ensures
            r@.map_values(|f: &EcuFamily| *f) == self.families@.filter(|f: EcuFamily| f.manufacturer == mfr),
    {
        let ghost pred = |f: EcuFamily| f.manufacturer == mfr;
        let mut out: Vec<&EcuFamily> = Vec::new();
        let mut i: usize = 0;
        while i < self.families.len()
            invariant
                i <= self.families.len(),
                pred == (|f: EcuFamily| f.manufacturer == mfr),
                out@.map_values(|f: &EcuFamily| *f) == self.families@.take(i as int).filter(pred),
            decreases self.families.len() - i,
        {
            proof {
                assert(self.families@.take(i as int + 1).drop_last() =~= self.families@.take(i as int));
                reveal(Seq::filter);
            }
            if self.families[i].manufacturer == mfr {
                out.push(&self.families[i]);
            }
            assert(out@.map_values(|f: &EcuFamily| *f) =~= self.families@.take(i as int + 1).filter(pred));
            i += 1;
        }
        assert(self.families@.take(i as int) =~= self.families@);
        out
    }

    /// All families of an ECU type, in catalogue order.
    pub fn families_by_type(&self, ecu_type: EcuType) -> (r: Vec<&EcuFamily>)
        ensures
            r@.map_values(|f: &EcuFamily| *f) == self.families@.filter(|f: EcuFamily| f.ecu_type == ecu_type),
    {
        let ghost pred = |f: EcuFamily| f.ecu_type == ecu_type;
        let mut out: Vec<&EcuFamily> = Vec::new();
        let mut i: usize = 0;
        while i < self.families.len()
            invariant
                i <= self.families.len(),
                pred == (|f: EcuFamily| f.ecu_type == ecu_type),
                out@.map_values(|f: &EcuFamily| *f) == self.families@.take(i as int).filter(pred),
            decreases self.families.len() - i,
        {
            proof {
                assert(self.families@.take(i as int + 1).drop_last() =~= self.families@.take(i as int));
                reveal(Seq::filter);
            }
            if self.families[i].ecu_type == ecu_type {
                out.push(&self.families[i]);
            }
            assert(out@.map_values(|f: &EcuFamily| *f) =~= self.families@.take(i as int + 1).filter(pred));
            i += 1;
        }
        assert(self.families@.take(i as int) =~= self.families@);
        out
    }
}


/// The index of the first entry with key `key`, if any.
fn first_key_index(v: &Vec<(String, String)>, key: &str) -> (r: Option<usize>)
    ensures
        match first_named(pairs_view(v@), entry_key(), key@) {
            Some(i) => r == Some(i as usize),
            None => r is None,
        },
        r matches Some(i) ==> i < v@.len() && first_named(pairs_view(v@), entry_key(), key@) == Some(i as int),
{
    let ghost m = pairs_view(v@);
    let kv = chars_of(key);
    let mut i: usize = 0;
    while i < v.len()
        invariant
            i <= v.len(),
            m == pairs_view(v@),
            kv@ == key@,
            forall|j: int| 0 <= j < i ==> (#[trigger] m[j]).0 != key@,
        decreases v.len() - i,
    {
        if crate::text::chars_eq(chars_of(v[i].0.as_str()).as_slice(), kv.as_slice()) {
            proof {
                lemma_first_named_at(m, entry_key(), key@, i as int);
            }
            return Some(i);
        }
        i += 1;
    }
    None
}

/// The first position in `v` whose item satisfies `p`.
pub open spec fn first_where<T>(v: Seq<T>, p: spec_fn(T) -> bool) -> Option<int> {
    if exists|i: int| 0 <= i < v.len() && p(#[trigger] v[i]) {
        Some(choose|i: int| 0 <= i < v.len() && p(#[trigger] v[i]) && forall|j: int| 0 <= j < i ==> !p(#[trigger] v[j]))
    } else {
        None
    }
}

pub proof fn lemma_first_where_at<T>(v: Seq<T>, p: spec_fn(T) -> bool, i: int)
    requires
        0 <= i < v.len(),
        p(v[i]),
        forall|j: int| 0 <= j < i ==> !p(#[trigger] v[j]),
    ensures
        first_where(v, p) == Some(i),
{
    let c = choose|c: int| 0 <= c < v.len() && p(#[trigger] v[c]) && forall|j: int| 0 <= j < c ==> !p(#[trigger] v[j]);
    assert(0 <= c < v.len() && p(v[c]) && forall|j: int| 0 <= j < c ==> !p(#[trigger] v[j]));
    if c < i {
        assert(!p(v[c]));
    } else if c > i {
        assert(!p(v[i]));
    }
}

/// The text that bytes encode in UTF-8, if they are valid UTF-8
/// (std's `String::from_utf8`).
pub uninterp spec fn utf8_decode(bytes: Seq<u8>) -> Option<Seq<char>>;

/// std's `String::from_utf8`: the text that the bytes encode, or none where
/// they are not valid UTF-8; the result depends on the bytes alone.
#[verifier::external_body]
fn utf8_string(bytes: &[u8]) -> (r: Option<String>)
    ensures
        match r {
            Some(t) => utf8_decode(bytes@) == Some(t@),
            None => utf8_decode(bytes@) is None,
        },
{
    String::from_utf8(bytes.to_vec()).ok()
}

/// The text that std's `String::from_utf8_lossy` reads from bytes (each
/// invalid sequence replaced by U+FFFD).
pub uninterp spec fn utf8_lossy(bytes: Seq<u8>) -> Seq<char>;

/// std's `String::from_utf8_lossy`: the bytes read as UTF-8 with invalid
/// sequences replaced; the result depends on the bytes alone.
#[verifier::external_body]
fn utf8_lossy_string(bytes: &[u8]) -> (r: String)
    ensures
        r@ == utf8_lossy(bytes@),
{
    String::from_utf8_lossy(bytes).into_owned()
}

/// Raw identification data as plain values.
pub open spec fn raw_view(v: Seq<(u16, Vec<u8>)>) -> Seq<(u16, Seq<u8>)> {
    v.map_values(|e: (u16, Vec<u8>)| (e.0, e.1@))
}

/// Whether an entry is for `did`.
pub open spec fn for_did(did: u16) -> spec_fn((u16, Seq<u8>)) -> bool {
    |e: (u16, Seq<u8>)| e.0 == did
}

/// The data recorded for `did`, if any: the first entry's.
pub open spec fn did_data(v: Seq<(u16, Seq<u8>)>, did: u16) -> Option<Seq<u8>> {
    match first_where(v, for_did(did)) {
        Some(i) => Some(v[i].1),
        None => None,
    }
}

/// An AI suggestion for an ECU's identity.
#[derive(Debug, Clone)]
pub struct AiSuggestion {
    /// Suggested manufacturer
    pub manufacturer: EcuManufacturer,
    /// Suggested family
    pub family: Option<String>,
    /// Confidence score (0.0 - 1.0), as decimal text
    pub confidence: String,
    /// Reasoning
    pub reasoning: String,
    /// Suggested A2L files to try
    pub suggested_a2l_files: Vec<String>,
}

/// The result of ECU detection: the instance, raw identification data (each
/// DID at its first entry), the matched family, the method and suggestions.
#[derive(Debug, Clone)]
pub struct EcuDetectionResult {
    /// Detected ECU instance
    pub ecu: EcuInstance,
    /// Raw identification data by DID
    pub raw_data: Vec<(u16, Vec<u8>)>,
    /// Matched family (if found in database)
    pub matched_family: Option<String>,
    /// Detection method used
    pub detection_method: DetectionMethod,
    /// AI suggestions for unknown ECUs
    pub ai_suggestions: Vec<AiSuggestion>,
}

impl EcuDetectionResult {
    /// A result for `ecu` found by `method`, with no data, family or
    /// suggestions yet.
    pub fn new(ecu: EcuInstance, method: DetectionMethod) -> (r: Self)
        ensures
            r.ecu == ecu,
            r.raw_data@.len() == 0,
            r.matched_family is None,
            r.detection_method == method,
            r.ai_suggestions@.len() == 0,
    {
        EcuDetectionResult {
            ecu,
            raw_data: Vec::new(),
            matched_family: None,
            detection_method: method,
            ai_suggestions: Vec::new(),
        }
    }

    /// Record raw DID data: data already recorded for the DID is replaced.
    pub fn add_raw_data(&mut self, did: u16, data: Vec<u8>)
        ensures
            raw_view(final(self).raw_data@) == match first_where(raw_view(old(self).raw_data@), for_did(did)) {
                Some(i) => raw_view(old(self).raw_data@).update(i, (did, data@)),
                None => raw_view(old(self).raw_data@).push((did, data@)),
            },
            final(self).ecu == old(self).ecu,
            final(self).matched_family == old(self).matched_family,
            final(self).detection_method == old(self).detection_method,
            final(self).ai_suggestions == old(self).ai_suggestions,
    {
        let ghost rv = raw_view(self.raw_data@);
        let ghost d = data@;
        let mut i: usize = 0;
        while i < self.raw_data.len()
            invariant
                i <= self.raw_data.len(),
                rv == raw_view(self.raw_data@),
                rv == raw_view(old(self).raw_data@),
                d == data@,
                self.ecu == old(self).ecu,
                self.matched_family == old(self).matched_family,
                self.detection_method == old(self).detection_method,
                self.ai_suggestions == old(self).ai_suggestions,
                forall|j: int| 0 <= j < i ==> (#[trigger] rv[j]).0 != did,
            decreases self.raw_data.len() - i,
        {
            if self.raw_data[i].0 == did {
                proof {
                    lemma_first_where_at(rv, for_did(did), i as int);
                }
                self.raw_data.set(i, (did, data));
                assert(raw_view(self.raw_data@) =~= rv.update(i as int, (did, d)));
                return;
            }
            i += 1;
        }
        self.raw_data.push((did, data));
        assert(raw_view(self.raw_data@) =~= rv.push((did, d)));
    }

    /// Set matched family
    pub fn set_matched_family(&mut self, family: &str)
        ensures
            final(self).matched_family matches Some(f) && f@ == family@,
            final(self).ecu == old(self).ecu,
            final(self).raw_data == old(self).raw_data,
            final(self).detection_method == old(self).detection_method,
            final(self).ai_suggestions == old(self).ai_suggestions,
    {
        self.matched_family = Some(owned(family));
    }

    /// Add AI suggestion
    pub fn add_suggestion(&mut self, suggestion: AiSuggestion)
        ensures
            final(self).ai_suggestions@ == old(self).ai_suggestions@.push(suggestion),
            final(self).ecu == old(self).ecu,
            final(self).raw_data == old(self).raw_data,
            final(self).matched_family == old(self).matched_family,
            final(self).detection_method == old(self).detection_method,
    {
        self.ai_suggestions.push(suggestion);
    }

    /// The data recorded for a DID, if any.
    fn raw_for(&self, did: u16) -> (r: Option<&Vec<u8>>)
        ensures
            match did_data(raw_view(self.raw_data@), did) {
                Some(d) => r matches Some(v) && v@ == d,
                None => r is None,
            },
    {
        let ghost rv = raw_view(self.raw_data@);
        let mut i: usize = 0;
        while i < self.raw_data.len()
            invariant
                i <= self.raw_data.len(),
                rv == raw_view(self.raw_data@),
                forall|j: int| 0 <= j < i ==> (#[trigger] rv[j]).0 != did,
            decreases self.raw_data.len() - i,
        {
            if self.raw_data[i].0 == did {
                proof {
                    lemma_first_where_at(rv, for_did(did), i as int);
                }
                return Some(&self.raw_data[i].1);
            }
            i += 1;
        }
        None
    }

    /// The VIN in the raw data: the VIN record after its first (length)
    /// byte, read as UTF-8; none without a record of more than one byte or
    /// where it is not valid UTF-8.
    pub fn get_vin(&self) -> (r: Option<String>)
        ensures
            match did_data(raw_view(self.raw_data@), 0xF190) {
                Some(d) => if d.len() > 1 {
                    match r {
                        Some(t) => utf8_decode(d.subrange(1, d.len() as int)) == Some(t@),
                        None => utf8_decode(d.subrange(1, d.len() as int)) is None,
                    }
                } else {
                    r is None
                },
                None => r is None,
            },
    {
        match self.raw_for(UdsDid::VIN) {
            Some(data) => {
                if data.len() > 1 {
                    let mut rest: Vec<u8> = Vec::new();
                    let mut i: usize = 1;
                    while i < data.len()
                        invariant
                            1 <= i <= data.len(),
                            rest@ == data@.subrange(1, i as int),
                        decreases data.len() - i,
                    {
                        rest.push(data[i]);
                        assert(rest@ =~= data@.subrange(1, i as int + 1));
                        i += 1;
                    }
                    utf8_string(rest.as_slice())
                } else {
                    None
                }
            },
            None => None,
        }
    }

    /// The software version in the raw data, read as UTF-8.
    pub fn get_sw_version(&self) -> (r: Option<String>)
        ensures
            match did_data(raw_view(self.raw_data@), 0xF189) {
                Some(d) => match r {
                    Some(t) => utf8_decode(d) == Some(t@),
                    None => utf8_decode(d) is None,
                },
                None => r is None,
            },
    {
        match self.raw_for(UdsDid::SW_VERSION) {
            Some(data) => utf8_string(data.as_slice()),
            None => None,
        }
    }

    /// The hardware version in the raw data, read as UTF-8.
    pub fn get_hw_version(&self) -> (r: Option<String>)
        ensures
            match did_data(raw_view(self.raw_data@), 0xF193) {
                Some(d) => match r {
                    Some(t) => utf8_decode(d) == Some(t@),
                    None => utf8_decode(d) is None,
                },
                None => r is None,
            },
    {
        match self.raw_for(UdsDid::HW_VERSION) {
            Some(data) => utf8_string(data.as_slice()),
            None => None,
        }
    }
}


/// The part-number patterns that name a manufacturer, in the order they
/// are tried.
pub open spec fn part_pattern_table() -> Seq<(Seq<char>, EcuManufacturer)> {
    seq![
        ("0261"@, EcuManufacturer::Bosch),
        ("0281"@, EcuManufacturer::Bosch),
        ("026"@, EcuManufacturer::Bosch),
        ("028"@, EcuManufacturer::Bosch),
        ("5WK"@, EcuManufacturer::Continental),
        ("5WP"@, EcuManufacturer::Continental),
        ("5WS"@, EcuManufacturer::Continental),
        ("89661"@, EcuManufacturer::Denso),
        ("37820"@, EcuManufacturer::Denso),
        ("22611"@, EcuManufacturer::Denso),
        ("275"@, EcuManufacturer::Denso),
        ("12"@, EcuManufacturer::Delphi),
        ("28"@, EcuManufacturer::Delphi),
        ("IAW"@, EcuManufacturer::MagnetiMarelli),
        ("MJD"@, EcuManufacturer::MagnetiMarelli),
        ("61601"@, EcuManufacturer::MagnetiMarelli),
    ]
}

/// The software-version patterns that name a family, in the order they are
/// tried.
pub open spec fn sw_pattern_table() -> Seq<(Seq<char>, Seq<char>)> {
    seq![
        ("EDC17"@, "EDC17"@),
        ("EDC16"@, "EDC16"@),
        ("EDC15"@, "EDC15"@),
        ("MED17"@, "MED17"@),
        ("MED9"@, "MED9"@),
        ("ME7"@, "ME7"@),
        ("SIMOS"@, "SIMOS"@),
        ("SID"@, "SID"@),
    ]
}

/// The result of identifying an ECU. The confidence is kept in tenths: 3
/// for a manufacturer found by part number, 3 for a family found by
/// software version, 2 for that family in the database and 1 for an A2L
/// file associated with it.
#[derive(Debug, Clone)]
pub struct IdentificationResult {
    /// Identified manufacturer
    pub manufacturer: Option<EcuManufacturer>,
    /// Identified family name
    pub family: Option<String>,
    /// Family information from database
    pub family_info: Option<EcuFamily>,
    /// Suggested A2L file
    pub suggested_a2l: Option<String>,
    /// Confidence score in tenths (0 - 10)
    pub confidence: u8,
}

/// Whether a part-number pattern occurs in `text`.
pub open spec fn part_pattern_in(text: Seq<char>) -> spec_fn((Seq<char>, EcuManufacturer)) -> bool {
    |p: (Seq<char>, EcuManufacturer)| contains_seq(text, p.0)
}

/// Whether a software-version pattern occurs in `text`.
pub open spec fn sw_pattern_in(text: Seq<char>) -> spec_fn((Seq<char>, Seq<char>)) -> bool {
    |p: (Seq<char>, Seq<char>)| contains_seq(text, p.0)
}

/// The manufacturer that the first pattern found in the part number names.
pub open spec fn identified_manufacturer(pats: Seq<(Seq<char>, EcuManufacturer)>, part_number: Option<Seq<char>>) -> Option<EcuManufacturer> {
    match part_number {
        Some(pn) => match first_where(pats, part_pattern_in(pn)) {
            Some(i) => Some(pats[i].1),
            None => None,
        },
        None => None,
    }
}

/// The family that the first pattern found in the uppercased software
/// version names.
pub open spec fn identified_family(pats: Seq<(Seq<char>, Seq<char>)>, sw_version: Option<Seq<char>>) -> Option<Seq<char>> {
    match sw_version {
        Some(sw) => match first_where(pats, sw_pattern_in(unicode_uppercase(sw))) {
            Some(i) => Some(pats[i].1),
            None => None,
        },
        None => None,
    }
}

/// The four hexadecimal digits (upper case, zero-padded) of a DID.
pub open spec fn did_hex4(did: u16) -> Seq<char> {
    crate::cli::zero_padded(crate::text::hex_digits(did as nat), 4)
}

/// What the text of a DID's data suggests: the manufacturer whose mark it
/// holds (Bosch, then Continental/Siemens, then Denso) and the reasoning.
pub open spec fn did_finding(did: u16, text: Seq<char>) -> Option<(EcuManufacturer, Seq<char>)> {
    if contains_seq(text, "BOSCH"@) || contains_seq(text, "Bosch"@) {
        Some((EcuManufacturer::Bosch, "DID 0x"@ + did_hex4(did) + " contains 'BOSCH' identifier"@))
    } else if contains_seq(text, "CONTINENTAL"@) || contains_seq(text, "SIEMENS"@) {
        Some((EcuManufacturer::Continental, "DID 0x"@ + did_hex4(did) + " contains Continental/Siemens identifier"@))
    } else if contains_seq(text, "DENSO"@) {
        Some((EcuManufacturer::Denso, "DID 0x"@ + did_hex4(did) + " contains 'DENSO' identifier"@))
    } else {
        None
    }
}

/// The findings of raw data, entry by entry.
pub open spec fn findings(raw: Seq<(u16, Seq<u8>)>) -> Seq<(EcuManufacturer, Seq<char>)>
    decreases raw.len(),
{
    if raw.len() == 0 {
        Seq::empty()
    } else {
        let prev = findings(raw.drop_last());
        match did_finding(raw.last().0, utf8_lossy(raw.last().1)) {
            Some(x) => prev.push(x),
            None => prev,
        }
    }
}

/// Whether a suggestion is the one a finding makes: no family, a
/// confidence of 0.8 and no A2L files.
pub open spec fn suggests(s: AiSuggestion, f: (EcuManufacturer, Seq<char>)) -> bool {
    &&& s.manufacturer == f.0
    &&& s.family is None
    &&& s.confidence@ == "0.8"@
    &&& s.reasoning@ == f.1
    &&& s.suggested_a2l_files@.len() == 0
}

/// A copy of a family.
fn copy_family(f: &EcuFamily) -> (r: EcuFamily)
    ensures
        r@ == f@,
{
    let mut protocols: Vec<String> = Vec::new();
    let mut i: usize = 0;
    while i < f.protocols.len()
        invariant
            i <= f.protocols.len(),
            strings_view(protocols@) == strings_view(f.protocols@.take(i as int)),
        decreases f.protocols.len() - i,
    {
        protocols.push(f.protocols[i].clone());
        assert(strings_view(f.protocols@.take(i as int + 1)) =~= strings_view(f.protocols@.take(i as int)).push(f.protocols@[i as int]@));
        assert(strings_view(protocols@) =~= strings_view(f.protocols@.take(i as int + 1)));
        i += 1;
    }
    assert(f.protocols@.take(i as int) =~= f.protocols@);
    let mut variants: Vec<String> = Vec::new();
    let mut i: usize = 0;
    while i < f.variants.len()
        invariant
            i <= f.variants.len(),
            strings_view(variants@) == strings_view(f.variants@.take(i as int)),
        decreases f.variants.len() - i,
    {
        variants.push(f.variants[i].clone());
        assert(strings_view(f.variants@.take(i as int + 1)) =~= strings_view(f.variants@.take(i as int)).push(f.variants@[i as int]@));
        assert(strings_view(variants@) =~= strings_view(f.variants@.take(i as int + 1)));
        i += 1;
    }
    assert(f.variants@.take(i as int) =~= f.variants@);
    EcuFamily {
        name: f.name.clone(),
        manufacturer: f.manufacturer,
        ecu_type: f.ecu_type,
        description: f.description.clone(),
        processor: match &f.processor {
            Some(p) => Some(p.clone()),
            None => None,
        },
        protocols,
        year_range: f.year_range,
        can_baudrate: f.can_baudrate,
        diag_can_id_request: f.diag_can_id_request,
        diag_can_id_response: f.diag_can_id_response,
        variants,
    }
}

/// A DID's four hexadecimal digits as text.
fn did_hex_text(did: u16) -> (r: String)
    ensures
        r@ == did_hex4(did),
{
    let mut h = String::new();
    crate::text::push_hex(&mut h, did as u64);
    let k = chars_of(h.as_str()).len();
    let mut out = String::new();
    let zeros: usize = if k < 4 { 4 - k } else { 0 };
    let mut i: usize = 0;
    while i < zeros
        invariant
            i <= zeros,
            out@ == Seq::new(i as nat, |j: int| '0'),
        decreases zeros - i,
    {
        crate::text::push_char(&mut out, '0');
        assert(Seq::new((i + 1) as nat, |j: int| '0') =~= Seq::new(i as nat, |j: int| '0').push('0'));
        i += 1;
    }
    crate::text::push_str(&mut out, h.as_str());
    proof {
        if k >= 4 {
            assert(Seq::new(i as nat, |j: int| '0') =~= Seq::<char>::empty());
        }
        assert(out@ =~= did_hex4(did));
    }
    out
}

/// An ECU identifier: a reference database and the patterns that point
/// from part numbers to manufacturers and from software versions to
/// families.
#[derive(Debug, Clone)]
pub struct EcuIdentifier {
    database: EcuDatabase,
    part_number_patterns: Vec<(String, EcuManufacturer)>,
    sw_version_patterns: Vec<(String, String)>,
}

impl EcuIdentifier {
    /// The reference database.
    pub closed spec fn spec_database(&self) -> EcuDatabase {
        self.database
    }

    /// The part-number patterns, in the order they are tried.
    pub closed spec fn part_patterns(&self) -> Seq<(Seq<char>, EcuManufacturer)> {
        self.part_number_patterns@.map_values(|p: (String, EcuManufacturer)| (p.0@, p.1))
    }

    /// The software-version patterns, in the order they are tried.
    pub closed spec fn sw_patterns(&self) -> Seq<(Seq<char>, Seq<char>)> {
        pairs_view(self.sw_version_patterns@)
    }

    /// An identifier over the built-in database, with the built-in patterns.
    pub fn new() -> (r: Self)
        ensures
            families_view(r.spec_database().families@) == add_families(Seq::empty(), builtin_families()),
            r.spec_database().instances@.len() == 0,
            r.spec_database().part_number_map@.len() == 0,
            r.spec_database().a2l_associations@.len() == 0,
            r.part_patterns() == part_pattern_table(),
            r.sw_patterns() == sw_pattern_table(),
    {
        let mut identifier = EcuIdentifier {
            database: EcuDatabase::load_builtin(),
            part_number_patterns: Vec::new(),
            sw_version_patterns: Vec::new(),
        };
        identifier.load_patterns();
        identifier
    }

    /// An identifier over the given database, with the built-in patterns.
    pub fn with_database(database: EcuDatabase) -> (r: Self)
        ensures
            r.spec_database() == database,
            r.part_patterns() == part_pattern_table(),
            r.sw_patterns() == sw_pattern_table(),
    {
        let mut identifier = EcuIdentifier {
            database,
            part_number_patterns: Vec::new(),
            sw_version_patterns: Vec::new(),
        };
        identifier.load_patterns();
        identifier
    }

    fn load_patterns(&mut self)
        requires
            old(self).part_number_patterns@.len() == 0,
            old(self).sw_version_patterns@.len() == 0,
        ensures
            final(self).database == old(self).database,
            final(self).part_patterns() == part_pattern_table(),
            final(self).sw_patterns() == sw_pattern_table(),
    {
        // Bosch part number patterns
        self.part_number_patterns.push((owned("0261"), EcuManufacturer::Bosch));  // ME/MED
        self.part_number_patterns.push((owned("0281"), EcuManufacturer::Bosch));  // EDC
        self.part_number_patterns.push((owned("026"), EcuManufacturer::Bosch));
        self.part_number_patterns.push((owned("028"), EcuManufacturer::Bosch));

        // Continental/Siemens patterns
        self.part_number_patterns.push((owned("5WK"), EcuManufacturer::Continental));
        self.part_number_patterns.push((owned("5WP"), EcuManufacturer::Continental));
        self.part_number_patterns.push((owned("5WS"), EcuManufacturer::Continental));

        // Denso patterns
        self.part_number_patterns.push((owned("89661"), EcuManufacturer::Denso));  // Toyota
        self.part_number_patterns.push((owned("37820"), EcuManufacturer::Denso));  // Honda
        self.part_number_patterns.push((owned("22611"), EcuManufacturer::Denso));  // Subaru
        self.part_number_patterns.push((owned("275"), EcuManufacturer::Denso));

        // Delphi patterns
        self.part_number_patterns.push((owned("12"), EcuManufacturer::Delphi));  // GM
        self.part_number_patterns.push((owned("28"), EcuManufacturer::Delphi));

        // Magneti Marelli patterns
        self.part_number_patterns.push((owned("IAW"), EcuManufacturer::MagnetiMarelli));
        self.part_number_patterns.push((owned("MJD"), EcuManufacturer::MagnetiMarelli));
        self.part_number_patterns.push((owned("61601"), EcuManufacturer::MagnetiMarelli));

        // Software version patterns for family identification
        self.sw_version_patterns.push((owned("EDC17"), owned("EDC17")));
        self.sw_version_patterns.push((owned("EDC16"), owned("EDC16")));
        self.sw_version_patterns.push((owned("EDC15"), owned("EDC15")));
        self.sw_version_patterns.push((owned("MED17"), owned("MED17")));
        self.sw_version_patterns.push((owned("MED9"), owned("MED9")));
        self.sw_version_patterns.push((owned("ME7"), owned("ME7")));
        self.sw_version_patterns.push((owned("SIMOS"), owned("SIMOS")));
        self.sw_version_patterns.push((owned("SID"), owned("SID")));
        assert(self.part_patterns() =~= part_pattern_table());
        assert(self.sw_patterns() =~= sw_pattern_table());
    }

    /// The manufacturer that the first pattern found in a part number names.
    fn manufacturer_by_part_number(&self, part_number: &Option<String>) -> (r: Option<EcuManufacturer>)
        ensures
            r == identified_manufacturer(self.part_patterns(), opt_text(*part_number)),
    {
        let ghost pp = self.part_patterns();
        if let Some(pn) = part_number {
            let pnv = chars_of(pn.as_str());
            let mut i: usize = 0;
            while i < self.part_number_patterns.len()
                invariant
                    i <= self.part_number_patterns.len(),
                    pp == self.part_patterns(),
                    pnv@ == pn@,
                    *part_number == Some(*pn),
                    forall|j: int| 0 <= j < i ==> !part_pattern_in(pn@)(#[trigger] pp[j]),
                decreases self.part_number_patterns.len() - i,
            {
                let pat = chars_of(self.part_number_patterns[i].0.as_str());
                assert(pp[i as int] == (self.part_number_patterns@[i as int].0@, self.part_number_patterns@[i as int].1));
                if crate::dbf::contains_exec(pnv.as_slice(), pat.as_slice()) {
                    proof {
                        lemma_first_where_at(pp, part_pattern_in(pn@), i as int);
                    }
                    assert(pp[i as int].1 == self.part_number_patterns@[i as int].1);
                    return Some(self.part_number_patterns[i].1);
                }
                i += 1;
            }
        }
        None
    }

    /// The family that the first pattern found in an uppercased software
    /// version names.
    fn family_by_sw_version(&self, sw_version: &Option<String>) -> (r: Option<String>)
        ensures
            opt_text(r) == identified_family(self.sw_patterns(), opt_text(*sw_version)),
    {
        let ghost sp = self.sw_patterns();
        if let Some(sw) = sw_version {
            let up = to_uppercase(sw.as_str());
            let upv = chars_of(up.as_str());
            let mut i: usize = 0;
            while i < self.sw_version_patterns.len()
                invariant
                    i <= self.sw_version_patterns.len(),
                    sp == self.sw_patterns(),
                    upv@ == unicode_uppercase(sw@),
                    *sw_version == Some(*sw),
                    forall|j: int| 0 <= j < i ==> !sw_pattern_in(unicode_uppercase(sw@))(#[trigger] sp[j]),
                decreases self.sw_version_patterns.len() - i,
            {
                let pat = chars_of(self.sw_version_patterns[i].0.as_str());
                assert(sp[i as int] == (self.sw_version_patterns@[i as int].0@, self.sw_version_patterns@[i as int].1@));
                if crate::dbf::contains_exec(upv.as_slice(), pat.as_slice()) {
                    proof {
                        lemma_first_where_at(sp, sw_pattern_in(unicode_uppercase(sw@)), i as int);
                    }
                    assert(sp[i as int].1 == self.sw_version_patterns@[i as int].1@);
                    return Some(self.sw_version_patterns[i].1.clone());
                }
                i += 1;
            }
        }
        None
    }

    /// Identify an ECU: the manufacturer from the first part-number pattern
    /// that occurs in its part number, the family from the first
    /// software-version pattern that occurs in its uppercased software
    /// version, that family's record and A2L file from the database, and a
    /// confidence that adds up what was found; none when neither a
    /// manufacturer nor a family was found.
    pub fn identify(&self, result: &EcuDetectionResult) -> (r: Option<IdentificationResult>)
        ensures
            ({
                let m = identified_manufacturer(self.part_patterns(), opt_text(result.ecu.part_number));
                let f = identified_family(self.sw_patterns(), opt_text(result.ecu.sw_version));
                let db = self.spec_database();
                let info = match f {
                    Some(n) => first_named(db.families@, family_name(), n),
                    None => None,
                };
                let a2l = match f {
                    Some(n) => first_named(pairs_view(db.a2l_associations@), entry_key(), n),
                    None => None,
                };
                if m is None && f is None {
                    r is None
                } else {
                    &&& r matches Some(id)
                    &&& id.manufacturer == m
                    &&& opt_text(id.family) == f
                    &&& match info {
                        Some(i) => id.family_info matches Some(x) && x@ == db.families@[i]@,
                        None => id.family_info is None,
                    }
                    &&& match a2l {
                        Some(i) => id.suggested_a2l matches Some(x) && x@ == pairs_view(db.a2l_associations@)[i].1,
                        None => id.suggested_a2l is None,
                    }
                    &&& id.confidence == (if m is Some { 3int } else { 0 }) + (if f is Some { 3int } else { 0 }) + (
                    if info is Some { 2int } else { 0 }) + (if a2l is Some { 1int } else { 0 })
                }
            }),
    {
        let manufacturer = self.manufacturer_by_part_number(&result.ecu.part_number);
        let family = self.family_by_sw_version(&result.ecu.sw_version);
        let mut confidence: u8 = 0;
        if manufacturer.is_some() {
            confidence = 3;
        }
        if family.is_some() {
            confidence = confidence + 3;
        }
        let mut family_info: Option<EcuFamily> = None;
        let mut suggested_a2l: Option<String> = None;
        if let Some(name) = &family {
            if let Some(f) = self.database.find_family(name.as_str()) {
                family_info = Some(copy_family(f));
                confidence = confidence + 2;
            }
            if let Some(a2l) = self.database.get_a2l_for_family(name.as_str()) {
                proof {
                    lemma_first_named_found(pairs_view(self.database.a2l_associations@), entry_key(), name@);
                    let i = first_named(pairs_view(self.database.a2l_associations@), entry_key(), name@)->0;
                    assert(pairs_view(self.database.a2l_associations@)[i].1 == self.database.a2l_associations@[i].1@);
                }
                suggested_a2l = Some(a2l.clone());
                confidence = confidence + 1;
            }
        }
        if confidence > 0 {
            Some(IdentificationResult { manufacturer, family, family_info, suggested_a2l, confidence })
        } else {
            None
        }
    }

    /// What one DID's data suggests, read as text with invalid UTF-8
    /// replaced.
    fn analyze_did_data(&self, did: u16, data: &[u8]) -> (r: Option<AiSuggestion>)
        ensures
            match did_finding(did, utf8_lossy(data@)) {
                Some(f) => r matches Some(s) && suggests(s, f),
                None => r is None,
            },
    {
        let text = utf8_lossy_string(data);
        let t = chars_of(text.as_str());
        let (manufacturer, mark): (EcuManufacturer, &str) = if crate::dbf::contains_exec(t.as_slice(), chars_of("BOSCH").as_slice())
            || crate::dbf::contains_exec(t.as_slice(), chars_of("Bosch").as_slice()) {
            (EcuManufacturer::Bosch, " contains 'BOSCH' identifier")
        } else if crate::dbf::contains_exec(t.as_slice(), chars_of("CONTINENTAL").as_slice())
            || crate::dbf::contains_exec(t.as_slice(), chars_of("SIEMENS").as_slice()) {
            (EcuManufacturer::Continental, " contains Continental/Siemens identifier")
        } else if crate::dbf::contains_exec(t.as_slice(), chars_of("DENSO").as_slice()) {
            (EcuManufacturer::Denso, " contains 'DENSO' identifier")
        } else {
            return None;
        };
        let mut reasoning = owned("DID 0x");
        let hex = did_hex_text(did);
        crate::text::push_str(&mut reasoning, hex.as_str());
        crate::text::push_str(&mut reasoning, mark);
        Some(AiSuggestion {
            manufacturer,
            family: None,
            confidence: owned("0.8"),
            reasoning,
            suggested_a2l_files: Vec::new(),
        })
    }

    /// Suggestions for an unknown ECU: one for each raw data entry whose
    /// text holds a manufacturer's mark, in the order of the raw data (all
    /// carry the same confidence).
    pub fn generate_suggestions(&self, result: &EcuDetectionResult) -> (r: Vec<AiSuggestion>)
        ensures
            r@.len() == findings(raw_view(result.raw_data@)).len(),
            forall|i: int| 0 <= i < r@.len() ==> suggests(#[trigger] r@[i], findings(raw_view(result.raw_data@))[i]),
    {
        let ghost raw = raw_view(result.raw_data@);
        let mut out: Vec<AiSuggestion> = Vec::new();
        let mut i: usize = 0;
        while i < result.raw_data.len()
            invariant
                i <= result.raw_data.len(),
                raw == raw_view(result.raw_data@),
                out@.len() == findings(raw.take(i as int)).len(),
                forall|k: int| 0 <= k < out@.len() ==> suggests(#[trigger] out@[k], findings(raw.take(i as int))[k]),
            decreases result.raw_data.len() - i,
        {
            assert(raw.take(i as int + 1).drop_last() =~= raw.take(i as int));
            let entry = &result.raw_data[i];
            let found = self.analyze_did_data(entry.0, entry.1.as_slice());
            if let Some(s) = found {
                out.push(s);
            }
            i += 1;
        }
        assert(raw.take(i as int) =~= raw);
        out
    }

    /// The reference database.
    pub fn database(&self) -> (r: &EcuDatabase)
        ensures
            *r == self.spec_database(),
    {
        &self.database
    }
}

} // verus!
