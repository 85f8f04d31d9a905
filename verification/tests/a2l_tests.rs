use busmaster::a2l::{
    A2lDataType, A2lDatabase, A2lGenerator, A2lMeasurement, A2lModule, A2lParser, Asap2Version, AxisType,
    CharacteristicType, CompuMethodType, A2lByteOrder, DepositMode,
};
use busmaster::BusmasterError;

#[test]
fn test_data_type_properties() {
    assert_eq!(A2lDataType::UByte.size_bytes(), 1);
    assert_eq!(A2lDataType::UWord.size_bytes(), 2);
    assert_eq!(A2lDataType::ULong.size_bytes(), 4);
    assert_eq!(A2lDataType::Float64Ieee.size_bytes(), 8);

    assert!(!A2lDataType::UByte.is_signed());
    assert!(A2lDataType::SByte.is_signed());
    assert!(A2lDataType::Float32Ieee.is_signed());
}

#[test]
fn test_asap2_version_string() {
    let ver = Asap2Version::new(1, 71);
    assert_eq!(ver.to_version_string(), "1.71");
}

#[test]
fn test_characteristic_type_from_str() {
    assert_eq!(
        CharacteristicType::from_str("VALUE"),
        Some(CharacteristicType::Value)
    );
    assert_eq!(
        CharacteristicType::from_str("CURVE"),
        Some(CharacteristicType::Curve)
    );
    assert_eq!(
        CharacteristicType::from_str("MAP"),
        Some(CharacteristicType::Map2d)
    );
    assert_eq!(
        CharacteristicType::from_str("CUBOID"),
        Some(CharacteristicType::Cuboid)
    );
    assert_eq!(CharacteristicType::from_str("INVALID"), None);
}

#[test]
fn test_axis_type_from_str() {
    assert_eq!(AxisType::from_str("STD_AXIS"), Some(AxisType::StdAxis));
    assert_eq!(AxisType::from_str("FIX_AXIS"), Some(AxisType::FixAxis));
    assert_eq!(AxisType::from_str("COM_AXIS"), Some(AxisType::ComAxis));
    assert_eq!(AxisType::from_str("INVALID"), None);
}


#[test]
fn test_parse_minimal_a2l() {
    let a2l = r#"
ASAP2_VERSION 1 71
/begin PROJECT TestProject "Test Project Description"
  /begin MODULE TestModule "Test Module"
  /end MODULE
/end PROJECT
"#;
    let db = A2lParser::parse(a2l).unwrap();
    assert_eq!(db.asap2_version.major, 1);
    assert_eq!(db.asap2_version.minor, 71);
    assert_eq!(db.project.name, "TestProject");
    assert_eq!(db.project.modules.len(), 1);
    assert_eq!(db.project.modules[0].name, "TestModule");
}

#[test]
fn test_parse_measurement() {
    let a2l = r#"
ASAP2_VERSION 1 71
/begin PROJECT Test ""
  /begin MODULE Mod ""
    /begin MEASUREMENT EngineSpeed
      "Engine rotational speed"
      UWORD NO_COMPU_METHOD 0 0 0 16383
      ECU_ADDRESS 0x12345678
      FORMAT "%.1f"
      PHYS_UNIT "rpm"
    /end MEASUREMENT
  /end MODULE
/end PROJECT
"#;
    let db = A2lParser::parse(a2l).unwrap();
    let meas = db.find_measurement("EngineSpeed").unwrap();
    assert_eq!(meas.name, "EngineSpeed");
    assert_eq!(meas.data_type, A2lDataType::UWord);
    assert_eq!(meas.ecu_address, Some(0x12345678));
    assert_eq!(meas.upper_limit.parse::<f64>().unwrap(), 16383.0);
    assert_eq!(meas.phys_unit, Some("rpm".to_string()));
}

#[test]
fn test_parse_characteristic() {
    let a2l = r#"
ASAP2_VERSION 1 71
/begin PROJECT Test ""
  /begin MODULE Mod ""
    /begin CHARACTERISTIC FuelMap
      "Fuel injection map"
      MAP 0xABCD0000 FuelMapLayout 0.0 NO_COMPU_METHOD 0 255
      /begin AXIS_DESCR STD_AXIS EngineSpeed NO_COMPU_METHOD 16 0 8000
      /end AXIS_DESCR
      /begin AXIS_DESCR STD_AXIS EngineLoad NO_COMPU_METHOD 16 0 100
      /end AXIS_DESCR
    /end CHARACTERISTIC
  /end MODULE
/end PROJECT
"#;
    let db = A2lParser::parse(a2l).unwrap();
    let char = db.find_characteristic("FuelMap").unwrap();
    assert_eq!(char.name, "FuelMap");
    assert_eq!(char.char_type, CharacteristicType::Map2d);
    assert_eq!(char.address, 0xABCD0000);
    assert_eq!(char.axis_descr.len(), 2);
    assert_eq!(char.axis_descr[0].input_quantity, "EngineSpeed");
    assert_eq!(char.axis_descr[1].input_quantity, "EngineLoad");
}

#[test]
fn a2l_test_parse_compu_method_linear() {
    let a2l = r#"
ASAP2_VERSION 1 71
/begin PROJECT Test ""
  /begin MODULE Mod ""
    /begin COMPU_METHOD CM_Speed
      "Speed conversion"
      LINEAR "%.2f" "km/h"
      COEFFS_LINEAR 0.01 0
    /end COMPU_METHOD
  /end MODULE
/end PROJECT
"#;
    let db = A2lParser::parse(a2l).unwrap();
    let cm = db.find_compu_method("CM_Speed").unwrap();
    assert_eq!(cm.name, "CM_Speed");
    assert_eq!(cm.conversion_type, CompuMethodType::Linear);
    let (a, b) = cm.coeffs_linear.clone().unwrap();
    assert_eq!((a.parse::<f64>().unwrap(), b.parse::<f64>().unwrap()), (0.01, 0.0));
    assert_eq!(cm.unit, "km/h");
}

#[test]
fn a2l_test_parse_with_comments() {
    let a2l = r#"
// This is a single-line comment
ASAP2_VERSION 1 71
/* This is a
   multi-line comment */
/begin PROJECT Test ""
  /begin MODULE Mod "" // inline comment
  /end MODULE
/end PROJECT
"#;
    let db = A2lParser::parse(a2l).unwrap();
    assert_eq!(db.project.name, "Test");
}

#[test]
fn test_parse_function() {
    let a2l = r#"
ASAP2_VERSION 1 71
/begin PROJECT Test ""
  /begin MODULE Mod ""
    /begin FUNCTION EngineControl "Engine control function"
      /begin DEF_CHARACTERISTIC
        FuelMap
        IgnitionMap
      /end DEF_CHARACTERISTIC
      /begin IN_MEASUREMENT
        EngineSpeed
        EngineLoad
      /end IN_MEASUREMENT
      /begin OUT_MEASUREMENT
        FuelInjection
      /end OUT_MEASUREMENT
    /end FUNCTION
  /end MODULE
/end PROJECT
"#;
    let db = A2lParser::parse(a2l).unwrap();
    let func = &db.project.modules[0].functions[0];
    assert_eq!(func.name, "EngineControl");
    assert_eq!(func.def_characteristic.len(), 2);
    assert_eq!(func.in_measurement.len(), 2);
    assert_eq!(func.out_measurement.len(), 1);
}

#[test]
fn test_parse_group() {
    let a2l = r#"
ASAP2_VERSION 1 71
/begin PROJECT Test ""
  /begin MODULE Mod ""
    /begin GROUP EngineParams "Engine parameters"
      ROOT
      /begin REF_CHARACTERISTIC
        FuelMap
      /end REF_CHARACTERISTIC
      /begin REF_MEASUREMENT
        EngineSpeed
      /end REF_MEASUREMENT
    /end GROUP
  /end MODULE
/end PROJECT
"#;
    let db = A2lParser::parse(a2l).unwrap();
    let group = &db.project.modules[0].groups[0];
    assert_eq!(group.name, "EngineParams");
    assert!(group.root);
    assert_eq!(group.ref_characteristic.len(), 1);
    assert_eq!(group.ref_measurement.len(), 1);
}

#[test]
fn test_generate_a2l() {
    let mut db = A2lDatabase::new();
    db.asap2_version = Asap2Version::new(1, 71);
    db.project.name = "TestProject".to_string();
    db.project.long_identifier = "Test Project".to_string();

    let mut module = A2lModule::default();
    module.name = "TestModule".to_string();
    module.long_identifier = "Test Module".to_string();

    let meas = A2lMeasurement::new("Speed", "Vehicle speed", A2lDataType::UWord)
        .with_address(0x1000)
        .with_limits("0.0", "300.0")
        .with_compu_method("CM_Speed");
    module.measurements.push(meas);

    db.project.modules.push(module);

    let output = A2lGenerator::generate(&db);
    assert!(output.contains("ASAP2_VERSION 1 71"));
    assert!(output.contains("PROJECT TestProject"));
    assert!(output.contains("MEASUREMENT Speed"));
    assert!(output.contains("ECU_ADDRESS 0x00001000"));
}

fn parse_error(text: &str) -> (String, usize) {
    match A2lParser::parse(text) {
        Err(BusmasterError::DatabaseParse { message, line }) => (message, line),
        other => panic!("expected a parse error, got {:?}", other.map(|_| ())),
    }
}

#[test]
fn a2l_missing_string_reports_its_line() {
    let text = "ASAP2_VERSION 1 71\n/begin PROJECT P\n  /begin MODULE M \"\"\n  /end MODULE\n/end PROJECT\n";
    let (message, line) = parse_error(text);
    assert_eq!(message, "Expected string at line 3");
    assert_eq!(line, 3);
}

#[test]
fn a2l_missing_end_keyword_is_refused() {
    let text = "ASAP2_VERSION 1 71\n/begin PROJECT P \"\"\n  /begin MODULE M \"\"\n  /end PROJECT\n";
    let (message, line) = parse_error(text);
    assert_eq!(message, "Expected 'MODULE' at line 4");
    assert_eq!(line, 4);
}

#[test]
fn a2l_version_out_of_range_is_invalid() {
    let (message, line) = parse_error("ASAP2_VERSION 1 70000\n");
    assert_eq!(message, "Invalid number at line 1");
    assert_eq!(line, 1);
}

#[test]
fn a2l_bad_decimal_is_invalid() {
    let text = "/begin PROJECT P \"\"\n/begin MODULE M \"\"\n/begin MEASUREMENT X \"\" UBYTE CM 1e 0 0 1\n";
    let (message, line) = parse_error(text);
    assert_eq!(message, "Invalid number at line 3");
    assert_eq!(line, 3);
}

#[test]
fn a2l_missing_hex_digits_is_invalid() {
    let text = "/begin PROJECT P \"\"\n/begin MODULE M \"\"\n/begin MEASUREMENT X \"\" UBYTE CM 0 0 0 1\nECU_ADDRESS 0xZZ\n";
    let (message, _) = parse_error(text);
    assert_eq!(message, "Invalid hex number at line 4");
}

#[test]
fn a2l_non_identifier_in_list_is_refused() {
    let text = "/begin PROJECT P \"\"\n/begin MODULE M \"\"\n/begin GROUP G \"\"\n/begin SUB_GROUP\n\"x\"\n/end SUB_GROUP\n";
    let (message, line) = parse_error(text);
    assert_eq!(message, "Expected identifier at line 5");
    assert_eq!(line, 5);
}

#[test]
fn a2l_empty_text_gives_empty_database() {
    let db = A2lParser::parse("  // nothing here\n").unwrap();
    assert_eq!(db.asap2_version, Asap2Version::new(0, 0));
    assert!(db.a2ml_version.is_none());
    assert_eq!(db.project.name, "");
    assert!(db.project.modules.is_empty());
}

#[test]
fn a2l_strings_keep_escapes_and_doubled_quotes() {
    let text = "/begin PROJECT P \"a \"\"q\"\" \\t\\x\\n\"\n/end PROJECT\n";
    let db = A2lParser::parse(text).unwrap();
    assert_eq!(db.project.long_identifier, "a \"q\" \t\\x\n");
}

#[test]
fn a2l_blocks_of_a_module() {
    let text = r#"
ASAP2_VERSION 1 71
A2ML_VERSION 1 31
/begin PROJECT P "project"
  /begin HEADER "header" PROJECT_NO P42 VERSION "v1" /end HEADER
  /begin MODULE M "module"
    /begin MOD_COMMON "common" BYTE_ORDER MSB_LAST DEPOSIT DIFFERENCE ALIGNMENT_WORD 2 /end MOD_COMMON
    /begin MOD_PAR "par" CPU_TYPE "cpu"
      /begin MEMORY_SEGMENT Code "code" CODE FLASH INTERN 0x8000 0x100 -1 -1 /end MEMORY_SEGMENT
    /end MOD_PAR
    /begin COMPU_TAB T "table" TAB_INTP 2 1 10 2 20.5 DEFAULT_VALUE 0 /end COMPU_TAB
    /begin COMPU_VTAB V "verbal" TAB_VERB 2 0 "off" -1 "on" DEFAULT_VALUE "?" /end COMPU_VTAB
    /begin RECORD_LAYOUT RL FNC_VALUES 1 SWORD COLUMN_DIR DIRECT STATIC_RECORD_LAYOUT /end RECORD_LAYOUT
    /begin UNIT U "unit" "m/s" DERIVED SI_EXPONENTS 1 0 -1 0 0 0 0 UNIT_CONVERSION 1 0 /end UNIT
    /begin IF_DATA XCP /begin SEG 1 /end SEG  raw text /end IF_DATA
    /begin AXIS_PTS AP "points" 0x10 IQ RL 0 CM 8 0 100 READ_ONLY /end AXIS_PTS
    /begin UNKNOWN_BLOCK /begin INNER x /end INNER /end UNKNOWN_BLOCK
  /end MODULE
/end PROJECT
"#;
    let db = A2lParser::parse(text).unwrap();
    assert_eq!(db.a2ml_version, Some(Asap2Version::new(1, 31)));
    let header = db.project.header.clone().unwrap();
    assert_eq!(header.comment, "header");
    assert_eq!(header.project_no, Some("P42".to_string()));
    assert_eq!(header.version, Some("v1".to_string()));
    let m = &db.project.modules[0];
    let mc = m.mod_common.clone().unwrap();
    assert_eq!(mc.byte_order, Some(A2lByteOrder::LittleEndian));
    assert_eq!(mc.deposit, Some(DepositMode::Difference));
    assert_eq!(mc.alignment_word, Some(2));
    let mp = m.mod_par.clone().unwrap();
    assert_eq!(mp.cpu_type, Some("cpu".to_string()));
    assert_eq!(mp.memory_segments.len(), 1);
    assert_eq!(mp.memory_segments[0].address, 0x8000);
    assert_eq!(mp.memory_segments[0].size, 0x100);
    assert_eq!(m.compu_tabs[0].values, vec![("1".to_string(), "10".to_string()), ("2".to_string(), "20.5".to_string())]);
    assert_eq!(m.compu_tabs[0].default_value, Some("0".to_string()));
    assert_eq!(m.compu_vtabs[0].values, vec![(0, "off".to_string()), (-1, "on".to_string())]);
    assert_eq!(m.compu_vtabs[0].default_value, Some("?".to_string()));
    let rl = &m.record_layouts[0];
    assert!(rl.static_record_layout);
    let fnc = rl.fnc_values.clone().unwrap();
    assert_eq!(fnc.position, 1);
    assert_eq!(fnc.data_type, A2lDataType::SWord);
    assert_eq!(m.units[0].si_exponents, Some((1, 0, -1, 0, 0, 0, 0)));
    assert_eq!(m.units[0].unit_conversion, Some(("1".to_string(), "0".to_string())));
    assert_eq!(m.if_data[0].name, "XCP");
    assert_eq!(m.if_data[0].content, "/begin SEG 1 /end SEG  raw text");
    assert!(m.axis_pts[0].read_only);
    assert_eq!(m.axis_pts[0].max_axis_points, 8);
}

#[test]
fn a2l_generated_text_reads_back() {
    let mut db = A2lDatabase::new();
    db.asap2_version = Asap2Version::new(1, 60);
    db.project.name = "P".to_string();
    let mut module = A2lModule::default();
    module.name = "M".to_string();
    module.measurements.push(
        A2lMeasurement::new("Speed", "speed", A2lDataType::SLong).with_address(0xABC).with_limits("-5", "5"),
    );
    db.project.modules.push(module);
    let text = A2lGenerator::generate(&db);
    let back = A2lParser::parse(&text).unwrap();
    assert_eq!(back.asap2_version, Asap2Version::new(1, 60));
    let meas = back.find_measurement("Speed").unwrap();
    assert_eq!(meas.data_type, A2lDataType::SLong);
    assert_eq!(meas.ecu_address, Some(0xABC));
    assert_eq!(meas.lower_limit, "-5");
    assert_eq!(meas.upper_limit, "5");
}

#[test]
fn data_type_names_read_back_in_any_case() {
    let all = [
        A2lDataType::UByte, A2lDataType::SByte, A2lDataType::UWord, A2lDataType::SWord, A2lDataType::ULong,
        A2lDataType::SLong, A2lDataType::AUint64, A2lDataType::AInt64, A2lDataType::Float32Ieee,
        A2lDataType::Float64Ieee,
    ];
    let names = ["UBYTE", "SBYTE", "UWORD", "SWORD", "ULONG", "SLONG", "A_UINT64", "A_INT64", "FLOAT32_IEEE", "FLOAT64_IEEE"];
    for (t, n) in all.iter().zip(names.iter()) {
        assert_eq!(A2lDataType::from_str(n), Some(*t));
        assert_eq!(A2lDataType::from_str(&n.to_lowercase()), Some(*t));
    }
    assert_eq!(A2lDataType::from_str("WORD"), None);
}
