use busmaster::arxml::{ArxmlByteOrder, AutosarVersion, BaseTypeEncoding, CompuMethodCategory};

#[test]
fn test_autosar_version_from_schema_url() {
    let v = AutosarVersion::from_schema_url("http://autosar.org/schema/r4.0").unwrap();
    assert_eq!(v.major, 4);
    assert_eq!(v.minor, 0);
    
    let v = AutosarVersion::from_schema_url("http://autosar.org/schema/r4.2.2").unwrap();
    assert_eq!(v.major, 4);
    assert_eq!(v.minor, 2);
    assert_eq!(v.patch, 2);
}

#[test]
fn test_byte_order_parse() {
    assert_eq!(ArxmlByteOrder::parse("MOST-SIGNIFICANT-BYTE-FIRST"), ArxmlByteOrder::MostSignificantByteFirst);
    assert_eq!(ArxmlByteOrder::parse("MOST-SIGNIFICANT-BYTE-LAST"), ArxmlByteOrder::MostSignificantByteLast);
    assert_eq!(ArxmlByteOrder::parse("OPAQUE"), ArxmlByteOrder::Opaque);
}

#[test]
fn test_base_type_encoding_parse() {
    assert_eq!(BaseTypeEncoding::parse("SIGNED"), BaseTypeEncoding::Signed);
    assert_eq!(BaseTypeEncoding::parse("UNSIGNED"), BaseTypeEncoding::Unsigned);
    assert_eq!(BaseTypeEncoding::parse("2C"), BaseTypeEncoding::Unsigned);
    assert_eq!(BaseTypeEncoding::parse("IEEE754"), BaseTypeEncoding::Ieee754);
    assert_eq!(BaseTypeEncoding::parse("BOOLEAN"), BaseTypeEncoding::Boolean);
}

#[test]
fn test_compu_method_category_parse() {
    assert_eq!(CompuMethodCategory::parse("IDENTICAL"), CompuMethodCategory::Identical);
    assert_eq!(CompuMethodCategory::parse("LINEAR"), CompuMethodCategory::Linear);
    assert_eq!(CompuMethodCategory::parse("TEXTTABLE"), CompuMethodCategory::TextTable);
    assert_eq!(CompuMethodCategory::parse("RAT-FUNC"), CompuMethodCategory::RatFunc);
}


use busmaster::arxml::{ArxmlParseError, ArxmlParser, CompuMethod, CompuScale};

fn decimal(s: &str) -> f64 {
    s.parse::<f64>().unwrap()
}

#[test]
fn test_parse_minimal_arxml() {
    let arxml = r#"<?xml version="1.0" encoding="UTF-8"?>
<AUTOSAR xmlns="http://autosar.org/schema/r4.0">
  <AR-PACKAGES>
    <AR-PACKAGE>
      <SHORT-NAME>TestPackage</SHORT-NAME>
    </AR-PACKAGE>
  </AR-PACKAGES>
</AUTOSAR>
"#;
    let db = ArxmlParser::parse(arxml).unwrap();
    assert_eq!(db.version.major, 4);
    assert_eq!(db.packages.len(), 1);
    assert_eq!(db.packages[0].short_name, "TestPackage");
}

#[test]
fn test_parse_nested_packages() {
    let arxml = r#"<?xml version="1.0" encoding="UTF-8"?>
<AUTOSAR xmlns="http://autosar.org/schema/r4.0">
  <AR-PACKAGES>
    <AR-PACKAGE>
      <SHORT-NAME>RootPackage</SHORT-NAME>
      <AR-PACKAGES>
        <AR-PACKAGE>
          <SHORT-NAME>SubPackage</SHORT-NAME>
        </AR-PACKAGE>
      </AR-PACKAGES>
    </AR-PACKAGE>
  </AR-PACKAGES>
</AUTOSAR>
"#;
    let db = ArxmlParser::parse(arxml).unwrap();
    assert_eq!(db.packages.len(), 1);
    assert_eq!(db.packages[0].short_name, "RootPackage");
    assert_eq!(db.packages[0].sub_packages.len(), 1);
    assert_eq!(db.packages[0].sub_packages[0].short_name, "SubPackage");
}

#[test]
fn test_parse_i_signal() {
    let arxml = r#"<?xml version="1.0" encoding="UTF-8"?>
<AUTOSAR xmlns="http://autosar.org/schema/r4.0">
  <AR-PACKAGES>
    <AR-PACKAGE>
      <SHORT-NAME>Signals</SHORT-NAME>
      <ELEMENTS>
        <I-SIGNAL>
          <SHORT-NAME>EngineSpeed</SHORT-NAME>
          <I-SIGNAL-LENGTH>16</I-SIGNAL-LENGTH>
          <INIT-VALUE>0</INIT-VALUE>
        </I-SIGNAL>
      </ELEMENTS>
    </AR-PACKAGE>
  </AR-PACKAGES>
</AUTOSAR>
"#;
    let db = ArxmlParser::parse(arxml).unwrap();
    assert_eq!(db.packages[0].i_signals.len(), 1);
    let signal = &db.packages[0].i_signals[0];
    assert_eq!(signal.short_name, "EngineSpeed");
    assert_eq!(signal.i_signal_length, 16);
    assert_eq!(signal.init_value.as_deref().map(decimal), Some(0.0));
}

#[test]
fn test_parse_i_signal_i_pdu() {
    let arxml = r#"<?xml version="1.0" encoding="UTF-8"?>
<AUTOSAR xmlns="http://autosar.org/schema/r4.0">
  <AR-PACKAGES>
    <AR-PACKAGE>
      <SHORT-NAME>PDUs</SHORT-NAME>
      <ELEMENTS>
        <I-SIGNAL-I-PDU>
          <SHORT-NAME>EngineData_PDU</SHORT-NAME>
          <LENGTH>8</LENGTH>
          <I-SIGNAL-TO-PDU-MAPPINGS>
            <I-SIGNAL-TO-PDU-MAPPING>
              <SHORT-NAME>EngineSpeed_Mapping</SHORT-NAME>
              <I-SIGNAL-REF>/Signals/EngineSpeed</I-SIGNAL-REF>
              <PACKING-BYTE-ORDER>MOST-SIGNIFICANT-BYTE-LAST</PACKING-BYTE-ORDER>
              <START-POSITION>0</START-POSITION>
            </I-SIGNAL-TO-PDU-MAPPING>
          </I-SIGNAL-TO-PDU-MAPPINGS>
        </I-SIGNAL-I-PDU>
      </ELEMENTS>
    </AR-PACKAGE>
  </AR-PACKAGES>
</AUTOSAR>
"#;
    let db = ArxmlParser::parse(arxml).unwrap();
    assert_eq!(db.packages[0].i_signal_i_pdus.len(), 1);
    let pdu = &db.packages[0].i_signal_i_pdus[0];
    assert_eq!(pdu.short_name, "EngineData_PDU");
    assert_eq!(pdu.length, 8);
    assert_eq!(pdu.i_signal_to_pdu_mappings.len(), 1);
    let mapping = &pdu.i_signal_to_pdu_mappings[0];
    assert_eq!(mapping.short_name, "EngineSpeed_Mapping");
    assert_eq!(mapping.i_signal_ref, "/Signals/EngineSpeed");
    assert_eq!(mapping.packing_byte_order, ArxmlByteOrder::MostSignificantByteLast);
    assert_eq!(mapping.start_position, 0);
}

#[test]
fn test_parse_can_frame() {
    let arxml = r#"<?xml version="1.0" encoding="UTF-8"?>
<AUTOSAR xmlns="http://autosar.org/schema/r4.0">
  <AR-PACKAGES>
    <AR-PACKAGE>
      <SHORT-NAME>Frames</SHORT-NAME>
      <ELEMENTS>
        <CAN-FRAME>
          <SHORT-NAME>EngineData_Frame</SHORT-NAME>
          <FRAME-LENGTH>8</FRAME-LENGTH>
          <PDU-TO-FRAME-MAPPINGS>
            <PDU-TO-FRAME-MAPPING>
              <SHORT-NAME>EngineData_Mapping</SHORT-NAME>
              <PDU-REF>/PDUs/EngineData_PDU</PDU-REF>
              <START-POSITION>0</START-POSITION>
            </PDU-TO-FRAME-MAPPING>
          </PDU-TO-FRAME-MAPPINGS>
        </CAN-FRAME>
      </ELEMENTS>
    </AR-PACKAGE>
  </AR-PACKAGES>
</AUTOSAR>
"#;
    let db = ArxmlParser::parse(arxml).unwrap();
    assert_eq!(db.packages[0].can_frames.len(), 1);
    let frame = &db.packages[0].can_frames[0];
    assert_eq!(frame.short_name, "EngineData_Frame");
    assert_eq!(frame.frame_length, 8);
    assert_eq!(frame.pdu_to_frame_mappings.len(), 1);
}

#[test]
fn test_parse_can_cluster() {
    let arxml = r#"<?xml version="1.0" encoding="UTF-8"?>
<AUTOSAR xmlns="http://autosar.org/schema/r4.0">
  <AR-PACKAGES>
    <AR-PACKAGE>
      <SHORT-NAME>Clusters</SHORT-NAME>
      <ELEMENTS>
        <CAN-CLUSTER>
          <SHORT-NAME>CAN_Network</SHORT-NAME>
          <BAUDRATE>500000</BAUDRATE>
          <CAN-FD-BAUDRATE>2000000</CAN-FD-BAUDRATE>
        </CAN-CLUSTER>
      </ELEMENTS>
    </AR-PACKAGE>
  </AR-PACKAGES>
</AUTOSAR>
"#;
    let db = ArxmlParser::parse(arxml).unwrap();
    assert_eq!(db.packages[0].can_clusters.len(), 1);
    let cluster = &db.packages[0].can_clusters[0];
    assert_eq!(cluster.short_name, "CAN_Network");
    assert_eq!(cluster.baudrate, 500000);
    assert_eq!(cluster.can_fd_baudrate, Some(2000000));
}

#[test]
fn arxml_test_parse_compu_method_linear() {
    let arxml = r#"<?xml version="1.0" encoding="UTF-8"?>
<AUTOSAR xmlns="http://autosar.org/schema/r4.0">
  <AR-PACKAGES>
    <AR-PACKAGE>
      <SHORT-NAME>CompuMethods</SHORT-NAME>
      <ELEMENTS>
        <COMPU-METHOD>
          <SHORT-NAME>CM_EngineSpeed</SHORT-NAME>
          <CATEGORY>LINEAR</CATEGORY>
          <UNIT-REF>/Units/rpm</UNIT-REF>
          <COMPU-INTERNAL-TO-PHYS>
            <COMPU-SCALES>
              <COMPU-SCALE>
                <LOWER-LIMIT>0</LOWER-LIMIT>
                <UPPER-LIMIT>8000</UPPER-LIMIT>
                <COMPU-RATIONAL-COEFFS>
                  <COMPU-NUMERATOR>
                    <V>0</V>
                    <V>0.25</V>
                  </COMPU-NUMERATOR>
                  <COMPU-DENOMINATOR>
                    <V>1</V>
                  </COMPU-DENOMINATOR>
                </COMPU-RATIONAL-COEFFS>
              </COMPU-SCALE>
            </COMPU-SCALES>
          </COMPU-INTERNAL-TO-PHYS>
        </COMPU-METHOD>
      </ELEMENTS>
    </AR-PACKAGE>
  </AR-PACKAGES>
</AUTOSAR>
"#;
    let db = ArxmlParser::parse(arxml).unwrap();
    assert_eq!(db.packages[0].compu_methods.len(), 1);
    let method = &db.packages[0].compu_methods[0];
    assert_eq!(method.short_name, "CM_EngineSpeed");
    assert_eq!(method.category, CompuMethodCategory::Linear);
    assert_eq!(method.unit_ref, "/Units/rpm");
    assert_eq!(method.compu_scales.len(), 1);
    let scale = &method.compu_scales[0];
    assert_eq!(decimal(&scale.lower_limit), 0.0);
    assert_eq!(decimal(&scale.upper_limit), 8000.0);
    assert_eq!(scale.numerator.iter().map(|v| decimal(v)).collect::<Vec<f64>>(), vec![0.0, 0.25]);
    assert_eq!(scale.denominator.iter().map(|v| decimal(v)).collect::<Vec<f64>>(), vec![1.0]);
}

#[test]
fn test_parse_unit() {
    let arxml = r#"<?xml version="1.0" encoding="UTF-8"?>
<AUTOSAR xmlns="http://autosar.org/schema/r4.0">
  <AR-PACKAGES>
    <AR-PACKAGE>
      <SHORT-NAME>Units</SHORT-NAME>
      <ELEMENTS>
        <UNIT>
          <SHORT-NAME>rpm</SHORT-NAME>
          <DISPLAY-NAME>RPM</DISPLAY-NAME>
          <FACTOR-SI-TO-UNIT>60</FACTOR-SI-TO-UNIT>
        </UNIT>
      </ELEMENTS>
    </AR-PACKAGE>
  </AR-PACKAGES>
</AUTOSAR>
"#;
    let db = ArxmlParser::parse(arxml).unwrap();
    assert_eq!(db.packages[0].units.len(), 1);
    let unit = &db.packages[0].units[0];
    assert_eq!(unit.short_name, "rpm");
    assert_eq!(unit.display_name, "RPM");
    assert_eq!(decimal(&unit.factor_si_to_unit), 60.0);
}

#[test]
fn test_parse_sw_base_type() {
    let arxml = r#"<?xml version="1.0" encoding="UTF-8"?>
<AUTOSAR xmlns="http://autosar.org/schema/r4.0">
  <AR-PACKAGES>
    <AR-PACKAGE>
      <SHORT-NAME>BaseTypes</SHORT-NAME>
      <ELEMENTS>
        <SW-BASE-TYPE>
          <SHORT-NAME>uint16</SHORT-NAME>
          <BASE-TYPE-SIZE>16</BASE-TYPE-SIZE>
          <BASE-TYPE-ENCODING>UNSIGNED</BASE-TYPE-ENCODING>
          <NATIVE-DECLARATION>uint16_t</NATIVE-DECLARATION>
        </SW-BASE-TYPE>
      </ELEMENTS>
    </AR-PACKAGE>
  </AR-PACKAGES>
</AUTOSAR>
"#;
    let db = ArxmlParser::parse(arxml).unwrap();
    assert_eq!(db.packages[0].base_types.len(), 1);
    let bt = &db.packages[0].base_types[0];
    assert_eq!(bt.short_name, "uint16");
    assert_eq!(bt.base_type_size, 16);
    assert_eq!(bt.base_type_encoding, BaseTypeEncoding::Unsigned);
    assert_eq!(bt.native_declaration, "uint16_t");
}

#[test]
fn test_parse_ecu_instance() {
    let arxml = r#"<?xml version="1.0" encoding="UTF-8"?>
<AUTOSAR xmlns="http://autosar.org/schema/r4.0">
  <AR-PACKAGES>
    <AR-PACKAGE>
      <SHORT-NAME>ECUs</SHORT-NAME>
      <ELEMENTS>
        <ECU-INSTANCE>
          <SHORT-NAME>ECU_Engine</SHORT-NAME>
        </ECU-INSTANCE>
      </ELEMENTS>
    </AR-PACKAGE>
  </AR-PACKAGES>
</AUTOSAR>
"#;
    let db = ArxmlParser::parse(arxml).unwrap();
    assert_eq!(db.packages[0].ecu_instances.len(), 1);
    let ecu = &db.packages[0].ecu_instances[0];
    assert_eq!(ecu.short_name, "ECU_Engine");
}

#[test]
fn test_find_package_by_path() {
    let arxml = r#"<?xml version="1.0" encoding="UTF-8"?>
<AUTOSAR xmlns="http://autosar.org/schema/r4.0">
  <AR-PACKAGES>
    <AR-PACKAGE>
      <SHORT-NAME>Root</SHORT-NAME>
      <AR-PACKAGES>
        <AR-PACKAGE>
          <SHORT-NAME>Sub1</SHORT-NAME>
          <AR-PACKAGES>
            <AR-PACKAGE>
              <SHORT-NAME>Sub2</SHORT-NAME>
            </AR-PACKAGE>
          </AR-PACKAGES>
        </AR-PACKAGE>
      </AR-PACKAGES>
    </AR-PACKAGE>
  </AR-PACKAGES>
</AUTOSAR>
"#;
    let db = ArxmlParser::parse(arxml).unwrap();

    let pkg = db.find_package_by_path("/Root").unwrap();
    assert_eq!(pkg.short_name, "Root");

    let pkg = db.find_package_by_path("/Root/Sub1").unwrap();
    assert_eq!(pkg.short_name, "Sub1");

    let pkg = db.find_package_by_path("/Root/Sub1/Sub2").unwrap();
    assert_eq!(pkg.short_name, "Sub2");

    assert!(db.find_package_by_path("/NonExistent").is_none());
}

#[test]
fn test_all_signals() {
    let arxml = r#"<?xml version="1.0" encoding="UTF-8"?>
<AUTOSAR xmlns="http://autosar.org/schema/r4.0">
  <AR-PACKAGES>
    <AR-PACKAGE>
      <SHORT-NAME>Pkg1</SHORT-NAME>
      <ELEMENTS>
        <I-SIGNAL>
          <SHORT-NAME>Signal1</SHORT-NAME>
          <I-SIGNAL-LENGTH>8</I-SIGNAL-LENGTH>
        </I-SIGNAL>
      </ELEMENTS>
      <AR-PACKAGES>
        <AR-PACKAGE>
          <SHORT-NAME>SubPkg</SHORT-NAME>
          <ELEMENTS>
            <I-SIGNAL>
              <SHORT-NAME>Signal2</SHORT-NAME>
              <I-SIGNAL-LENGTH>16</I-SIGNAL-LENGTH>
            </I-SIGNAL>
          </ELEMENTS>
        </AR-PACKAGE>
      </AR-PACKAGES>
    </AR-PACKAGE>
  </AR-PACKAGES>
</AUTOSAR>
"#;
    let db = ArxmlParser::parse(arxml).unwrap();
    let signals = db.all_signals();
    assert_eq!(signals.len(), 2);
    assert_eq!(signals[0].short_name, "Signal1");
    assert_eq!(signals[1].short_name, "Signal2");
}

#[test]
fn test_compu_scale_linear() {
    let scale = CompuScale::linear("0.5", "10.0");
    assert_eq!(scale.numerator.iter().map(|v| decimal(v)).collect::<Vec<f64>>(), vec![10.0, 0.5]);
    assert_eq!(scale.denominator.iter().map(|v| decimal(v)).collect::<Vec<f64>>(), vec![1.0]);
}

#[test]
fn test_compu_scale_text_entry() {
    let scale = CompuScale::text_entry("1.0", "ON");
    assert_eq!(decimal(&scale.lower_limit), 1.0);
    assert_eq!(decimal(&scale.upper_limit), 1.0);
    assert_eq!(scale.vt, "ON");
}

#[test]
fn test_compu_method_constructors() {
    let identical = CompuMethod::identical("CM_Identical");
    assert_eq!(identical.short_name, "CM_Identical");
    assert_eq!(identical.category, CompuMethodCategory::Identical);

    let linear = CompuMethod::linear("CM_Linear", "2.0", "5.0");
    assert_eq!(linear.short_name, "CM_Linear");
    assert_eq!(linear.category, CompuMethodCategory::Linear);
    assert_eq!(linear.compu_scales.len(), 1);
}

#[test]
fn arxml_test_parse_with_comments() {
    let arxml = r#"<?xml version="1.0" encoding="UTF-8"?>
<!-- This is a comment -->
<AUTOSAR xmlns="http://autosar.org/schema/r4.0">
  <!-- Another comment -->
  <AR-PACKAGES>
    <AR-PACKAGE>
      <SHORT-NAME>TestPackage</SHORT-NAME>
    </AR-PACKAGE>
  </AR-PACKAGES>
</AUTOSAR>
"#;
    let db = ArxmlParser::parse(arxml).unwrap();
    assert_eq!(db.packages.len(), 1);
    assert_eq!(db.packages[0].short_name, "TestPackage");
}

#[test]
fn test_missing_autosar_element() {
    let arxml = r#"<?xml version="1.0" encoding="UTF-8"?>
<INVALID>
</INVALID>
"#;
    let result = ArxmlParser::parse(arxml);
    assert!(result.is_err());
    match result {
        Err(ArxmlParseError::MissingElement(elem)) => assert_eq!(elem, "AUTOSAR"),
        _ => panic!("Expected MissingElement error"),
    }
}

#[test]
fn parse_reads_schema_location_and_patch_version() {
    let arxml = "<AUTOSAR xmlns=\"http://autosar.org/schema/r4.2.2\" xsi:schemaLocation='loc.xsd'><AR-PACKAGES/></AUTOSAR>";
    let db = ArxmlParser::parse(arxml).unwrap();
    assert_eq!((db.version.major, db.version.minor, db.version.patch), (4, 2, 2));
    assert_eq!(db.schema_location, "loc.xsd");
    assert_eq!(db.packages.len(), 0);
}

#[test]
fn parse_skips_unknown_elements_and_empty_input_fails() {
    let arxml = "<AUTOSAR><ADMIN-DATA><X>1</X></ADMIN-DATA><AR-PACKAGES><AR-PACKAGE><SHORT-NAME>P</SHORT-NAME><DESC><L-2>t</L-2></DESC></AR-PACKAGE></AR-PACKAGES></AUTOSAR>";
    let db = ArxmlParser::parse(arxml).unwrap();
    assert_eq!(db.packages.len(), 1);
    assert_eq!(db.packages[0].short_name, "P");
    assert_eq!(db.version.major, 0);
    assert!(matches!(ArxmlParser::parse(""), Err(ArxmlParseError::MissingElement(_))));
}
