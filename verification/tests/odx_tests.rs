use busmaster::odx::{
    ComparamSpec, DiagLayerType, DiagService, Dtc, DtcSeverity, OdxParser, Param, ParamType, Request,
};

#[test]
fn test_diag_layer_type_from_str() {
    assert_eq!(DiagLayerType::parse("PROTOCOL"), Some(DiagLayerType::Protocol));
    assert_eq!(DiagLayerType::parse("ECU-VARIANT"), Some(DiagLayerType::EcuVariant));
    assert_eq!(DiagLayerType::parse("BASE-VARIANT"), Some(DiagLayerType::BaseVariant));
    assert_eq!(DiagLayerType::parse("FUNCTIONAL-GROUP"), Some(DiagLayerType::FunctionalGroup));
    assert_eq!(DiagLayerType::parse("unknown"), None);
}

#[test]
fn test_diag_service_new() {
    let service = DiagService::new("svc1", "ReadDID")
        .with_service_id(0x22);
    assert_eq!(service.id, "svc1");
    assert_eq!(service.short_name, "ReadDID");
    assert_eq!(service.service_id, Some(0x22));
}

#[test]
fn test_request_byte_length() {
    let mut request = Request::new("req1", "TestRequest");
    request.add_param(Param::coded_const("p1", "SID", 0x22, 0));
    request.add_param(Param::value("p2", "DID", 1, 2));
    assert_eq!(request.byte_length(), 3);
}

#[test]
fn test_param_coded_const() {
    let param = Param::coded_const("p1", "ServiceID", 0x22, 0);
    assert_eq!(param.param_type, ParamType::CodedConst);
    assert_eq!(param.coded_value, Some(0x22));
    assert_eq!(param.byte_position, Some(0));
}

#[test]
fn test_param_value() {
    let param = Param::value("p1", "Data", 1, 4);
    assert_eq!(param.param_type, ParamType::Value);
    assert_eq!(param.byte_position, Some(1));
    assert_eq!(param.byte_size, Some(4));
}

#[test]
fn test_dtc_new() {
    let dtc = Dtc::new("dtc1", "EngineOverheat", 0x010203)
        .with_display_code("P0123")
        .with_text("Engine temperature too high")
        .with_severity(DtcSeverity::CheckImmediately);

    assert_eq!(dtc.code, 0x010203);
    assert_eq!(dtc.display_code, Some("P0123".to_string()));
    assert_eq!(dtc.severity, DtcSeverity::CheckImmediately);
}

#[test]
fn test_dtc_as_obd_code() {
    // Test with display code set
    let dtc1 = Dtc::new("dtc1", "Test", 0).with_display_code("P0420");
    assert_eq!(dtc1.as_obd_code(), "P0420");

    // Test code conversion (powertrain)
    let dtc2 = Dtc::new("dtc2", "Test", 0x001234);
    let code = dtc2.as_obd_code();
    assert!(code.starts_with('P'));
}

#[test]
fn test_parse_number() {
    assert_eq!(OdxParser::parse_number("123"), Some(123));
    assert_eq!(OdxParser::parse_number("0x22"), Some(0x22));
    assert_eq!(OdxParser::parse_number("0X3F"), Some(0x3F));
    assert_eq!(OdxParser::parse_number("0b1010"), Some(10));
    assert_eq!(OdxParser::parse_number("  42  "), Some(42));
    assert_eq!(OdxParser::parse_number("invalid"), None);
}

#[test]
fn test_comparam_spec() {
    let spec = ComparamSpec {
        id: "cp1".to_string(),
        short_name: "ISO15765".to_string(),
        protocol_type: Some("ISO_15765_3".to_string()),
        ..Default::default()
    };
    assert_eq!(spec.short_name, "ISO15765");
}


use busmaster::odx::{ComparamClass, DataObjectProperty, DiagLayer, OdxDatabase};

#[test]
fn test_odx_database_new() {
    let db = OdxDatabase::new();
    assert!(db.short_name.is_empty());
    assert!(db.diag_layers.is_empty());
}

#[test]
fn test_diag_layer_new() {
    let layer = DiagLayer::new("layer1", "TestLayer", DiagLayerType::EcuVariant);
    assert_eq!(layer.id, "layer1");
    assert_eq!(layer.short_name, "TestLayer");
    assert_eq!(layer.layer_type, DiagLayerType::EcuVariant);
}

#[test]
fn test_parse_empty_odx() {
    let content = r#"<?xml version="1.0" encoding="UTF-8"?>
<ODX version="2.2.0">
</ODX>"#;

    let result = OdxParser::parse(content);
    assert!(result.is_ok());
}

#[test]
fn test_parse_simple_odx() {
    let content = r#"<?xml version="1.0" encoding="UTF-8"?>
<ODX version="2.2.0">
  <DIAG-LAYER-CONTAINER>
    <ECU-VARIANT ID="EV_Test">
      <SHORT-NAME>TestECU</SHORT-NAME>
      <LONG-NAME>Test ECU Variant</LONG-NAME>
      <DIAG-SERVICES>
        <DIAG-SERVICE ID="DS_ReadDID">
          <SHORT-NAME>ReadDataByIdentifier</SHORT-NAME>
          <SEMANTIC>READ</SEMANTIC>
        </DIAG-SERVICE>
      </DIAG-SERVICES>
    </ECU-VARIANT>
  </DIAG-LAYER-CONTAINER>
</ODX>"#;

    let result = OdxParser::parse(content);
    assert!(result.is_ok());

    let db = result.unwrap();
    assert_eq!(db.diag_layers.len(), 1);

    let layer = &db.diag_layers[0];
    assert_eq!(layer.short_name, "TestECU");
    assert_eq!(layer.layer_type, DiagLayerType::EcuVariant);
    assert_eq!(layer.services.len(), 1);

    let service = &layer.services[0];
    assert_eq!(service.short_name, "ReadDataByIdentifier");
    assert_eq!(service.semantic, Some("READ".to_string()));
}

#[test]
fn test_parse_odx_with_dtcs() {
    let content = r#"<?xml version="1.0" encoding="UTF-8"?>
<ODX version="2.2.0">
  <DIAG-LAYER-CONTAINER>
    <ECU-VARIANT ID="EV_Test">
      <SHORT-NAME>TestECU</SHORT-NAME>
      <DTCS>
        <DTC ID="DTC_P0100">
          <SHORT-NAME>MassAirFlowCircuit</SHORT-NAME>
          <TROUBLE-CODE>0x010000</TROUBLE-CODE>
          <DISPLAY-TROUBLE-CODE>P0100</DISPLAY-TROUBLE-CODE>
        </DTC>
        <DTC ID="DTC_P0101">
          <SHORT-NAME>MassAirFlowRange</SHORT-NAME>
          <TROUBLE-CODE>0x010100</TROUBLE-CODE>
          <DISPLAY-TROUBLE-CODE>P0101</DISPLAY-TROUBLE-CODE>
        </DTC>
      </DTCS>
    </ECU-VARIANT>
  </DIAG-LAYER-CONTAINER>
</ODX>"#;

    let result = OdxParser::parse(content);
    assert!(result.is_ok());

    let db = result.unwrap();
    assert_eq!(db.diag_layers.len(), 1);

    let layer = &db.diag_layers[0];
    assert_eq!(layer.dtcs.len(), 2);

    let dtc1 = &layer.dtcs[0];
    assert_eq!(dtc1.short_name, "MassAirFlowCircuit");
    assert_eq!(dtc1.display_code, Some("P0100".to_string()));
}

#[test]
fn test_parse_odx_with_request_response() {
    let content = r#"<?xml version="1.0" encoding="UTF-8"?>
<ODX version="2.2.0">
  <DIAG-LAYER-CONTAINER>
    <ECU-VARIANT ID="EV_Test">
      <SHORT-NAME>TestECU</SHORT-NAME>
      <DIAG-SERVICES>
        <DIAG-SERVICE ID="DS_ReadDID">
          <SHORT-NAME>ReadDID</SHORT-NAME>
          <REQUEST ID="RQ_ReadDID">
            <SHORT-NAME>ReadDID_Request</SHORT-NAME>
            <PARAM SEMANTIC="SERVICE-ID">
              <SHORT-NAME>SID</SHORT-NAME>
              <BYTE-POSITION>0</BYTE-POSITION>
              <CODED-VALUE>0x22</CODED-VALUE>
            </PARAM>
          </REQUEST>
          <POS-RESPONSE ID="PR_ReadDID">
            <SHORT-NAME>ReadDID_Response</SHORT-NAME>
            <PARAM SEMANTIC="SERVICE-ID">
              <SHORT-NAME>SID</SHORT-NAME>
              <BYTE-POSITION>0</BYTE-POSITION>
              <CODED-VALUE>0x62</CODED-VALUE>
            </PARAM>
          </POS-RESPONSE>
        </DIAG-SERVICE>
      </DIAG-SERVICES>
    </ECU-VARIANT>
  </DIAG-LAYER-CONTAINER>
</ODX>"#;

    let result = OdxParser::parse(content);
    assert!(result.is_ok());

    let db = result.unwrap();
    let service = &db.diag_layers[0].services[0];

    assert!(service.request.is_some());
    let request = service.request.as_ref().unwrap();
    assert_eq!(request.short_name, "ReadDID_Request");
    assert_eq!(request.params.len(), 1);
    assert_eq!(request.params[0].coded_value, Some(0x22));

    assert!(service.positive_response.is_some());
    let response = service.positive_response.as_ref().unwrap();
    assert_eq!(response.short_name, "ReadDID_Response");
}

#[test]
fn test_database_find_service() {
    let mut db = OdxDatabase::new();
    let mut layer = DiagLayer::new("l1", "Layer1", DiagLayerType::EcuVariant);
    layer.add_service(DiagService::new("s1", "ReadDID"));
    layer.add_service(DiagService::new("s2", "WriteDID"));
    db.diag_layers.push(layer);

    assert!(db.find_service("ReadDID").is_some());
    assert!(db.find_service("WriteDID").is_some());
    assert!(db.find_service("Unknown").is_none());
}

#[test]
fn test_database_find_dtc() {
    let mut db = OdxDatabase::new();
    let mut layer = DiagLayer::new("l1", "Layer1", DiagLayerType::EcuVariant);
    layer.add_dtc(Dtc::new("d1", "DTC1", 0x010203));
    layer.add_dtc(Dtc::new("d2", "DTC2", 0x040506));
    db.diag_layers.push(layer);

    assert!(db.find_dtc(0x010203).is_some());
    assert!(db.find_dtc(0x040506).is_some());
    assert!(db.find_dtc(0x999999).is_none());
}

#[test]
fn test_database_all_services() {
    let mut db = OdxDatabase::new();

    let mut layer1 = DiagLayer::new("l1", "Layer1", DiagLayerType::EcuVariant);
    layer1.add_service(DiagService::new("s1", "Service1"));
    layer1.add_service(DiagService::new("s2", "Service2"));

    let mut layer2 = DiagLayer::new("l2", "Layer2", DiagLayerType::BaseVariant);
    layer2.add_service(DiagService::new("s3", "Service3"));

    db.diag_layers.push(layer1);
    db.diag_layers.push(layer2);

    let all_services = db.all_services();
    assert_eq!(all_services.len(), 3);
}

#[test]
fn test_data_object_property() {
    let dop = DataObjectProperty::new("dop1", "EngineSpeed");
    assert_eq!(dop.id, "dop1");
    assert_eq!(dop.short_name, "EngineSpeed");
}

#[test]
fn obd_code_is_five_characters() {
    assert_eq!(Dtc::new("d", "x", 0x010000).as_obd_code(), "P0100");
    assert_eq!(Dtc::new("d", "x", 0x001234).as_obd_code(), "P0012");
    assert_eq!(Dtc::new("d", "x", 0x4A2300).as_obd_code(), "C0A23");
    assert_eq!(Dtc::new("d", "x", 0xC12300).as_obd_code(), "U0123");
}

#[test]
fn odx_catalog_comparams_and_vehicle_info() {
    let content = r#"<CATALOG><SHORT-NAME>Cat</SHORT-NAME><DIAG-LAYER ID="L1"><SHORT-NAME>Layer</SHORT-NAME></ECU-VARIANT></CATALOG>"#;
    let db = OdxParser::parse(content).unwrap();
    assert_eq!(db.short_name, "Cat");
    assert_eq!(db.diag_layers.len(), 1);
    assert_eq!(db.diag_layers[0].id, "L1");
    assert_eq!(db.diag_layers[0].short_name, "Layer");

    let content = r#"<ODX><COMPARAM-SPEC ID="CS"><SHORT-NAME>ISO</SHORT-NAME><COMPARAMS><COMPARAM ID="C1" PARAM-CLASS="init"><SHORT-NAME>P2</SHORT-NAME></COMPARAM></COMPARAMS></COMPARAM-SPEC><VEHICLE-INFO><SHORT-NAME>Car</SHORT-NAME><LOGICAL-LINKS><LOGICAL-LINK><SHORT-NAME>LL</SHORT-NAME></LOGICAL-LINK></LOGICAL-LINKS></VEHICLE-INFO></ODX>"#;
    let db = OdxParser::parse(content).unwrap();
    assert_eq!(db.comparam_specs.len(), 1);
    assert_eq!(db.comparam_specs[0].comparams.len(), 1);
    assert_eq!(db.comparam_specs[0].comparams[0].param_class, ComparamClass::Init);
    let vi = db.vehicle_info.as_ref().unwrap();
    assert_eq!(vi.short_name, "Car");
    assert_eq!(vi.logical_links.len(), 1);
    assert!(matches!(OdxParser::parse("<OTHER/>"), Ok(_)));
}
