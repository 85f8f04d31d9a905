use busmaster::ecu_database::{
    A2lAssociationManager, DetectionMethod, EcuDatabase, EcuDetectionResult, EcuFamily, EcuIdentifier, EcuInstance,
    EcuManufacturer, EcuScanConfig, EcuType, UdsDid, VinDecoder,
};

#[test]
fn test_ecu_manufacturer_name() {
    assert_eq!(EcuManufacturer::Bosch.name(), "Bosch");
    assert_eq!(EcuManufacturer::Continental.name(), "Continental/Siemens");
    assert_eq!(EcuManufacturer::Denso.name(), "Denso");
}

#[test]
fn test_ecu_type_name() {
    assert_eq!(EcuType::Engine.name(), "Engine Control Module");
    assert_eq!(EcuType::Transmission.name(), "Transmission Control Module");
    assert_eq!(EcuType::Abs.name(), "ABS Control Module");
}

#[test]
fn test_ecu_family_creation() {
    let family = EcuFamily::new("EDC17", EcuManufacturer::Bosch, EcuType::Engine)
        .with_description("Electronic Diesel Control 17")
        .with_processor("TC1796")
        .with_protocol("UDS")
        .with_years(2008, 2026)
        .with_diag_ids(0x7E0, 0x7E8);

    assert_eq!(family.name, "EDC17");
    assert_eq!(family.manufacturer, EcuManufacturer::Bosch);
    assert_eq!(family.processor, Some("TC1796".to_string()));
    assert_eq!(family.year_range, Some((2008, 2026)));
    assert_eq!(family.diag_can_id_request, Some(0x7E0));
}

#[test]
fn test_uds_did_constants() {
    assert_eq!(UdsDid::VIN, 0xF190);
    assert_eq!(UdsDid::SW_VERSION, 0xF189);
    assert_eq!(UdsDid::HW_VERSION, 0xF193);

    let dids = UdsDid::identification_dids();
    assert!(dids.contains(&UdsDid::VIN));
    assert!(dids.contains(&UdsDid::SW_VERSION));
}

#[test]
fn test_scan_config_default() {
    let config = EcuScanConfig::default();
    assert_eq!(config.start_id, 0x7E0);
    assert_eq!(config.end_id, 0x7E7);
    assert!(config.use_functional_addressing);
    assert_eq!(config.timeout_ms, 1000);
}

#[test]
fn test_scan_config_builder() {
    let config = EcuScanConfig::new()
        .with_id_range(0x700, 0x7FF)
        .with_timeout(2000)
        .with_extended_range(0x600, 0x6FF);

    assert_eq!(config.start_id, 0x700);
    assert_eq!(config.end_id, 0x7FF);
    assert_eq!(config.timeout_ms, 2000);
    assert!(config.scan_extended_range);
}

#[test]
fn test_vin_decoder() {
    // Test VIN: WVWZZZ3CZWE123456
    // Position 10 (index 9) is 'W' = 2028
    let vin_info = VinDecoder::decode("WVWZZZ3CZWE123456");
    assert!(vin_info.is_some());

    let info = vin_info.unwrap();
    assert_eq!(info.wmi, "WVW");
    assert_eq!(info.model_year, Some(2028)); // 'W' = 2028
    assert!(info.manufacturer.is_some());
}

#[test]
fn test_vin_decoder_invalid() {
    // Too short
    assert!(VinDecoder::decode("ABC123").is_none());
    // Too long
    assert!(VinDecoder::decode("WVWZZZ3CZWE1234567890").is_none());
}


#[test]
fn test_ecu_instance_creation() {
    let ecu = EcuInstance::new("ECU_001", 0x7E0, 0x7E8)
        .with_manufacturer(EcuManufacturer::Bosch)
        .with_type(EcuType::Engine)
        .with_part_number("0281012345")
        .with_a2l("ecu.a2l");

    assert_eq!(ecu.id, "ECU_001");
    assert_eq!(ecu.manufacturer, EcuManufacturer::Bosch);
    assert_eq!(ecu.part_number, Some("0281012345".to_string()));
    assert_eq!(ecu.a2l_file, Some("ecu.a2l".to_string()));
}

#[test]
fn test_load_builtin_database() {
    let db = EcuDatabase::load_builtin();

    // Check Bosch families loaded
    assert!(db.find_family("EDC17").is_some());
    assert!(db.find_family("MED17").is_some());
    assert!(db.find_family("ME7").is_some());

    // Check Continental families loaded
    assert!(db.find_family("SIMOS").is_some());
    assert!(db.find_family("SID").is_some());

    // Check Denso families loaded
    assert!(db.find_family("DENSO_TOYOTA").is_some());

    // Check Delphi families loaded
    assert!(db.find_family("DCM").is_some());

    // Check Magneti Marelli families loaded
    assert!(db.find_family("IAW").is_some());
    assert!(db.find_family("MJD").is_some());
}

#[test]
fn test_families_by_manufacturer() {
    let db = EcuDatabase::load_builtin();

    let bosch_families = db.families_by_manufacturer(EcuManufacturer::Bosch);
    assert!(!bosch_families.is_empty());
    assert!(bosch_families.iter().any(|f| f.name == "EDC17"));

    let continental_families = db.families_by_manufacturer(EcuManufacturer::Continental);
    assert!(!continental_families.is_empty());
    assert!(continental_families.iter().any(|f| f.name == "SIMOS"));
}

#[test]
fn test_families_by_type() {
    let db = EcuDatabase::load_builtin();

    let engine_families = db.families_by_type(EcuType::Engine);
    assert!(!engine_families.is_empty());

    let trans_families = db.families_by_type(EcuType::Transmission);
    assert!(!trans_families.is_empty());
}

#[test]
fn test_ecu_identifier() {
    let identifier = EcuIdentifier::new();

    // Create a detection result with Bosch part number
    let mut ecu = EcuInstance::new("test", 0x7E0, 0x7E8);
    ecu.part_number = Some("0281012345".to_string());
    ecu.sw_version = Some("EDC17C46".to_string());

    let result = EcuDetectionResult::new(ecu, DetectionMethod::UdsReadDid);

    let identification = identifier.identify(&result);
    assert!(identification.is_some());

    let id = identification.unwrap();
    assert_eq!(id.manufacturer, Some(EcuManufacturer::Bosch));
    assert_eq!(id.family, Some("EDC17".to_string()));
}

#[test]
fn test_a2l_association_manager() {
    let mut manager = A2lAssociationManager::new();

    manager.associate_ecu("ECU_001", "/path/to/ecu1.a2l");
    manager.associate_family("EDC17", "/path/to/edc17.a2l");
    manager.associate_part_number("0281", "/path/to/bosch.a2l");

    // Test direct ECU association
    let ecu1 = EcuInstance::new("ECU_001", 0x7E0, 0x7E8);
    assert_eq!(manager.find_a2l(&ecu1), Some(&"/path/to/ecu1.a2l".to_string()));

    // Test family association
    let mut ecu2 = EcuInstance::new("ECU_002", 0x7E0, 0x7E8);
    ecu2.family = Some("EDC17".to_string());
    assert_eq!(manager.find_a2l(&ecu2), Some(&"/path/to/edc17.a2l".to_string()));

    // Test part number association
    let mut ecu3 = EcuInstance::new("ECU_003", 0x7E0, 0x7E8);
    ecu3.part_number = Some("0281012345".to_string());
    assert_eq!(manager.find_a2l(&ecu3), Some(&"/path/to/bosch.a2l".to_string()));
}

#[test]
fn test_detection_result() {
    let ecu = EcuInstance::new("test", 0x7E0, 0x7E8);
    let mut result = EcuDetectionResult::new(ecu, DetectionMethod::UdsReadDid);

    // Add VIN data (first byte is length in UDS response)
    let vin_data = b"\x11WVWZZZ3CZWE123456".to_vec();
    result.add_raw_data(UdsDid::VIN, vin_data);

    let vin = result.get_vin();
    assert!(vin.is_some());
    assert_eq!(vin.unwrap(), "WVWZZZ3CZWE123456");
}

#[test]
fn ecu_identify_full_confidence() {
    let mut db = EcuDatabase::load_builtin();
    db.associate_a2l("EDC17", "edc17.a2l");
    let identifier = EcuIdentifier::with_database(db);
    let mut ecu = EcuInstance::new("x", 0x7E0, 0x7E8);
    ecu.part_number = Some("0281012345".to_string());
    ecu.sw_version = Some("edc17c46".to_string());
    let id = identifier.identify(&EcuDetectionResult::new(ecu, DetectionMethod::Manual)).unwrap();
    assert_eq!(id.confidence, 9);
    assert_eq!(id.family_info.unwrap().name, "EDC17");
    assert_eq!(id.suggested_a2l, Some("edc17.a2l".to_string()));
}

#[test]
fn ecu_identify_nothing_found() {
    let identifier = EcuIdentifier::new();
    let mut ecu = EcuInstance::new("x", 0x7E0, 0x7E8);
    ecu.part_number = Some("XYZ".to_string());
    assert!(identifier.identify(&EcuDetectionResult::new(ecu, DetectionMethod::Manual)).is_none());
}

#[test]
fn ecu_suggestions_from_raw_data() {
    let identifier = EcuIdentifier::new();
    let mut result = EcuDetectionResult::new(EcuInstance::new("x", 0x7E0, 0x7E8), DetectionMethod::UdsReadDid);
    result.add_raw_data(0xF18A, b"ROBERT BOSCH GMBH".to_vec());
    result.add_raw_data(0xF197, b"nothing here".to_vec());
    result.add_raw_data(0x0123, b"DENSO CORP".to_vec());
    let s = identifier.generate_suggestions(&result);
    assert_eq!(s.len(), 2);
    assert_eq!(s[0].manufacturer, EcuManufacturer::Bosch);
    assert_eq!(s[0].reasoning, "DID 0xF18A contains 'BOSCH' identifier");
    assert_eq!(s[1].manufacturer, EcuManufacturer::Denso);
    assert_eq!(s[1].reasoning, "DID 0x0123 contains 'DENSO' identifier");
    assert_eq!(s[1].confidence, "0.8");
}

#[test]
fn ecu_raw_data_replaced() {
    let mut result = EcuDetectionResult::new(EcuInstance::new("x", 1, 2), DetectionMethod::Manual);
    result.add_raw_data(UdsDid::SW_VERSION, b"1.0".to_vec());
    result.add_raw_data(UdsDid::SW_VERSION, b"2.0".to_vec());
    assert_eq!(result.raw_data.len(), 1);
    assert_eq!(result.get_sw_version(), Some("2.0".to_string()));
    assert_eq!(result.get_hw_version(), None);
}

#[test]
fn ecu_database_part_number_and_a2l() {
    let mut db = EcuDatabase::new();
    db.add_family(EcuFamily::new("EDC17", EcuManufacturer::Bosch, EcuType::Engine));
    db.add_family(EcuFamily::new("EDC17", EcuManufacturer::Bosch, EcuType::Engine).with_description("second"));
    assert_eq!(db.families.len(), 1);
    assert_eq!(db.find_family("EDC17").unwrap().description, "second");
    db.part_number_map.push(("0281".to_string(), "EDC17".to_string()));
    assert_eq!(db.find_family_by_part_number("0281012345").unwrap().name, "EDC17");
    assert!(db.find_family_by_part_number("9999").is_none());
    db.associate_a2l("EDC17", "a.a2l");
    db.associate_a2l("EDC17", "b.a2l");
    assert_eq!(db.get_a2l_for_family("EDC17"), Some(&"b.a2l".to_string()));
    assert_eq!(db.a2l_associations.len(), 1);
}

#[test]
fn ecu_instance_properties() {
    let mut e = EcuInstance::new("x", 1, 2);
    e.set_property("k", "v1");
    e.set_property("j", "w");
    e.set_property("k", "v2");
    assert_eq!(e.properties, vec![("k".to_string(), "v2".to_string()), ("j".to_string(), "w".to_string())]);
    assert_eq!(e.confidence, "0.0");
}

#[test]
fn manufacturer_names_differ_and_associations_replace() {
    let all = [
        EcuManufacturer::Bosch, EcuManufacturer::Continental, EcuManufacturer::Denso, EcuManufacturer::Delphi,
        EcuManufacturer::MagnetiMarelli, EcuManufacturer::Hitachi, EcuManufacturer::MitsubishiElectric,
        EcuManufacturer::Zf, EcuManufacturer::Valeo, EcuManufacturer::Visteon, EcuManufacturer::HyundaiKefico,
        EcuManufacturer::Keihin, EcuManufacturer::Marelli, EcuManufacturer::Aptiv, EcuManufacturer::Unknown,
    ];
    for (i, a) in all.iter().enumerate() {
        for b in all.iter().skip(i + 1) {
            assert_ne!(a.name(), b.name());
        }
    }
    let mut m = A2lAssociationManager::new();
    m.associate_ecu("ECU_001", "old.a2l");
    m.associate_ecu("ECU_001", "new.a2l");
    let ecu = EcuInstance::new("ECU_001", 0x7E0, 0x7E8);
    assert_eq!(m.find_a2l(&ecu).map(|s| s.as_str()), Some("new.a2l"));
    assert_eq!(m.all_associations().len(), 1);
}
