use busmaster::dbf::{
    DbfByteOrder, DbfDatabase, DbfFrameFormat, DbfGenerator, DbfMessage, DbfParser, DbfProtocol,
    DbfSignal, DbfSignalType, DbfValueDescriptor, DbfValueTable,
};


#[test]
fn test_dbf_protocol_parse_from() {
    assert_eq!(DbfProtocol::parse_from("CAN"), DbfProtocol::Can);
    assert_eq!(DbfProtocol::parse_from("J1939"), DbfProtocol::J1939);
    assert_eq!(DbfProtocol::parse_from("LIN"), DbfProtocol::Lin);
    assert_eq!(DbfProtocol::parse_from("can"), DbfProtocol::Can);
    assert_eq!(DbfProtocol::parse_from("unknown"), DbfProtocol::Can);
}

#[test]
fn test_dbf_frame_format() {
    assert_eq!(DbfFrameFormat::from_char('S'), DbfFrameFormat::Standard);
    assert_eq!(DbfFrameFormat::from_char('X'), DbfFrameFormat::Extended);
    assert_eq!(DbfFrameFormat::from_char('x'), DbfFrameFormat::Extended);
    assert_eq!(DbfFrameFormat::Standard.to_char(), 'S');
    assert_eq!(DbfFrameFormat::Extended.to_char(), 'X');
}

#[test]
fn test_dbf_signal_type() {
    assert_eq!(DbfSignalType::from_char('B'), DbfSignalType::Bool);
    assert_eq!(DbfSignalType::from_char('U'), DbfSignalType::Unsigned);
    assert_eq!(DbfSignalType::from_char('I'), DbfSignalType::Signed);
    assert_eq!(DbfSignalType::from_char('F'), DbfSignalType::Float);
    assert_eq!(DbfSignalType::from_char('D'), DbfSignalType::Double);
    assert_eq!(DbfSignalType::Unsigned.to_char(), 'U');
}

#[test]
fn test_dbf_byte_order() {
    assert_eq!(DbfByteOrder::from_char('0'), DbfByteOrder::Motorola);
    assert_eq!(DbfByteOrder::from_char('1'), DbfByteOrder::Intel);
    assert_eq!(DbfByteOrder::Intel.to_char(), '1');
    assert_eq!(DbfByteOrder::Motorola.to_char(), '0');
}

#[test]
fn test_dbf_signal_absolute_start_bit() {
    let mut sig = DbfSignal::new("TestSignal");
    sig.which_byte = 2;
    sig.start_bit = 3;
    assert_eq!(sig.absolute_start_bit(), 11);
}

#[test]
fn test_parse_simple_dbf() {
    let dbf_content = r#"
//******************************BUSMASTER Messages and signals Database ******************************//

[DATABASE_VERSION] 1.3

[PROTOCOL] CAN

[BUSMASTER_VERSION] [2.3.0]

[NUMBER_OF_MESSAGES] 1

[START_MSG] msg123,123,8,2,1,S
[START_SIGNALS] Voltage,8,1,0,U,50,0,1,0.000000,0.250000,V,
[START_SIGNALS] RPM,16,2,0,U,10000,0,1,0.000000,0.500000,1/s,
[END_MSG]
"#;
    
    let db = DbfParser::parse(dbf_content).unwrap();
    
    assert_eq!(db.version, "1.3");
    assert_eq!(db.protocol, DbfProtocol::Can);
    assert_eq!(db.busmaster_version, "2.3.0");
    assert_eq!(db.messages.len(), 1);
    
    let msg = &db.messages[0];
    assert_eq!(msg.name, "msg123");
    assert_eq!(msg.id, 123);
    assert_eq!(msg.length, 8);
    assert_eq!(msg.frame_format, DbfFrameFormat::Standard);
    assert_eq!(msg.signals.len(), 2);
    
    let sig1 = &msg.signals[0];
    assert_eq!(sig1.name, "Voltage");
    assert_eq!(sig1.length, 8);
    assert_eq!(sig1.which_byte, 1);
    assert_eq!(sig1.start_bit, 0);
    assert_eq!(sig1.signal_type, DbfSignalType::Unsigned);
    assert_eq!(sig1.max_value.parse::<f64>().unwrap(), 50.0);
    assert_eq!(sig1.min_value.parse::<f64>().unwrap(), 0.0);
    assert_eq!(sig1.scale_factor.parse::<f64>().unwrap(), 0.25);
    assert_eq!(sig1.unit, "V");
    
    let sig2 = &msg.signals[1];
    assert_eq!(sig2.name, "RPM");
    assert_eq!(sig2.length, 16);
}

#[test]
fn test_parse_extended_frame() {
    let dbf_content = r#"
[DATABASE_VERSION] 1.3
[PROTOCOL] CAN
[BUSMASTER_VERSION] [3.0.0]
[NUMBER_OF_MESSAGES] 1

[START_MSG] ExtMsg,2147483748,8,1,1,X
[START_SIGNALS] TestSig,8,1,0,U,255,0,1,0,1,unit,
[END_MSG]
"#;
    
    let db = DbfParser::parse(dbf_content).unwrap();
    assert_eq!(db.messages.len(), 1);
    
    let msg = &db.messages[0];
    assert_eq!(msg.name, "ExtMsg");
    assert_eq!(msg.id, 100);
    assert_eq!(msg.frame_format, DbfFrameFormat::Extended);
}

#[test]
fn test_parse_with_nodes() {
    let dbf_content = r#"
[DATABASE_VERSION] 1.3
[PROTOCOL] CAN
[BUSMASTER_VERSION] [3.0.0]
[NUMBER_OF_MESSAGES] 0
[NODE] ECU1,ECU2,Gateway
"#;
    
    let db = DbfParser::parse(dbf_content).unwrap();
    assert_eq!(db.nodes.len(), 3);
    assert_eq!(db.nodes[0], "ECU1");
    assert_eq!(db.nodes[1], "ECU2");
    assert_eq!(db.nodes[2], "Gateway");
}

#[test]
fn test_parse_j1939_protocol() {
    let dbf_content = r#"
[DATABASE_VERSION] 1.3
[PROTOCOL] J1939
[BUSMASTER_VERSION] [3.0.0]
[NUMBER_OF_MESSAGES] 0
"#;
    
    let db = DbfParser::parse(dbf_content).unwrap();
    assert_eq!(db.protocol, DbfProtocol::J1939);
}

#[test]
fn dbf_test_parse_multiple_messages() {
    let dbf_content = r#"
[DATABASE_VERSION] 1.3
[PROTOCOL] CAN
[BUSMASTER_VERSION] [3.0.0]
[NUMBER_OF_MESSAGES] 3

[START_MSG] Msg1,100,8,1,1,S
[START_SIGNALS] Sig1,8,1,0,U,255,0,1,0,1,unit,
[END_MSG]

[START_MSG] Msg2,200,8,1,1,S
[START_SIGNALS] Sig2,16,1,0,I,32767,-32768,1,0,1,unit,
[END_MSG]

[START_MSG] Msg3,300,4,1,1,S
[START_SIGNALS] Sig3,32,1,0,F,0,0,1,0,1,unit,
[END_MSG]
"#;
    
    let db = DbfParser::parse(dbf_content).unwrap();
    assert_eq!(db.messages.len(), 3);
    assert_eq!(db.messages[0].id, 100);
    assert_eq!(db.messages[1].id, 200);
    assert_eq!(db.messages[2].id, 300);
    assert_eq!(db.messages[1].signals[0].signal_type, DbfSignalType::Signed);
    assert_eq!(db.messages[2].signals[0].signal_type, DbfSignalType::Float);
}

#[test]
fn test_dbf_message_operations() {
    let mut msg = DbfMessage::new("TestMsg", 100);
    msg.length = 8;
    
    let sig1 = DbfSignal::new("Sig1");
    let sig2 = DbfSignal::new("Sig2");
    
    msg.add_signal(sig1);
    msg.add_signal(sig2);
    
    assert_eq!(msg.signals.len(), 2);
    assert_eq!(msg.signal_count, 2);
    
    assert!(msg.find_signal("Sig1").is_some());
    assert!(msg.find_signal("Sig3").is_none());
}

#[test]
fn test_dbf_database_operations() {
    let mut db = DbfDatabase::new();
    db.add_node("ECU1");
    db.add_node("ECU2");
    
    let mut msg1 = DbfMessage::new("Msg1", 100);
    let sig1 = DbfSignal::new("Sig1");
    msg1.add_signal(sig1);
    db.add_message(msg1);
    
    let mut msg2 = DbfMessage::new("Msg2", 200);
    let sig2 = DbfSignal::new("Sig2");
    msg2.add_signal(sig2);
    db.add_message(msg2);
    
    assert_eq!(db.nodes.len(), 2);
    assert_eq!(db.messages.len(), 2);
    assert_eq!(db.total_signal_count(), 2);
    
    assert!(db.find_message_by_id(100).is_some());
    assert!(db.find_message_by_name("Msg2").is_some());
    assert!(db.find_signal(100, "Sig1").is_some());
    assert!(db.find_signal(100, "Sig2").is_none());
}

#[test]
fn test_dbf_generator() {
    let mut db = DbfDatabase::new();
    db.version = "1.3".to_string();
    db.protocol = DbfProtocol::Can;
    db.busmaster_version = "3.0.0".to_string();
    db.add_node("ECU1");
    
    let mut msg = DbfMessage::new("TestMsg", 100);
    msg.length = 8;
    msg.frame_format = DbfFrameFormat::Standard;
    
    let mut sig = DbfSignal::new("TestSig");
    sig.length = 8;
    sig.which_byte = 1;
    sig.start_bit = 0;
    sig.signal_type = DbfSignalType::Unsigned;
    sig.max_value = "255".to_string();
    sig.min_value = "0".to_string();
    sig.scale_factor = "1".to_string();
    sig.offset = "0".to_string();
    sig.unit = "unit".to_string();
    
    msg.add_signal(sig);
    db.add_message(msg);
    
    let output = DbfGenerator::generate(&db);
    
    assert!(output.contains("[DATABASE_VERSION] 1.3"));
    assert!(output.contains("[PROTOCOL] CAN"));
    assert!(output.contains("[BUSMASTER_VERSION] [3.0.0]"));
    assert!(output.contains("[NODE] ECU1"));
    assert!(output.contains("[START_MSG] TestMsg,100,8,1,1,S"));
    assert!(output.contains("[START_SIGNALS] TestSig,8,1,0,U,255,0,1,0,1,unit,"));
    assert!(output.contains("[END_MSG]"));
}

#[test]
fn test_rot13_decryption() {
    assert_eq!(DbfParser::decrypt_rot13("Uryyb"), "Hello");
    assert_eq!(DbfParser::decrypt_rot13("Hello"), "Uryyb");
    assert_eq!(DbfParser::decrypt_rot13("123"), "123");
    assert_eq!(DbfParser::decrypt_rot13("Test123"), "Grfg123");
}

#[test]
fn test_value_descriptor() {
    let vd = DbfValueDescriptor::new(1, "On");
    assert_eq!(vd.value, 1);
    assert_eq!(vd.description, "On");
}

#[test]
fn test_value_table() {
    let mut table = DbfValueTable::new("GearStates");
    table.add_value(0, "Park");
    table.add_value(1, "Reverse");
    table.add_value(2, "Neutral");
    table.add_value(3, "Drive");
    
    assert_eq!(table.name, "GearStates");
    assert_eq!(table.values.len(), 4);
    assert_eq!(table.values[0].description, "Park");
}

#[test]
fn test_parse_empty_dbf() {
    let dbf_content = r#"
[DATABASE_VERSION] 1.3
[PROTOCOL] CAN
[BUSMASTER_VERSION] [3.0.0]
[NUMBER_OF_MESSAGES] 0
"#;
    
    let db = DbfParser::parse(dbf_content).unwrap();
    assert_eq!(db.messages.len(), 0);
    assert_eq!(db.version, "1.3");
}


#[test]
fn dbf_find_mut_changes_only_the_found_item() {
    let mut msg = DbfMessage::new("M", 7);
    msg.add_signal(DbfSignal::new("A"));
    msg.add_signal(DbfSignal::new("B"));
    msg.find_signal_mut("B").unwrap().start_bit = 12;
    assert_eq!(msg.find_signal("B").unwrap().start_bit, 12);
    assert_eq!(msg.find_signal("A").unwrap().start_bit, 0);
    assert!(msg.find_signal_mut("C").is_none());

    let mut db = DbfDatabase::new();
    db.add_message(msg);
    db.find_message_by_id_mut(7).unwrap().length = 4;
    assert_eq!(db.find_message_by_id(7).unwrap().length, 4);
    assert!(db.find_message_by_id_mut(8).is_none());
}

#[test]
fn dbf_written_database_reads_back_the_same() {
    let mut db = DbfDatabase::new();
    db.version = "2.1".to_string();
    db.protocol = DbfProtocol::J1939;
    db.busmaster_version = "3.2.2".to_string();
    db.add_node("Engine");
    db.add_node("Brake");

    let mut msg = DbfMessage::new("EngineData", 0x18FF_0001);
    msg.length = 8;
    msg.frame_format = DbfFrameFormat::Extended;
    msg.transmitter = "Engine".to_string();
    let mut sig = DbfSignal::new("Speed");
    sig.length = 16;
    sig.which_byte = 1;
    sig.start_bit = 0;
    sig.signal_type = DbfSignalType::Unsigned;
    sig.max_value = "65535".to_string();
    sig.min_value = "0".to_string();
    sig.byte_order = DbfByteOrder::Intel;
    sig.offset = "0".to_string();
    sig.scale_factor = "0.125".to_string();
    sig.unit = "rpm".to_string();
    sig.receivers.push("Brake".to_string());
    sig.value_descriptors.push(DbfValueDescriptor::new(0, "Stopped"));
    sig.value_descriptors.push(DbfValueDescriptor::new(-1, "Invalid value"));
    msg.add_signal(sig);
    db.add_message(msg);

    let mut table = DbfValueTable::new("Gear");
    table.add_value(0, "Park");
    table.add_value(1, "Drive");
    db.value_tables.push(table);

    let text = DbfGenerator::generate(&db);
    let back = DbfParser::parse(&text).unwrap();

    assert_eq!(back.version, "2.1");
    assert_eq!(back.protocol, DbfProtocol::J1939);
    assert_eq!(back.busmaster_version, "3.2.2");
    assert_eq!(back.nodes, vec!["Engine".to_string(), "Brake".to_string()]);
    assert_eq!(back.messages.len(), 1);
    let m = &back.messages[0];
    assert_eq!(m.name, "EngineData");
    assert_eq!(m.id, 0x18FF_0001);
    assert_eq!(m.length, 8);
    assert_eq!(m.frame_format, DbfFrameFormat::Extended);
    assert_eq!(m.transmitter, "Engine");
    assert_eq!(m.signal_count, 1);
    assert_eq!(m.signals.len(), 1);
    let g = &m.signals[0];
    assert_eq!(g.name, "Speed");
    assert_eq!(g.length, 16);
    assert_eq!(g.which_byte, 1);
    assert_eq!(g.start_bit, 0);
    assert_eq!(g.signal_type, DbfSignalType::Unsigned);
    assert_eq!(g.max_value, "65535");
    assert_eq!(g.min_value, "0");
    assert_eq!(g.byte_order, DbfByteOrder::Intel);
    assert_eq!(g.offset, "0");
    assert_eq!(g.scale_factor, "0.125");
    assert_eq!(g.unit, "rpm");
    assert_eq!(g.receivers, vec!["Brake".to_string()]);
    assert_eq!(g.value_descriptors.len(), 2);
    assert_eq!(g.value_descriptors[1].value, -1);
    assert_eq!(g.value_descriptors[1].description, "Invalid value");
    assert_eq!(back.value_tables.len(), 1);
    assert_eq!(back.value_tables[0].name, "Gear");
    assert_eq!(back.value_tables[0].values.len(), 2);
    assert_eq!(back.value_tables[0].values[1].description, "Drive");
}
