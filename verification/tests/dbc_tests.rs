use busmaster::dbc::{DbcMessage, DbcParser};
use busmaster::signal::{ByteOrder, ValueType};


#[test]
fn test_parse_minimal_dbc() {
    let dbc = r#"VERSION ""

NS_ :

BS_:

BU_:

"#;
    let db = DbcParser::parse(dbc).unwrap();
    assert_eq!(db.version, "");
    assert_eq!(db.nodes.len(), 0);
    assert_eq!(db.messages.len(), 0);
}

#[test]
fn test_parse_nodes() {
    let dbc = r#"VERSION ""

NS_ :

BS_:

BU_: ECU1 ECU2 ECU3

"#;
    let db = DbcParser::parse(dbc).unwrap();
    assert_eq!(db.nodes.len(), 3);
    assert_eq!(db.nodes[0], "ECU1");
    assert_eq!(db.nodes[1], "ECU2");
    assert_eq!(db.nodes[2], "ECU3");
}

#[test]
fn test_parse_message() {
    let dbc = r#"VERSION ""

NS_ :

BS_:

BU_: ECU1

BO_ 100 TestMessage: 8 ECU1

"#;
    let db = DbcParser::parse(dbc).unwrap();
    assert_eq!(db.messages.len(), 1);
    assert_eq!(db.messages[0].id, 100);
    assert_eq!(db.messages[0].name, "TestMessage");
    assert_eq!(db.messages[0].length, 8);
    assert_eq!(db.messages[0].transmitter, "ECU1");
}

#[test]
fn test_parse_signal() {
    let dbc = r#"VERSION ""

NS_ :

BS_:

BU_: ECU1 ECU2

BO_ 100 TestMessage: 8 ECU1
 SG_ TestSignal : 0|8@1+ (1,0) [0|255] "" ECU2

"#;
    let db = DbcParser::parse(dbc).unwrap();
    assert_eq!(db.messages[0].signals.len(), 1);
    let signal = &db.messages[0].signals[0];
    assert_eq!(signal.name, "TestSignal");
    assert_eq!(signal.start_bit, 0);
    assert_eq!(signal.length, 8);
    assert_eq!(signal.byte_order, ByteOrder::LittleEndian);
    assert_eq!(signal.value_type, ValueType::Unsigned);
    assert_eq!(signal.factor.parse::<f64>().unwrap(), 1.0);
    assert_eq!(signal.offset.parse::<f64>().unwrap(), 0.0);
    assert_eq!(signal.minimum.parse::<f64>().unwrap(), 0.0);
    assert_eq!(signal.maximum.parse::<f64>().unwrap(), 255.0);
}

#[test]
fn test_parse_signal_with_factor_offset() {
    let dbc = r#"VERSION ""

NS_ :

BS_:

BU_: ECU1 ECU2

BO_ 200 EngineData: 8 ECU1
 SG_ EngineSpeed : 0|16@1+ (0.25,0) [0|16383.75] "rpm" ECU2
 SG_ EngineTemp : 16|8@1+ (1,-40) [-40|215] "degC" ECU2

"#;
    let db = DbcParser::parse(dbc).unwrap();
    assert_eq!(db.messages[0].signals.len(), 2);

    let speed = &db.messages[0].signals[0];
    assert_eq!(speed.name, "EngineSpeed");
    assert_eq!(speed.factor.parse::<f64>().unwrap(), 0.25);
    assert_eq!(speed.unit, "rpm");

    let temp = &db.messages[0].signals[1];
    assert_eq!(temp.name, "EngineTemp");
    assert_eq!(temp.offset.parse::<f64>().unwrap(), -40.0);
    assert_eq!(temp.unit, "degC");
}

#[test]
fn test_parse_big_endian_signal() {
    let dbc = r#"VERSION ""

NS_ :

BS_:

BU_: ECU1

BO_ 300 TestMsg: 8 ECU1
 SG_ BigEndianSignal : 0|16@0+ (1,0) [0|65535] "" ECU1

"#;
    let db = DbcParser::parse(dbc).unwrap();
    let signal = &db.messages[0].signals[0];
    assert_eq!(signal.byte_order, ByteOrder::BigEndian);
}

#[test]
fn test_parse_signed_signal() {
    let dbc = r#"VERSION ""

NS_ :

BS_:

BU_: ECU1

BO_ 400 TestMsg: 8 ECU1
 SG_ SignedSignal : 0|16@1- (1,0) [-32768|32767] "" ECU1

"#;
    let db = DbcParser::parse(dbc).unwrap();
    let signal = &db.messages[0].signals[0];
    assert_eq!(signal.value_type, ValueType::Signed);
}

#[test]
fn test_find_message() {
    let dbc = r#"VERSION ""

NS_ :

BS_:

BU_: ECU1

BO_ 100 Msg1: 8 ECU1
BO_ 200 Msg2: 8 ECU1

"#;
    let db = DbcParser::parse(dbc).unwrap();
    assert!(db.find_message(100).is_some());
    assert!(db.find_message(200).is_some());
    assert!(db.find_message(300).is_none());
}

#[test]
fn test_find_signal() {
    let dbc = r#"VERSION ""

NS_ :

BS_:

BU_: ECU1

BO_ 100 TestMsg: 8 ECU1
 SG_ Signal1 : 0|8@1+ (1,0) [0|255] "" ECU1
 SG_ Signal2 : 8|8@1+ (1,0) [0|255] "" ECU1

"#;
    let db = DbcParser::parse(dbc).unwrap();
    assert!(db.find_signal(100, "Signal1").is_some());
    assert!(db.find_signal(100, "Signal2").is_some());
    assert!(db.find_signal(100, "Signal3").is_none());
    assert!(db.find_signal(200, "Signal1").is_none());
}

#[test]
fn test_signal_to_signal_def() {
    let dbc = r#"VERSION ""

NS_ :

BS_:

BU_: ECU1

BO_ 100 TestMsg: 8 ECU1
 SG_ TestSignal : 0|16@1+ (0.1,10) [0|6553.5] "km/h" ECU1

"#;
    let db = DbcParser::parse(dbc).unwrap();
    let signal = &db.messages[0].signals[0];
    let signal_def = signal.to_signal_def();

    assert_eq!(signal_def.name, "TestSignal");
    assert_eq!(signal_def.start_bit, 0);
    assert_eq!(signal_def.bit_length, 16);
    assert_eq!(signal.factor.parse::<f64>().unwrap(), 0.1);
    assert_eq!(signal.offset.parse::<f64>().unwrap(), 10.0);
    assert_eq!(signal_def.unit, "km/h");
}

#[test]
fn dbc_test_parse_multiple_messages() {
    let dbc = r#"VERSION ""

NS_ :

BS_:

BU_: ECU1 ECU2

BO_ 100 Msg1: 8 ECU1
 SG_ Sig1 : 0|8@1+ (1,0) [0|255] "" ECU2

BO_ 200 Msg2: 4 ECU2
 SG_ Sig2 : 0|16@1+ (1,0) [0|65535] "" ECU1

BO_ 300 Msg3: 8 ECU1

"#;
    let db = DbcParser::parse(dbc).unwrap();
    assert_eq!(db.messages.len(), 3);
    assert_eq!(db.messages[0].id, 100);
    assert_eq!(db.messages[1].id, 200);
    assert_eq!(db.messages[2].id, 300);
}

#[test]
fn test_parse_canfd_message() {
    let dbc = r#"VERSION ""

NS_ :

BS_:

BU_: ECU1 ECU2

BO_ 100 FdMessage: 64 ECU1
 SG_ Signal1 : 0|32@1+ (1,0) [0|4294967295] "" ECU2
 SG_ Signal2 : 32|32@1+ (1,0) [0|4294967295] "" ECU2
 SG_ Signal3 : 256|64@1+ (1,0) [0|0] "" ECU2

"#;
    let db = DbcParser::parse(dbc).unwrap();
    assert_eq!(db.messages.len(), 1);
    let msg = &db.messages[0];
    assert_eq!(msg.length, 64);
    assert!(msg.is_fd);
    assert!(msg.requires_fd());
    assert_eq!(msg.fd_dlc(), 64);
    assert_eq!(msg.signals.len(), 3);
}

#[test]
fn dbc_test_canfd_dlc_mapping() {
    // Test the DLC mapping for various lengths
    let msg8 = DbcMessage::new(100, "Msg8".to_string(), 8, "ECU".to_string());
    assert!(!msg8.is_fd);
    assert_eq!(msg8.fd_dlc(), 8);

    let msg12 = DbcMessage::new(101, "Msg12".to_string(), 12, "ECU".to_string());
    assert!(msg12.is_fd);
    assert_eq!(msg12.fd_dlc(), 12);

    let msg16 = DbcMessage::new(102, "Msg16".to_string(), 16, "ECU".to_string());
    assert!(msg16.is_fd);
    assert_eq!(msg16.fd_dlc(), 16);

    let msg20 = DbcMessage::new(103, "Msg20".to_string(), 20, "ECU".to_string());
    assert!(msg20.is_fd);
    assert_eq!(msg20.fd_dlc(), 20);

    let msg24 = DbcMessage::new(104, "Msg24".to_string(), 24, "ECU".to_string());
    assert!(msg24.is_fd);
    assert_eq!(msg24.fd_dlc(), 24);

    let msg32 = DbcMessage::new(105, "Msg32".to_string(), 32, "ECU".to_string());
    assert!(msg32.is_fd);
    assert_eq!(msg32.fd_dlc(), 32);

    let msg48 = DbcMessage::new(106, "Msg48".to_string(), 48, "ECU".to_string());
    assert!(msg48.is_fd);
    assert_eq!(msg48.fd_dlc(), 48);

    let msg64 = DbcMessage::new(107, "Msg64".to_string(), 64, "ECU".to_string());
    assert!(msg64.is_fd);
    assert_eq!(msg64.fd_dlc(), 64);
}

#[test]
fn test_canfd_intermediate_lengths() {
    // Test intermediate lengths that round up to valid FD DLC
    let msg10 = DbcMessage::new(100, "Msg10".to_string(), 10, "ECU".to_string());
    assert!(msg10.is_fd);
    assert_eq!(msg10.fd_dlc(), 12); // 10 rounds up to 12

    let msg15 = DbcMessage::new(101, "Msg15".to_string(), 15, "ECU".to_string());
    assert!(msg15.is_fd);
    assert_eq!(msg15.fd_dlc(), 16); // 15 rounds up to 16

    let msg30 = DbcMessage::new(102, "Msg30".to_string(), 30, "ECU".to_string());
    assert!(msg30.is_fd);
    assert_eq!(msg30.fd_dlc(), 32); // 30 rounds up to 32

    let msg40 = DbcMessage::new(103, "Msg40".to_string(), 40, "ECU".to_string());
    assert!(msg40.is_fd);
    assert_eq!(msg40.fd_dlc(), 48); // 40 rounds up to 48

    let msg50 = DbcMessage::new(104, "Msg50".to_string(), 50, "ECU".to_string());
    assert!(msg50.is_fd);
    assert_eq!(msg50.fd_dlc(), 64); // 50 rounds up to 64
}

