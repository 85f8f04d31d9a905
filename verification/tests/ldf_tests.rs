use busmaster::ldf::{
    LdfDatabase, LdfFrame, LdfMasterNode, LdfScheduleEntry, LdfScheduleEntryType, LdfScheduleTable, LdfSignal,
    LdfSlaveNode,
};
use busmaster::ldf_parser::LdfParser;

fn num(t: &str) -> f64 {
    t.parse::<f64>().unwrap()
}

#[test]
fn test_parse_basic_ldf() {
    let ldf = r#"
LIN_description_file;
LIN_protocol_version = "2.1";
LIN_language_version = "2.1";
LIN_speed = 19.2 kbps;

Nodes {
  Master: Master, 5 ms, 0.1 ms;
  Slaves: Slave1, Slave2;
}
"#;

    let db = LdfParser::parse(ldf).unwrap();
    assert_eq!(db.protocol_version, "2.1");
    assert_eq!(db.language_version, "2.1");
    assert!((num(&db.speed_kbps) - 19.2).abs() < 0.01);
    assert!(db.master.is_some());
    let master = db.master.as_ref().unwrap();
    assert_eq!(master.name, "Master");
    assert!((num(&master.time_base_ms) - 5.0).abs() < 0.01);
    assert_eq!(db.slaves.len(), 2);
    assert_eq!(db.slaves[0].name, "Slave1");
    assert_eq!(db.slaves[1].name, "Slave2");
}

#[test]
fn test_parse_signals() {
    let ldf = r#"
LIN_description_file;
LIN_protocol_version = "2.1";

Signals {
  Signal1: 8, 0, Slave1, Master;
  Signal2: 16, 100, Slave2, Master, Slave1;
}
"#;

    let db = LdfParser::parse(ldf).unwrap();
    assert_eq!(db.signals.len(), 2);

    let sig1 = &db.signals[0];
    assert_eq!(sig1.name, "Signal1");
    assert_eq!(sig1.size, 8);
    assert_eq!(sig1.init_value, 0);
    assert_eq!(sig1.publisher, "Slave1");
    assert_eq!(sig1.subscribers, vec!["Master"]);

    let sig2 = &db.signals[1];
    assert_eq!(sig2.name, "Signal2");
    assert_eq!(sig2.size, 16);
    assert_eq!(sig2.init_value, 100);
    assert_eq!(sig2.subscribers.len(), 2);
}

#[test]
fn test_parse_frames() {
    let ldf = r#"
LIN_description_file;
LIN_protocol_version = "2.1";

Frames {
  Frame1: 0x10, Slave1, 4 {
    Signal1, 0;
    Signal2, 8;
  }
  Frame2: 0x20, Slave2, 8 {
    Signal3, 0;
  }
}
"#;

    let db = LdfParser::parse(ldf).unwrap();
    assert_eq!(db.frames.len(), 2);

    let frame1 = &db.frames[0];
    assert_eq!(frame1.name, "Frame1");
    assert_eq!(frame1.id, 0x10);
    assert_eq!(frame1.publisher, "Slave1");
    assert_eq!(frame1.length, 4);
    assert_eq!(frame1.signals.len(), 2);
    assert_eq!(frame1.signals[0].name, "Signal1");
    assert_eq!(frame1.signals[0].offset, 0);
    assert_eq!(frame1.signals[1].name, "Signal2");
    assert_eq!(frame1.signals[1].offset, 8);

    let frame2 = &db.frames[1];
    assert_eq!(frame2.name, "Frame2");
    assert_eq!(frame2.id, 0x20);
}

#[test]
fn test_parse_schedule_tables() {
    let ldf = r#"
LIN_description_file;
LIN_protocol_version = "2.1";

Schedule_tables {
  MainSchedule {
    Frame1 delay 10 ms;
    Frame2 delay 20 ms;
    MasterReq delay 10 ms;
    SlaveResp delay 10 ms;
  }
}
"#;

    let db = LdfParser::parse(ldf).unwrap();
    assert_eq!(db.schedule_tables.len(), 1);

    let table = &db.schedule_tables[0];
    assert_eq!(table.name, "MainSchedule");
    assert_eq!(table.entries.len(), 4);

    assert!(matches!(table.entries[0].entry_type, LdfScheduleEntryType::Frame(ref n) if n == "Frame1"));
    assert!((num(&table.entries[0].delay_ms) - 10.0).abs() < 0.01);

    assert!(matches!(table.entries[2].entry_type, LdfScheduleEntryType::MasterReq));
    assert!(matches!(table.entries[3].entry_type, LdfScheduleEntryType::SlaveResp));

    let total: f64 = table.entries.iter().map(|e| num(&e.delay_ms)).sum();
    assert!((total - 50.0).abs() < 0.01);
}

#[test]
fn test_ldf_database_find_methods() {
    let mut db = LdfDatabase::new();
    db.frames.push(LdfFrame::new("TestFrame", 0x10, "Slave1", 8));
    db.signals.push(LdfSignal::new("TestSignal", 8, 0, "Slave1"));
    db.schedule_tables.push(LdfScheduleTable::new("TestSchedule"));

    assert!(db.find_frame(0x10).is_some());
    assert!(db.find_frame(0x99).is_none());

    assert!(db.find_frame_by_name("TestFrame").is_some());
    assert!(db.find_frame_by_name("Unknown").is_none());

    assert!(db.find_signal("TestSignal").is_some());
    assert!(db.find_signal("Unknown").is_none());

    assert!(db.find_schedule_table("TestSchedule").is_some());
    assert!(db.find_schedule_table("Unknown").is_none());
}

#[test]
fn test_ldf_master_node() {
    let master = LdfMasterNode::new("Master", "5.0", "0.1");
    assert_eq!(master.name, "Master");
    assert!((num(&master.time_base_ms) - 5.0).abs() < 0.01);
    assert!((num(&master.jitter_ms) - 0.1).abs() < 0.01);
}

#[test]
fn test_ldf_slave_node() {
    let slave = LdfSlaveNode::new("Slave1");
    assert_eq!(slave.name, "Slave1");
    assert!(slave.configured_nad.is_none());
    assert!(slave.initial_nad.is_none());
}

#[test]
fn test_ldf_signal() {
    let mut signal = LdfSignal::new("TestSignal", 16, 100, "Publisher");
    signal.add_subscriber("Sub1");
    signal.add_subscriber("Sub2");

    assert_eq!(signal.name, "TestSignal");
    assert_eq!(signal.size, 16);
    assert_eq!(signal.init_value, 100);
    assert_eq!(signal.publisher, "Publisher");
    assert_eq!(signal.subscribers.len(), 2);
}

#[test]
fn test_ldf_frame() {
    let mut frame = LdfFrame::new("TestFrame", 0x10, "Publisher", 8);
    frame.add_signal("Signal1", 0);
    frame.add_signal("Signal2", 8);

    assert_eq!(frame.name, "TestFrame");
    assert_eq!(frame.id, 0x10);
    assert_eq!(frame.publisher, "Publisher");
    assert_eq!(frame.length, 8);
    assert_eq!(frame.signals.len(), 2);
}

#[test]
fn test_ldf_schedule_entry() {
    let entry1 = LdfScheduleEntry::frame("Frame1", "10.0");
    assert!(matches!(entry1.entry_type, LdfScheduleEntryType::Frame(ref n) if n == "Frame1"));
    assert!((num(&entry1.delay_ms) - 10.0).abs() < 0.01);

    let entry2 = LdfScheduleEntry::master_req("5.0");
    assert!(matches!(entry2.entry_type, LdfScheduleEntryType::MasterReq));

    let entry3 = LdfScheduleEntry::slave_resp("5.0");
    assert!(matches!(entry3.entry_type, LdfScheduleEntryType::SlaveResp));
}

#[test]
fn test_ldf_schedule_table() {
    let mut table = LdfScheduleTable::new("TestSchedule");
    table.add_entry(LdfScheduleEntry::frame("Frame1", "10.0"));
    table.add_entry(LdfScheduleEntry::frame("Frame2", "20.0"));

    assert_eq!(table.name, "TestSchedule");
    assert_eq!(table.entries.len(), 2);
    let total: f64 = table.entries.iter().map(|e| num(&e.delay_ms)).sum();
    assert!((total - 30.0).abs() < 0.01);
}

#[test]
fn test_parse_empty_ldf() {
    let ldf = "LIN_description_file;";
    let db = LdfParser::parse(ldf).unwrap();
    assert!(db.protocol_version.is_empty());
    assert!(db.frames.is_empty());
}

#[test]
fn test_parse_ldf_with_comments() {
    let ldf = r#"
// This is a comment
LIN_description_file;
LIN_protocol_version = "2.1";
// Another comment
LIN_speed = 19.2 kbps;
"#;

    let db = LdfParser::parse(ldf).unwrap();
    assert_eq!(db.protocol_version, "2.1");
    assert!((num(&db.speed_kbps) - 19.2).abs() < 0.01);
}

#[test]
fn ldf_default_speed_and_master_defaults() {
    let db = LdfParser::parse("Nodes {\n  Master: M;\n}\n").unwrap();
    assert_eq!(db.speed_kbps, "19.2");
    let m = db.master.unwrap();
    assert_eq!(m.name, "M");
    assert_eq!(m.time_base_ms, "5.0");
    assert_eq!(m.jitter_ms, "0.1");
}

#[test]
fn ldf_node_attributes() {
    let ldf = "Node_attributes {\n  Slave1 {\n    LIN_protocol = \"2.1\";\n    configured_NAD = 0x22;\n    initial_NAD = 5;\n    response_error = RespErr;\n  }\n  Slave1 {\n    initial_NAD = 7;\n  }\n}\n";
    let db = LdfParser::parse(ldf).unwrap();
    assert_eq!(db.node_attributes.len(), 1);
    let (name, a) = &db.node_attributes[0];
    assert_eq!(name, "Slave1");
    assert_eq!(a.initial_nad, Some(7));
    assert_eq!(a.lin_protocol, None);
}

#[test]
fn ldf_node_attribute_values() {
    let ldf = "Node_attributes {\n  Slave1 {\n    LIN_protocol = \"2.1\";\n    configured_NAD = 0x22;\n    response_error = RespErr;\n  }\n}\n";
    let db = LdfParser::parse(ldf).unwrap();
    let (_, a) = &db.node_attributes[0];
    assert_eq!(a.lin_protocol, Some("2.1".to_string()));
    assert_eq!(a.configured_nad, Some(22));
    assert_eq!(a.response_error, Some("RespErr".to_string()));
}

#[test]
fn ldf_bad_lines_skipped() {
    let ldf = "Signals {\n  Bad: x, 0, P;\n  Short: 8, 0;\n  Good: 8, 300, P;\n  Ok: 4, 1, P, A, , B;\n}\nFrames {\n  F: 0x1G, P, 8;\n  G: 3, P, 2;\n  S, 4;\n}\n";
    let db = LdfParser::parse(ldf).unwrap();
    assert_eq!(db.signals.len(), 2);
    assert_eq!(db.signals[1].subscribers, vec!["A", "B"]);
    assert_eq!(db.frames.len(), 1);
    assert_eq!(db.frames[0].name, "G");
    assert_eq!(db.frames[0].signals.len(), 1);
}

#[test]
fn ldf_infinite_speed_text() {
    let db = LdfParser::parse("LIN_speed = Inf kbps;").unwrap();
    assert_eq!(db.speed_kbps, "Inf");
    let db2 = LdfParser::parse("LIN_speed = fast kbps;").unwrap();
    assert_eq!(db2.speed_kbps, "19.2");
}
