use busmaster::cli::{after_received, format_data, frame_id_text, is_known_driver, monitor_filter, parse_data};
use busmaster::frame::CanFrame;

#[test]
fn monitor_known_driver() {
    assert!(is_known_driver("stub"));
    assert!(!is_known_driver("peak"));
    assert!(!is_known_driver(""));
}

#[test]
fn monitor_no_filter() {
    assert!(matches!(monitor_filter(None, None), Ok(None)));
}

#[test]
fn monitor_filter_range_and_ids() {
    let f = monitor_filter(Some("0x100-0x1FF"), Some("0x300,0x301")).unwrap().unwrap();
    let a = CanFrame::new_standard(0x150, &[]).unwrap();
    let b = CanFrame::new_standard(0x301, &[]).unwrap();
    let c = CanFrame::new_standard(0x250, &[]).unwrap();
    assert!(f.matches(&a, 0));
    assert!(f.matches(&b, 0));
    assert!(!f.matches(&c, 0));
}

#[test]
fn monitor_filter_bad_range() {
    assert!(monitor_filter(Some("0x100"), None).is_err());
    assert!(monitor_filter(None, Some("zz")).is_err());
}

#[test]
fn monitor_count_limit() {
    assert_eq!(after_received(0, 2), (1, false));
    assert_eq!(after_received(1, 2), (2, true));
    assert_eq!(after_received(5, 0), (6, false));
}

#[test]
fn monitor_id_text() {
    let s = CanFrame::new_standard(0x1A, &[]).unwrap();
    assert_eq!(frame_id_text(&s), "0x01A");
    let e = CanFrame::new_extended(0x1ABCD, &[]).unwrap();
    assert_eq!(frame_id_text(&e), "0x0001ABCD");
}

#[test]
fn data_reads_back_what_format_writes() {
    let d = vec![0x00u8, 0x0A, 0xFF, 0x42];
    assert_eq!(parse_data(&format_data(&d)).ok(), Some(d));
    assert_eq!(parse_data("01 02 03").ok(), Some(vec![1, 2, 3]));
    assert_eq!(parse_data("01,02,03").ok(), Some(vec![1, 2, 3]));
}
