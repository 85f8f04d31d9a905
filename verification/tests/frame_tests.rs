use busmaster::frame::{
    dlc_from_len, CanFdFrame, CanFrame, CanXlFrame, CanXlSdt, MAX_CANXL_DATA_LEN, MAX_EXTENDED_ID,
    MAX_STANDARD_ID,
};

#[test]
fn test_standard_frame_creation() {
    let frame = CanFrame::new_standard(0x123, &[1, 2, 3, 4]).unwrap();
    assert_eq!(frame.id(), 0x123);
    assert!(!frame.is_extended());
    assert_eq!(frame.data(), &[1, 2, 3, 4]);
    assert_eq!(frame.dlc(), 4);
}

#[test]
fn test_extended_frame_creation() {
    let frame = CanFrame::new_extended(0x12345678, &[1, 2, 3]).unwrap();
    assert_eq!(frame.id(), 0x12345678);
    assert!(frame.is_extended());
}

#[test]
fn test_invalid_standard_id() {
    let result = CanFrame::new_standard(0x800, &[]);
    assert!(result.is_err());
}

#[test]
fn test_invalid_extended_id() {
    let result = CanFrame::new_extended(0x20000000, &[]);
    assert!(result.is_err());
}

#[test]
fn test_invalid_data_length() {
    let result = CanFrame::new_standard(0x100, &[0; 9]);
    assert!(result.is_err());
}

#[test]
fn test_canfd_frame_creation() {
    let frame = CanFdFrame::new(0x123, false, &[0; 64]).unwrap();
    assert_eq!(frame.id(), 0x123);
    assert_eq!(frame.data().len(), 64);
    assert_eq!(frame.dlc(), 15);
}

#[test]
fn frame_test_canfd_dlc_mapping() {
    assert_eq!(dlc_from_len(8), 8);
    assert_eq!(dlc_from_len(12), 9);
    assert_eq!(dlc_from_len(16), 10);
    assert_eq!(dlc_from_len(20), 11);
    assert_eq!(dlc_from_len(24), 12);
    assert_eq!(dlc_from_len(32), 13);
    assert_eq!(dlc_from_len(48), 14);
    assert_eq!(dlc_from_len(64), 15);
}

#[test]
fn test_frame_timestamp() {
    let mut frame = CanFrame::new_standard(0x100, &[1, 2]).unwrap();
    assert_eq!(frame.timestamp_us(), 0);
    frame.set_timestamp(12345678);
    assert_eq!(frame.timestamp_us(), 12345678);
}

#[test]
fn test_frame_channel() {
    let mut frame = CanFrame::new_standard(0x100, &[1, 2]).unwrap();
    assert_eq!(frame.channel(), 0);
    frame.set_channel(2);
    assert_eq!(frame.channel(), 2);
}

#[test]
fn test_canfd_brs_flag() {
    let mut frame = CanFdFrame::new(0x100, false, &[1, 2, 3, 4]).unwrap();
    assert!(!frame.is_brs());
    frame.set_brs(true);
    assert!(frame.is_brs());
}

#[test]
fn test_empty_frame() {
    let frame = CanFrame::new_standard(0x000, &[]).unwrap();
    assert_eq!(frame.id(), 0);
    assert_eq!(frame.dlc(), 0);
    assert!(frame.data().is_empty());
}

#[test]
fn test_max_standard_id() {
    let frame = CanFrame::new_standard(MAX_STANDARD_ID, &[0xFF]).unwrap();
    assert_eq!(frame.id(), 0x7FF);
}

#[test]
fn test_max_extended_id() {
    let frame = CanFrame::new_extended(MAX_EXTENDED_ID, &[0xFF]).unwrap();
    assert_eq!(frame.id(), 0x1FFFFFFF);
}

#[test]
fn test_rtr_flag() {
    let frame = CanFrame::new_standard(0x100, &[]).unwrap();
    assert!(!frame.is_rtr());
}

#[test]
fn test_frame_equality() {
    let frame1 = CanFrame::new_standard(0x123, &[1, 2, 3]).unwrap();
    let frame2 = CanFrame::new_standard(0x123, &[1, 2, 3]).unwrap();
    assert_eq!(frame1, frame2);
}

#[test]
fn test_frame_clone() {
    let frame1 = CanFrame::new_standard(0x123, &[1, 2, 3]).unwrap();
    let frame2 = frame1.clone();
    assert_eq!(frame1, frame2);
}

// CAN XL Tests
#[test]
fn test_canxl_frame_creation() {
    let data = vec![0xAA; 1024];
    let frame = CanXlFrame::new(0x123, false, &data).unwrap();
    assert_eq!(frame.id(), 0x123);
    assert!(!frame.is_extended());
    assert_eq!(frame.data().len(), 1024);
    assert_eq!(frame.data_length(), 1024);
    assert_eq!(frame.dlc(), 1024);
}

#[test]
fn test_canxl_frame_max_size() {
    let data = vec![0xFF; MAX_CANXL_DATA_LEN];
    let frame = CanXlFrame::new(0x100, false, &data).unwrap();
    assert_eq!(frame.data().len(), 2048);
}

#[test]
fn test_canxl_frame_invalid_size() {
    let data = vec![0xFF; MAX_CANXL_DATA_LEN + 1];
    let result = CanXlFrame::new(0x100, false, &data);
    assert!(result.is_err());
}

#[test]
fn test_canxl_frame_word_alignment() {
    // 49 bytes is > 48 and not word-aligned
    let data = vec![0xFF; 49];
    let result = CanXlFrame::new(0x100, false, &data);
    assert!(result.is_err());

    // 50 bytes is > 48 and not word-aligned
    let data = vec![0xFF; 50];
    let result = CanXlFrame::new(0x100, false, &data);
    assert!(result.is_err());

    // 52 bytes is > 48 and word-aligned (52 / 4 = 13)
    let data = vec![0xFF; 52];
    let result = CanXlFrame::new(0x100, false, &data);
    assert!(result.is_ok());

    // 56 bytes is > 48 and word-aligned
    let data = vec![0xFF; 56];
    let result = CanXlFrame::new(0x100, false, &data);
    assert!(result.is_ok());
}

#[test]
fn test_canxl_frame_small_data() {
    // Small data (<=48) doesn't need word alignment
    let data = vec![0xFF; 47];
    let result = CanXlFrame::new(0x100, false, &data);
    assert!(result.is_ok());
}

#[test]
fn test_canxl_priority() {
    let mut frame = CanXlFrame::new(0x100, false, &[1, 2, 3, 4]).unwrap();
    assert_eq!(frame.priority(), 0);
    frame.set_priority(128);
    assert_eq!(frame.priority(), 128);
}

#[test]
fn test_canxl_vcid() {
    let mut frame = CanXlFrame::new(0x100, false, &[1, 2, 3, 4]).unwrap();
    assert_eq!(frame.vcid(), 0);
    frame.set_vcid(42);
    assert_eq!(frame.vcid(), 42);
}

#[test]
fn test_canxl_sdt() {
    let mut frame = CanXlFrame::new(0x100, false, &[1, 2, 3, 4]).unwrap();
    assert_eq!(frame.sdt(), CanXlSdt::ContentBasedAddressing);
    frame.set_sdt(CanXlSdt::Ethernet);
    assert_eq!(frame.sdt(), CanXlSdt::Ethernet);
}

#[test]
fn test_canxl_sdt_conversion() {
    assert_eq!(u8::from(CanXlSdt::ContentBasedAddressing), 0x00);
    assert_eq!(u8::from(CanXlSdt::ClassicalCanTunneling), 0x01);
    assert_eq!(u8::from(CanXlSdt::CanFdTunneling), 0x02);
    assert_eq!(u8::from(CanXlSdt::Ethernet), 0x03);
    assert_eq!(u8::from(CanXlSdt::Ipv4), 0x04);
    assert_eq!(u8::from(CanXlSdt::Ipv6), 0x05);
    assert_eq!(u8::from(CanXlSdt::Reserved(0x10)), 0x10);

    assert_eq!(CanXlSdt::from(0x00), CanXlSdt::ContentBasedAddressing);
    assert_eq!(CanXlSdt::from(0x03), CanXlSdt::Ethernet);
    assert_eq!(CanXlSdt::from(0x10), CanXlSdt::Reserved(0x10));
}

#[test]
fn test_canxl_acceptance_field() {
    let mut frame = CanXlFrame::new(0x100, false, &[1, 2, 3, 4]).unwrap();
    assert_eq!(frame.acceptance_field(), 0);
    frame.set_acceptance_field(0x12345678);
    assert_eq!(frame.acceptance_field(), 0x12345678);
}

#[test]
fn test_canxl_sec_flag() {
    let mut frame = CanXlFrame::new(0x100, false, &[1, 2, 3, 4]).unwrap();
    assert!(!frame.is_sec());
    frame.set_sec(true);
    assert!(frame.is_sec());
}

#[test]
fn test_canxl_compatibility_checks() {
    // Small frame is compatible with all
    let small = CanXlFrame::new(0x100, false, &[1, 2, 3, 4]).unwrap();
    assert!(small.is_can_compatible());
    assert!(small.is_canfd_compatible());

    // Medium frame is CAN FD compatible only
    let medium = CanXlFrame::new(0x100, false, &[0; 32]).unwrap();
    assert!(!medium.is_can_compatible());
    assert!(medium.is_canfd_compatible());

    // Large frame is CAN XL only
    let large = CanXlFrame::new(0x100, false, &[0; 128]).unwrap();
    assert!(!large.is_can_compatible());
    assert!(!large.is_canfd_compatible());
}

#[test]
fn test_canxl_to_canfd() {
    let xl = CanXlFrame::new(0x123, true, &[1, 2, 3, 4, 5, 6, 7, 8]).unwrap();
    let fd = xl.to_canfd().unwrap();
    assert_eq!(fd.id(), 0x123);
    assert!(fd.is_extended());
    assert_eq!(fd.data(), &[1, 2, 3, 4, 5, 6, 7, 8]);
}

#[test]
fn test_canxl_to_canfd_too_large() {
    let xl = CanXlFrame::new(0x123, false, &[0; 128]).unwrap();
    assert!(xl.to_canfd().is_err());
}

#[test]
fn test_canxl_to_can() {
    let xl = CanXlFrame::new(0x123, false, &[1, 2, 3, 4]).unwrap();
    let can = xl.to_can().unwrap();
    assert_eq!(can.id(), 0x123);
    assert!(!can.is_extended());
    assert_eq!(can.data(), &[1, 2, 3, 4]);
}

#[test]
fn test_canxl_to_can_too_large() {
    let xl = CanXlFrame::new(0x123, false, &[0; 16]).unwrap();
    assert!(xl.to_can().is_err());
}

#[test]
fn test_canxl_from_canfd() {
    let fd = CanFdFrame::new(0x456, true, &[0xAA; 32]).unwrap();
    let xl = CanXlFrame::from_canfd(&fd);
    assert_eq!(xl.id(), 0x456);
    assert!(xl.is_extended());
    assert_eq!(xl.data().len(), 32);
    assert_eq!(xl.sdt(), CanXlSdt::CanFdTunneling);
}

#[test]
fn test_canxl_from_can() {
    let can = CanFrame::new_standard(0x789, &[1, 2, 3]).unwrap();
    let xl = CanXlFrame::from_can(&can);
    assert_eq!(xl.id(), 0x789);
    assert!(!xl.is_extended());
    assert_eq!(xl.data(), &[1, 2, 3]);
    assert_eq!(xl.sdt(), CanXlSdt::ClassicalCanTunneling);
}

#[test]
fn test_canxl_new_full() {
    let frame = CanXlFrame::new_full(
        0x100,
        true,
        64,
        10,
        CanXlSdt::Ipv4,
        0xDEADBEEF,
        &[1, 2, 3, 4],
    )
    .unwrap();
    assert_eq!(frame.id(), 0x100);
    assert!(frame.is_extended());
    assert_eq!(frame.priority(), 64);
    assert_eq!(frame.vcid(), 10);
    assert_eq!(frame.sdt(), CanXlSdt::Ipv4);
    assert_eq!(frame.acceptance_field(), 0xDEADBEEF);
}

#[test]
fn test_canxl_timestamp_channel() {
    let mut frame = CanXlFrame::new(0x100, false, &[1, 2]).unwrap();
    assert_eq!(frame.timestamp_us(), 0);
    assert_eq!(frame.channel(), 0);

    frame.set_timestamp(123456789);
    frame.set_channel(3);

    assert_eq!(frame.timestamp_us(), 123456789);
    assert_eq!(frame.channel(), 3);
}

#[test]
fn test_canxl_extended_id() {
    let frame = CanXlFrame::new(0x12345678, true, &[1, 2, 3, 4]).unwrap();
    assert_eq!(frame.id(), 0x12345678);
    assert!(frame.is_extended());
}

#[test]
fn test_canxl_invalid_standard_id() {
    let result = CanXlFrame::new(0x800, false, &[1, 2]);
    assert!(result.is_err());
}

#[test]
fn test_canxl_invalid_extended_id() {
    let result = CanXlFrame::new(0x20000000, true, &[1, 2]);
    assert!(result.is_err());
}


#[test]
fn canfd_through_canxl_and_back_is_the_same_frame() {
    let mut fd = CanFdFrame::new(0x1ABCDE, true, &[1, 2, 3, 4, 5, 6, 7, 8, 9, 10, 11, 12]).unwrap();
    fd.set_timestamp(4242);
    fd.set_channel(3);
    let back = CanXlFrame::from_canfd(&fd).to_canfd().unwrap();
    assert_eq!(back, fd);
}
