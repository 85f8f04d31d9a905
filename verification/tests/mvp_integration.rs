use busmaster::filter::{FilterRule, MessageFilter};
use busmaster::frame::CanFrame;

#[test]
fn test_e2e_message_filtering() {
    // Create filter for IDs 0x100-0x1FF
    let filter = MessageFilter::new().add_rule(FilterRule::IdRange {
        start: 0x100,
        end: 0x1FF,
    });

    // Test frames
    let frames = vec![
        (CanFrame::new_standard(0x050, &[1]).unwrap(), false), // Should be blocked
        (CanFrame::new_standard(0x100, &[2]).unwrap(), true),  // Should pass
        (CanFrame::new_standard(0x150, &[3]).unwrap(), true),  // Should pass
        (CanFrame::new_standard(0x1FF, &[4]).unwrap(), true),  // Should pass
        (CanFrame::new_standard(0x200, &[5]).unwrap(), false), // Should be blocked
        (CanFrame::new_standard(0x300, &[6]).unwrap(), false), // Should be blocked
    ];

    for (frame, expected) in frames {
        let result = filter.matches(&frame, 0);
        assert_eq!(
            result,
            expected,
            "Filter mismatch for ID 0x{:03X}",
            frame.id()
        );
    }
}

