use busmaster::filter::{Direction, FilterMode, FilterRule, MessageFilter};
use busmaster::frame::CanFrame;

#[test]
fn test_empty_filter_accepts_all() {
    let filter = MessageFilter::new();
    let frame = CanFrame::new_standard(0x123, &[1, 2, 3, 4]).unwrap();
    assert!(filter.matches(&frame, 0));
}

#[test]
fn test_id_range_filter() {
    let filter = MessageFilter::new().add_rule(FilterRule::IdRange {
        start: 0x100,
        end: 0x1FF,
    });

    let frame1 = CanFrame::new_standard(0x100, &[1, 2, 3, 4]).unwrap();
    assert!(filter.matches(&frame1, 0));

    let frame2 = CanFrame::new_standard(0x150, &[1, 2, 3, 4]).unwrap();
    assert!(filter.matches(&frame2, 0));

    let frame3 = CanFrame::new_standard(0x1FF, &[1, 2, 3, 4]).unwrap();
    assert!(filter.matches(&frame3, 0));

    let frame4 = CanFrame::new_standard(0x200, &[1, 2, 3, 4]).unwrap();
    assert!(!filter.matches(&frame4, 0));

    let frame5 = CanFrame::new_standard(0x0FF, &[1, 2, 3, 4]).unwrap();
    assert!(!filter.matches(&frame5, 0));
}

#[test]
fn test_id_mask_filter() {
    // Accept IDs 0x100, 0x101, 0x102, 0x103 (last 2 bits don't matter)
    let filter = MessageFilter::new().add_rule(FilterRule::IdMask {
        id: 0x100,
        mask: 0x7FC, // Compare all bits except last 2
    });

    let frame1 = CanFrame::new_standard(0x100, &[1, 2, 3, 4]).unwrap();
    assert!(filter.matches(&frame1, 0));

    let frame2 = CanFrame::new_standard(0x101, &[1, 2, 3, 4]).unwrap();
    assert!(filter.matches(&frame2, 0));

    let frame3 = CanFrame::new_standard(0x103, &[1, 2, 3, 4]).unwrap();
    assert!(filter.matches(&frame3, 0));

    let frame4 = CanFrame::new_standard(0x104, &[1, 2, 3, 4]).unwrap();
    assert!(!filter.matches(&frame4, 0));
}

#[test]
fn test_id_list_filter() {
    let filter = MessageFilter::new().add_rule(FilterRule::IdList {
        ids: vec![0x100, 0x200, 0x300],
    });

    let frame1 = CanFrame::new_standard(0x100, &[1, 2, 3, 4]).unwrap();
    assert!(filter.matches(&frame1, 0));

    let frame2 = CanFrame::new_standard(0x200, &[1, 2, 3, 4]).unwrap();
    assert!(filter.matches(&frame2, 0));

    let frame3 = CanFrame::new_standard(0x150, &[1, 2, 3, 4]).unwrap();
    assert!(!filter.matches(&frame3, 0));
}

#[test]
fn test_channel_filter() {
    let filter = MessageFilter::new().add_rule(FilterRule::Channel { channel: 0 });

    let frame = CanFrame::new_standard(0x123, &[1, 2, 3, 4]).unwrap();
    assert!(filter.matches(&frame, 0));
    assert!(!filter.matches(&frame, 1));
}

#[test]
fn test_direction_filter() {
    let filter = MessageFilter::new().add_rule(FilterRule::Direction {
        direction: Direction::Tx,
    });

    let frame = CanFrame::new_standard(0x123, &[1, 2, 3, 4]).unwrap();
    assert!(filter.matches_with_direction(&frame, 0, Direction::Tx));
    assert!(!filter.matches_with_direction(&frame, 0, Direction::Rx));
}

#[test]
fn test_multiple_rules_any_mode() {
    let filter = MessageFilter::new()
        .with_mode(FilterMode::Any)
        .add_rule(FilterRule::IdRange {
            start: 0x100,
            end: 0x1FF,
        })
        .add_rule(FilterRule::IdRange {
            start: 0x200,
            end: 0x2FF,
        });

    let frame1 = CanFrame::new_standard(0x150, &[1, 2, 3, 4]).unwrap();
    assert!(filter.matches(&frame1, 0));

    let frame2 = CanFrame::new_standard(0x250, &[1, 2, 3, 4]).unwrap();
    assert!(filter.matches(&frame2, 0));

    let frame3 = CanFrame::new_standard(0x300, &[1, 2, 3, 4]).unwrap();
    assert!(!filter.matches(&frame3, 0));
}

#[test]
fn test_multiple_rules_all_mode() {
    let filter = MessageFilter::new()
        .with_mode(FilterMode::All)
        .add_rule(FilterRule::IdRange {
            start: 0x100,
            end: 0x1FF,
        })
        .add_rule(FilterRule::Channel { channel: 0 });

    let frame1 = CanFrame::new_standard(0x150, &[1, 2, 3, 4]).unwrap();
    assert!(filter.matches(&frame1, 0)); // Matches both rules

    let frame2 = CanFrame::new_standard(0x150, &[1, 2, 3, 4]).unwrap();
    assert!(!filter.matches(&frame2, 1)); // Wrong channel

    let frame3 = CanFrame::new_standard(0x200, &[1, 2, 3, 4]).unwrap();
    assert!(!filter.matches(&frame3, 0)); // Wrong ID range
}

#[test]
fn test_clear_rules() {
    let mut filter = MessageFilter::new().add_rule(FilterRule::IdRange {
        start: 0x100,
        end: 0x1FF,
    });

    assert_eq!(filter.rule_count(), 1);

    let frame = CanFrame::new_standard(0x200, &[1, 2, 3, 4]).unwrap();
    assert!(!filter.matches(&frame, 0));

    filter.clear();
    assert_eq!(filter.rule_count(), 0);
    assert!(filter.matches(&frame, 0)); // Empty filter accepts all
}

#[test]
fn test_extended_id_filter() {
    let filter = MessageFilter::new().add_rule(FilterRule::IdRange {
        start: 0x10000000,
        end: 0x1FFFFFFF,
    });

    let frame1 = CanFrame::new_extended(0x10000000, &[1, 2, 3, 4]).unwrap();
    assert!(filter.matches(&frame1, 0));

    let frame2 = CanFrame::new_extended(0x15000000, &[1, 2, 3, 4]).unwrap();
    assert!(filter.matches(&frame2, 0));

    let frame3 = CanFrame::new_standard(0x100, &[1, 2, 3, 4]).unwrap();
    assert!(!filter.matches(&frame3, 0));
}


#[test]
fn add_rules_equals_adding_one_by_one() {
    let rules = vec![
        FilterRule::IdRange { start: 0x100, end: 0x1FF },
        FilterRule::IdRange { start: 0x300, end: 0x3FF },
    ];
    let f = MessageFilter::new().add_rules(rules.clone());
    let g = rules.into_iter().fold(MessageFilter::new(), |a, r| a.add_rule(r));
    assert_eq!(f.rule_count(), g.rule_count());
    for id in [0x050u32, 0x150, 0x250, 0x350] {
        let frame = CanFrame::new_standard(id, &[1]).unwrap();
        assert_eq!(f.matches(&frame, 0), g.matches(&frame, 0));
    }
}
