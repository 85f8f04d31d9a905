use busmaster::engine::{EngineConfig, EngineControl, EngineError, EngineState, MessageEvent, Reception, received_event};
use busmaster::error::BusmasterError;
use busmaster::filter::{FilterRule, MessageFilter};
use busmaster::frame::CanFrame;

fn control() -> EngineControl {
    EngineControl::new(EngineConfig::default())
}

#[test]
fn engine_default_config() {
    let c = EngineConfig::default();
    assert_eq!(c.subscription_capacity, 1000);
    assert_eq!(c.poll_interval, std::time::Duration::from_millis(1));
    assert!(c.auto_extract_signals);
    assert_eq!(c.message_buffer_size, 10000);
}

#[test]
fn engine_starts_stopped() {
    let e = control();
    assert_eq!(e.state(), EngineState::Stopped);
    assert!(!e.is_running());
    assert!(e.database().is_none());
}

#[test]
fn engine_start_stop_cycle() {
    let mut e = control();
    assert!(e.begin_start().is_ok());
    assert_eq!(e.state(), EngineState::Starting);
    assert!(e.finish_start(Ok(())).is_ok());
    assert!(e.is_running());
    assert_eq!(e.state(), EngineState::Running);
    assert!(e.check_send().is_ok());
    assert!(e.begin_stop().is_ok());
    assert_eq!(e.state(), EngineState::Stopping);
    assert!(!e.is_running());
    assert!(e.log_closed(Ok(())).is_ok());
    assert_eq!(e.state(), EngineState::Stopped);
}

#[test]
fn engine_double_start_refused() {
    let mut e = control();
    e.begin_start().unwrap();
    e.finish_start(Ok(())).unwrap();
    assert!(matches!(e.begin_start(), Err(EngineError::AlreadyRunning)));
    assert_eq!(e.state(), EngineState::Running);
}

#[test]
fn engine_stop_when_not_running() {
    let mut e = control();
    assert!(matches!(e.begin_stop(), Err(EngineError::NotRunning)));
    assert!(matches!(e.check_send(), Err(EngineError::NotRunning)));
}

#[test]
fn engine_failed_open_keeps_state() {
    let mut e = control();
    e.begin_start().unwrap();
    let r = e.finish_start(Err(BusmasterError::ChannelNotFound { channel: 3 }));
    assert!(matches!(r, Err(EngineError::Driver(BusmasterError::ChannelNotFound { channel: 3 }))));
    assert!(!e.is_running());
    assert_eq!(e.state(), EngineState::Starting);
}

#[test]
fn engine_load_database() {
    let mut e = control();
    let dbc = "VERSION \"\"\n\nNS_ :\n\nBS_:\n\nBU_: ECU1 ECU2\n\nBO_ 256 EngineData: 8 ECU1\n SG_ RPM : 0|16@1+ (0.25,0) [0|16383.75] \"rpm\" ECU2\n\n";
    assert!(e.load_database(dbc).is_ok());
    let db = e.database().unwrap();
    assert_eq!(db.messages.len(), 1);
}

#[test]
fn engine_reception_outcomes() {
    let mut e = control();
    let f = CanFrame::new_standard(0x100, &[1, 2]).unwrap();
    assert!(matches!(e.reception(Ok(None)), Reception::Idle));
    assert!(matches!(e.reception(Ok(Some(f.clone()))), Reception::Deliver(_)));
    e.set_filter(MessageFilter::new().add_rule(FilterRule::IdRange { start: 0x200, end: 0x2FF }));
    assert!(!e.accepts(&f));
    assert!(matches!(e.reception(Ok(Some(f.clone()))), Reception::Filtered));
    e.clear_filter();
    assert!(e.accepts(&f));
    match e.reception(Err(BusmasterError::Timeout { timeout_ms: 5 })) {
        Reception::Failed(MessageEvent::Error { message }) => {
            assert_eq!(message, BusmasterError::Timeout { timeout_ms: 5 }.to_display_string());
        }
        _ => panic!("expected an error event"),
    }
}

#[test]
fn engine_sent_event() {
    let e = control();
    let f = CanFrame::new_standard(0x123, &[9]).unwrap();
    match e.sent(Ok(()), &f, 2, 77) {
        Ok(MessageEvent::FrameTransmitted { frame, channel, timestamp }) => {
            assert_eq!(frame.id(), 0x123);
            assert_eq!(channel, 2);
            assert_eq!(timestamp, 77);
        }
        _ => panic!("expected a transmitted event"),
    }
    assert!(matches!(
        e.sent(Err(BusmasterError::BufferFull { capacity: 4 }), &f, 0, 0),
        Err(EngineError::Driver(BusmasterError::BufferFull { capacity: 4 }))
    ));
}

#[test]
fn engine_received_event() {
    let f = CanFrame::new_standard(0x55, &[]).unwrap();
    match received_event(f, 10) {
        MessageEvent::FrameReceived { frame, timestamp, .. } => {
            assert_eq!(frame.id(), 0x55);
            assert_eq!(timestamp, 10);
        }
        _ => panic!("expected a received event"),
    }
}

#[test]
fn engine_error_recoverable_and_text() {
    assert!(EngineError::NotRunning.is_recoverable());
    assert!(EngineError::AlreadyRunning.is_recoverable());
    assert!(EngineError::Channel("x".to_string()).is_recoverable());
    assert!(!EngineError::Config("x".to_string()).is_recoverable());
    assert_eq!(EngineError::NotRunning.to_display_string(), "Engine is not running");
    assert_eq!(EngineError::AlreadyRunning.to_display_string(), "Engine is already running");
    assert_eq!(EngineError::Database("bad".to_string()).to_display_string(), "Database error: bad");
    assert_eq!(EngineError::Subscription("s".to_string()).to_display_string(), "Subscription error: s");
    let e: EngineError = BusmasterError::Timeout { timeout_ms: 5 }.into();
    assert!(matches!(e, EngineError::Driver(_)));
}
