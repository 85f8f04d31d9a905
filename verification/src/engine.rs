//! The engine's state and decisions: its life cycle (stopped, starting,
//! running, stopping), the database and filter it holds, what each received
//! or sent frame leads to, and its errors and events.
//!
//! The engine's driver, clock, broadcast channel and log file are handled by
//! whoever runs it: each operation here takes what they reported and says
//! what to do next.
use vstd::prelude::*;
use std::time::Duration;
use crate::dbc::{dbc_failure_message, dbc_spec, DbcDatabase, DbcDatabaseModel, DbcParser};
use crate::error::{display_spec, BusmasterError};
use crate::filter::{filter_accepts, Direction, MessageFilter};
use crate::frame::CanFrame;
use crate::text::push_str;

verus! {

broadcast use vstd::string::group_string_axioms;

/// Engine state.
#[derive(Debug, Clone, Copy, PartialEq, Eq, Structural)]
pub enum EngineState {
    /// Engine is stopped
    Stopped,
    /// Engine is starting
    Starting,
    /// Engine is running
    Running,
    /// Engine is stopping
    Stopping,
}

/// The length of time that `std::time::Duration::from_millis` gives for
/// `ms` milliseconds.
pub uninterp spec fn millis_duration(ms: u64) -> Duration;

/// std's `Duration::from_millis`: the duration of `ms` milliseconds, which
/// depends on `ms` alone.
#[verifier::external_body]
fn duration_from_millis(ms: u64) -> (d: Duration)
    ensures
        d == millis_duration(ms),
{
    Duration::from_millis(ms)
}

/// Engine configuration.
#[derive(Debug, Clone, Copy)]
pub struct EngineConfig {
    /// Subscription channel capacity
    pub subscription_capacity: usize,
    /// Message reception polling interval
    pub poll_interval: Duration,
    /// Enable automatic signal extraction
    pub auto_extract_signals: bool,
    /// Maximum number of messages to buffer
    pub message_buffer_size: usize,
}

impl Default for EngineConfig {
    /// A capacity of 1000 subscribers' events, polling every millisecond,
    /// signal extraction on, and a buffer of 10000 messages.
    fn default() -> (r: Self)
        ensures
            r.subscription_capacity == 1000,
            r.poll_interval == millis_duration(1),
            r.auto_extract_signals,
            r.message_buffer_size == 10000,
    {
        EngineConfig {
            subscription_capacity: 1000,
            poll_interval: duration_from_millis(1),
            auto_extract_signals: true,
            message_buffer_size: 10000,
        }
    }
}

/// Errors that can occur in the engine.
#[derive(Debug)]
pub enum EngineError {
    /// Driver error
    Driver(BusmasterError),
    /// Database error
    Database(String),
    /// Logger error
    Logger(std::io::Error),
    /// Engine is not running
    NotRunning,
    /// Engine is already running
    AlreadyRunning,
    /// Channel error
    Channel(String),
    /// Configuration error
    Config(String),
    /// Subscription error
    Subscription(String),
}

/// Whether an engine error is one that the caller can recover from.
pub open spec fn engine_recoverable(e: EngineError) -> bool {
    e is NotRunning || e is AlreadyRunning || e is Channel
}

/// The text that an engine error displays, for every variant but `Logger`,
/// whose text continues with the I/O error's own description, and
/// `Driver` on an I/O error, which does the same.
pub open spec fn engine_error_text(e: EngineError) -> Seq<char> {
    match e {
        EngineError::Driver(d) => "Driver error: "@ + display_spec(d),
        EngineError::Database(m) => "Database error: "@ + m@,
        EngineError::Logger(_) => "Logger error: "@,
        EngineError::NotRunning => "Engine is not running"@,
        EngineError::AlreadyRunning => "Engine is already running"@,
        EngineError::Channel(m) => "Channel error: "@ + m@,
        EngineError::Config(m) => "Configuration error: "@ + m@,
        EngineError::Subscription(m) => "Subscription error: "@ + m@,
    }
}

impl EngineError {
    /// Check if the error is recoverable.
    pub fn is_recoverable(&self) -> (r: bool)
        ensures
            r == engine_recoverable(*self),
    {
        match self {
            EngineError::NotRunning => true,
            EngineError::AlreadyRunning => true,
            EngineError::Channel(_) => true,
            _ => false,
        }
    }

    /// The text this error displays. For a driver error on I/O and for a
    /// logger error, the I/O error's description follows the text that
    /// `engine_error_text` gives.
    pub fn to_display_string(&self) -> (r: String)
        ensures
            !(*self is Logger) && !(*self matches EngineError::Driver(d) && d is Io) ==> r@ == engine_error_text(
                *self,
            ),
            engine_error_text(*self).is_prefix_of(r@),
    {
        let mut s = String::new();
        match self {
            EngineError::Driver(d) => {
                push_str(&mut s, "Driver error: ");
                let t = d.to_display_string();
                let ghost before = s@;
                push_str(&mut s, t.as_str());
                proof {
                    if d is Io {
                        let k = display_spec(*d).len() as int;
                        assert(t@.subrange(0, k) =~= display_spec(*d));
                        assert(s@.subrange(0, before.len() + k) =~= before + display_spec(*d));
                    }
                }
            },
            EngineError::Database(m) => {
                push_str(&mut s, "Database error: ");
                push_str(&mut s, m.as_str());
            },
            EngineError::Logger(e) => {
                push_str(&mut s, "Logger error: ");
                let ghost before = s@;
                let t = crate::error::io_error_text(e);
                push_str(&mut s, t.as_str());
                assert(s@.subrange(0, before.len() as int) =~= before);
            },
            EngineError::NotRunning => {
                push_str(&mut s, "Engine is not running");
            },
            EngineError::AlreadyRunning => {
                push_str(&mut s, "Engine is already running");
            },
            EngineError::Channel(m) => {
                push_str(&mut s, "Channel error: ");
                push_str(&mut s, m.as_str());
            },
            EngineError::Config(m) => {
                push_str(&mut s, "Configuration error: ");
                push_str(&mut s, m.as_str());
            },
            EngineError::Subscription(m) => {
                push_str(&mut s, "Subscription error: ");
                push_str(&mut s, m.as_str());
            },
        }
        assert(engine_error_text(*self).is_prefix_of(s@));
        s
    }
}

impl From<BusmasterError> for EngineError {
    fn from(e: BusmasterError) -> (r: Self) {
        EngineError::Driver(e)
    }
}

impl vstd::std_specs::convert::FromSpecImpl<BusmasterError> for EngineError {
    open spec fn obeys_from_spec() -> bool {
        true
    }

    open spec fn from_spec(e: BusmasterError) -> Self {
        EngineError::Driver(e)
    }
}

/// A message event that can be subscribed to.
#[derive(Debug, Clone)]
pub enum MessageEvent {
    /// A CAN frame was received
    FrameReceived {
        /// The received frame
        frame: CanFrame,
        /// The channel it was received on
        channel: u8,
        /// Timestamp in microseconds
        timestamp: u64,
    },
    /// A CAN frame was transmitted
    FrameTransmitted {
        /// The transmitted frame
        frame: CanFrame,
        /// The channel it was transmitted on
        channel: u8,
        /// Timestamp in microseconds
        timestamp: u64,
    },
    /// An error occurred
    Error {
        /// Error message
        message: String,
    },
}


/// Whether two frames have the same contents.
pub open spec fn same_frame(a: CanFrame, b: CanFrame) -> bool {
    &&& a.spec_id() == b.spec_id()
    &&& a.spec_extended() == b.spec_extended()
    &&& a.spec_rtr() == b.spec_rtr()
    &&& a.spec_data() == b.spec_data()
    &&& a.spec_timestamp() == b.spec_timestamp()
    &&& a.spec_channel() == b.spec_channel()
}

/// What the reception loop does with the outcome of one poll of the driver.
#[derive(Debug)]
pub enum Reception {
    /// The driver failed: broadcast this error event, wait, poll again.
    Failed(MessageEvent),
    /// Nothing was received: wait, poll again.
    Idle,
    /// The filter rejects the frame: poll again at once.
    Filtered,
    /// Log the frame, broadcast it as received, wait, poll again.
    Deliver(CanFrame),
}

/// The engine's own state: its configuration, life-cycle state, whether
/// reception runs, and the database and filter it holds.
pub struct EngineControl {
    config: EngineConfig,
    state: EngineState,
    running: bool,
    database: Option<DbcDatabase>,
    filter: Option<MessageFilter>,
}

/// The contents of a database, if there is one.
pub open spec fn database_view(d: Option<DbcDatabase>) -> Option<DbcDatabaseModel> {
    match d {
        Some(db) => Some(db@),
        None => None,
    }
}

/// The rules and mode of a filter, if there is one.
pub open spec fn filter_view(f: Option<MessageFilter>) -> Option<(Seq<crate::filter::FilterRule>, crate::filter::FilterMode)> {
    match f {
        Some(m) => Some((m.spec_rules(), m.spec_mode())),
        None => None,
    }
}

impl EngineControl {
    /// The configuration.
    pub closed spec fn spec_config(&self) -> EngineConfig {
        self.config
    }

    /// The life-cycle state.
    pub closed spec fn spec_state(&self) -> EngineState {
        self.state
    }

    /// Whether reception runs.
    pub closed spec fn spec_running(&self) -> bool {
        self.running
    }

    /// The database held, if any.
    pub closed spec fn spec_database(&self) -> Option<DbcDatabaseModel> {
        database_view(self.database)
    }

    /// The filter held, if any, as its rules and mode.
    pub closed spec fn spec_filter(&self) -> Option<(Seq<crate::filter::FilterRule>, crate::filter::FilterMode)> {
        filter_view(self.filter)
    }

    /// A stopped engine with the given configuration, no database and no
    /// filter.
    pub fn new(config: EngineConfig) -> (r: Self)
        ensures
            r.spec_config() == config,
            r.spec_state() == EngineState::Stopped,
            !r.spec_running(),
            r.spec_database() is None,
            r.spec_filter() is None,
    {
        EngineControl { config, state: EngineState::Stopped, running: false, database: None, filter: None }
    }

    /// The configuration.
    pub fn config(&self) -> (r: &EngineConfig)
        ensures
            *r == self.spec_config(),
    {
        &self.config
    }

    /// The current engine state.
    pub fn state(&self) -> (r: EngineState)
        ensures
            r == self.spec_state(),
    {
        self.state
    }

    /// Whether the engine is running.
    pub fn is_running(&self) -> (r: bool)
        ensures
            r == self.spec_running(),
    {
        self.running
    }

    /// The database held, if any.
    pub fn database(&self) -> (r: Option<&DbcDatabase>)
        ensures
            match r {
                Some(d) => self.spec_database() == Some(d@),
                None => self.spec_database() is None,
            },
    {
        match &self.database {
            Some(d) => Some(d),
            None => None,
        }
    }

    /// Load a DBC database from its text. On success it replaces the one
    /// held; on failure the error carries the parser's message and nothing
    /// changes.
    pub fn load_database(&mut self, dbc_content: &str) -> (r: Result<(), EngineError>)
        ensures
            final(self).spec_config() == old(self).spec_config(),
            final(self).spec_state() == old(self).spec_state(),
            final(self).spec_running() == old(self).spec_running(),
            final(self).spec_filter() == old(self).spec_filter(),
            match dbc_spec(dbc_content@) {
                Some(m) => r is Ok && final(self).spec_database() == Some(m),
                None => r matches Err(EngineError::Database(msg)) && msg@ == "Parse error at line "@
                    + crate::text::dec_digits(0) + ": "@ + dbc_failure_message(dbc_content@) && final(self).spec_database()
                    == old(self).spec_database(),
            },
    {
        match DbcParser::parse(dbc_content) {
            Ok(db) => {
                self.database = Some(db);
                Ok(())
            },
            Err(e) => {
                let text = e.to_display_string();
                Err(EngineError::Database(text))
            },
        }
    }

    /// Set the message filter.
    pub fn set_filter(&mut self, filter: MessageFilter)
        ensures
            final(self).spec_config() == old(self).spec_config(),
            final(self).spec_state() == old(self).spec_state(),
            final(self).spec_running() == old(self).spec_running(),
            final(self).spec_database() == old(self).spec_database(),
            final(self).spec_filter() == Some((filter.spec_rules(), filter.spec_mode())),
    {
        self.filter = Some(filter);
    }

    /// Clear the message filter.
    pub fn clear_filter(&mut self)
        ensures
            final(self).spec_config() == old(self).spec_config(),
            final(self).spec_state() == old(self).spec_state(),
            final(self).spec_running() == old(self).spec_running(),
            final(self).spec_database() == old(self).spec_database(),
            final(self).spec_filter() is None,
    {
        self.filter = None;
    }

    /// The first half of starting: refused if the engine runs; otherwise
    /// the engine is starting, and its driver's channel is to be opened.
    pub fn begin_start(&mut self) -> (r: Result<(), EngineError>)
        ensures
            final(self).spec_config() == old(self).spec_config(),
            final(self).spec_running() == old(self).spec_running(),
            final(self).spec_database() == old(self).spec_database(),
            final(self).spec_filter() == old(self).spec_filter(),
            old(self).spec_running() ==> (r matches Err(EngineError::AlreadyRunning) && final(self).spec_state()
                == old(self).spec_state()),
            !old(self).spec_running() ==> r is Ok && final(self).spec_state() == EngineState::Starting,
    {
        if self.running {
            return Err(EngineError::AlreadyRunning);
        }
        self.state = EngineState::Starting;
        Ok(())
    }

    /// The second half of starting, given how opening the channel went: a
    /// driver error is passed on (the engine stays starting); otherwise the
    /// engine runs.
    pub fn finish_start(&mut self, opened: Result<(), BusmasterError>) -> (r: Result<(), EngineError>)
        ensures
            final(self).spec_config() == old(self).spec_config(),
            final(self).spec_database() == old(self).spec_database(),
            final(self).spec_filter() == old(self).spec_filter(),
            match opened {
                Ok(_) => r is Ok && final(self).spec_running() && final(self).spec_state() == EngineState::Running,
                Err(e) => r == Err::<(), EngineError>(EngineError::Driver(e)) && final(self).spec_running()
                    == old(self).spec_running() && final(self).spec_state() == old(self).spec_state(),
            },
    {
        match opened {
            Ok(()) => {
                self.running = true;
                self.state = EngineState::Running;
                Ok(())
            },
            Err(e) => Err(EngineError::Driver(e)),
        }
    }

    /// The first half of stopping: refused if the engine does not run;
    /// otherwise reception stops and the engine is stopping, and its
    /// driver's channel is to be closed.
    pub fn begin_stop(&mut self) -> (r: Result<(), EngineError>)
        ensures
            final(self).spec_config() == old(self).spec_config(),
            final(self).spec_database() == old(self).spec_database(),
            final(self).spec_filter() == old(self).spec_filter(),
            !old(self).spec_running() ==> (r matches Err(EngineError::NotRunning) && final(self).spec_state()
                == old(self).spec_state() && !final(self).spec_running()),
            old(self).spec_running() ==> r is Ok && final(self).spec_state() == EngineState::Stopping
                && !final(self).spec_running(),
    {
        if !self.running {
            return Err(EngineError::NotRunning);
        }
        self.state = EngineState::Stopping;
        self.running = false;
        Ok(())
    }

    /// After the driver's channel was closed: a driver error is passed on
    /// (the engine stays stopping); otherwise the log is to be closed.
    pub fn channel_closed(&self, closed: Result<(), BusmasterError>) -> (r: Result<(), EngineError>)
        ensures
            match closed {
                Ok(_) => r is Ok,
                Err(e) => r == Err::<(), EngineError>(EngineError::Driver(e)),
            },
    {
        match closed {
            Ok(()) => Ok(()),
            Err(e) => Err(EngineError::Driver(e)),
        }
    }

    /// After the log was closed: a logger error is passed on (the engine
    /// stays stopping); otherwise the engine is stopped.
    pub fn log_closed(&mut self, closed: Result<(), std::io::Error>) -> (r: Result<(), EngineError>)
        ensures
            final(self).spec_config() == old(self).spec_config(),
            final(self).spec_running() == old(self).spec_running(),
            final(self).spec_database() == old(self).spec_database(),
            final(self).spec_filter() == old(self).spec_filter(),
            closed is Ok ==> r is Ok && final(self).spec_state() == EngineState::Stopped,
            closed is Err ==> (r matches Err(EngineError::Logger(_)) && final(self).spec_state()
                == old(self).spec_state()),
    {
        match closed {
            Ok(()) => {
                self.state = EngineState::Stopped;
                Ok(())
            },
            Err(e) => Err(EngineError::Logger(e)),
        }
    }

    /// Whether the filter held (if any) lets a received frame through on
    /// channel 0.
    pub fn accepts(&self, frame: &CanFrame) -> (r: bool)
        ensures
            r == match self.spec_filter() {
                None => true,
                Some((rules, mode)) => filter_accepts(rules, mode, frame.spec_id(), 0, Direction::Rx),
            },
    {
        match &self.filter {
            None => true,
            Some(f) => f.matches(frame, 0),
        }
    }

    /// What one poll of the driver leads to: an error event with the
    /// error's text, nothing, a frame that the filter drops, or a frame to
    /// deliver.
    pub fn reception(&self, received: Result<Option<CanFrame>, BusmasterError>) -> (r: Reception)
        ensures
            match received {
                Err(e) => r matches Reception::Failed(MessageEvent::Error { message }) && (!(e is Io)
                    ==> message@ == display_spec(e)) && display_spec(e).is_prefix_of(message@),
                Ok(None) => r is Idle,
                Ok(Some(f)) => if match self.spec_filter() {
                    None => true,
                    Some((rules, mode)) => filter_accepts(rules, mode, f.spec_id(), 0, Direction::Rx),
                } {
                    r matches Reception::Deliver(g) && g == f
                } else {
                    r is Filtered
                },
            },
    {
        match received {
            Err(e) => {
                let message = e.to_display_string();
                proof {
                    if !(e is Io) {
                        assert(display_spec(e).is_prefix_of(message@));
                    }
                }
                Reception::Failed(MessageEvent::Error { message })
            },
            Ok(None) => Reception::Idle,
            Ok(Some(frame)) => {
                if self.accepts(&frame) {
                    Reception::Deliver(frame)
                } else {
                    Reception::Filtered
                }
            },
        }
    }

    /// Sending is refused unless the engine runs.
    pub fn check_send(&self) -> (r: Result<(), EngineError>)
        ensures
            self.spec_running() ==> r is Ok,
            !self.spec_running() ==> r matches Err(EngineError::NotRunning),
    {
        if !self.running {
            return Err(EngineError::NotRunning);
        }
        Ok(())
    }

    /// After the driver sent a frame: a driver error is passed on;
    /// otherwise the event to broadcast, the frame transmitted on `channel`
    /// at `timestamp`.
    pub fn sent(&self, outcome: Result<(), BusmasterError>, frame: &CanFrame, channel: u8, timestamp: u64) -> (r:
        Result<MessageEvent, EngineError>)
        ensures
            match outcome {
                Ok(_) => r matches Ok(MessageEvent::FrameTransmitted { frame: f, channel: c, timestamp: t })
                    && same_frame(f, *frame) && c == channel && t == timestamp,
                Err(e) => r matches Err(EngineError::Driver(d)) && d == e,
            },
    {
        match outcome {
            Ok(()) => Ok(MessageEvent::FrameTransmitted { frame: frame.clone(), channel, timestamp }),
            Err(e) => Err(EngineError::Driver(e)),
        }
    }
}

/// The event for a frame received on channel 0 at `timestamp`.
pub fn received_event(frame: CanFrame, timestamp: u64) -> (r: MessageEvent)
    ensures
        r matches MessageEvent::FrameReceived { frame: f, channel: c, timestamp: t } && f == frame && c == 0
            && t == timestamp,
{
    MessageEvent::FrameReceived { frame, channel: 0, timestamp }
}

} // verus!
