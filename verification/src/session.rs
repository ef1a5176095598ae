//! The transport session as a state machine.
//!
//! The connection lifecycle — connect, stream, answer keepalives,
//! reconnect with a bounded budget, give up — is a pure transition
//! function from state and event to next state and action. The caller
//! runs the I/O: it performs each returned action and feeds the next
//! event back in. Keepalive pings are answered immediately with the
//! same payload, and the `Fatal` phase is reached exactly when the
//! reconnect budget is exhausted, never otherwise.

use vstd::prelude::*;
use crate::errors::FeedError;

verus! {

/// Bounds on the session's reconnect behaviour.
#[derive(Clone, Copy, Debug)]
pub struct SessionConfig {
    pub max_reconnect_attempts: u8,
    pub reconnect_delay_ms: u64,
}

/// Where the session stands in its lifecycle.
#[derive(Clone, Copy, Debug, PartialEq, Eq, Structural)]
pub enum SessionPhase {
    Disconnected,
    Connecting,
    Streaming,
    Reconnecting,
    Fatal,
}

/// The session's state: its phase and how many connection attempts have
/// failed since the last successful connect.
#[derive(Clone, Copy, Debug, PartialEq, Eq, Structural)]
pub struct SessionState {
    pub phase: SessionPhase,
    pub attempts: u8,
}

/// Something that happened to the transport.
#[derive(Clone, Debug, PartialEq, Eq)]
pub enum SessionEvent {
    /// The caller wants the session started.
    Start,
    /// The connection attempt completed.
    ConnectSucceeded,
    /// The connection attempt failed or timed out.
    ConnectFailed,
    /// A data frame arrived.
    FrameReceived,
    /// A keepalive ping arrived, with its payload.
    PingReceived(Vec<u8>),
    /// The peer closed the stream.
    CloseReceived,
    /// Reading from the stream failed.
    ReadFailed,
    /// The stream ended without a close frame.
    StreamEnded,
    /// The reconnect delay has elapsed.
    DelayElapsed,
}

/// The mathematical content of a session event.
#[verifier::ext_equal]
pub ghost enum EventModel {
    Start,
    ConnectSucceeded,
    ConnectFailed,
    FrameReceived,
    PingReceived(Seq<u8>),
    CloseReceived,
    ReadFailed,
    StreamEnded,
    DelayElapsed,
}

impl View for SessionEvent {
    type V = EventModel;

    open spec fn view(&self) -> EventModel {
        match self {
            SessionEvent::Start => EventModel::Start,
            SessionEvent::ConnectSucceeded => EventModel::ConnectSucceeded,
            SessionEvent::ConnectFailed => EventModel::ConnectFailed,
            SessionEvent::FrameReceived => EventModel::FrameReceived,
            SessionEvent::PingReceived(p) => EventModel::PingReceived(p@),
            SessionEvent::CloseReceived => EventModel::CloseReceived,
            SessionEvent::ReadFailed => EventModel::ReadFailed,
            SessionEvent::StreamEnded => EventModel::StreamEnded,
            SessionEvent::DelayElapsed => EventModel::DelayElapsed,
        }
    }
}

/// What the caller must do next.
#[derive(Clone, Debug, PartialEq, Eq)]
pub enum SessionAction {
    /// Nothing.
    Idle,
    /// Begin a connection attempt (snapshots first, then the stream).
    StartConnect,
    /// Send a keepalive response with this payload.
    SendPong(Vec<u8>),
    /// Parse and route the received frame.
    ProcessFrame,
    /// Sleep this many milliseconds, then report `DelayElapsed`.
    Wait(u64),
    /// Stop the run loop and report this terminal error.
    ReportFatal(FeedError),
}

/// The mathematical content of a session action.
#[verifier::ext_equal]
pub ghost enum ActionModel {
    Idle,
    StartConnect,
    SendPong(Seq<u8>),
    ProcessFrame,
    Wait(u64),
    ReportFatal(FeedError),
}

impl View for SessionAction {
    type V = ActionModel;

    open spec fn view(&self) -> ActionModel {
        match self {
            SessionAction::Idle => ActionModel::Idle,
            SessionAction::StartConnect => ActionModel::StartConnect,
            SessionAction::SendPong(p) => ActionModel::SendPong(p@),
            SessionAction::ProcessFrame => ActionModel::ProcessFrame,
            SessionAction::Wait(d) => ActionModel::Wait(*d),
            SessionAction::ReportFatal(e) => ActionModel::ReportFatal(*e),
        }
    }
}

/// One more failed attempt, capped at the counter's range.
pub open spec fn spec_bump(a: u8) -> u8 {
    if a == 255 {
        255u8
    } else {
        (a + 1) as u8
    }
}

/// The session's transition function: next state and action for a state
/// and an event. An event that does not concern the current phase leaves
/// the state unchanged and asks for nothing.
pub open spec fn spec_step(s: SessionState, e: EventModel, cfg: SessionConfig) -> (
    SessionState,
    ActionModel,
) {
    match e {
        EventModel::Start => if s.phase == SessionPhase::Disconnected {
            (
                SessionState { phase: SessionPhase::Connecting, attempts: s.attempts },
                ActionModel::StartConnect,
            )
        } else {
            (s, ActionModel::Idle)
        },
        EventModel::ConnectSucceeded => if s.phase == SessionPhase::Connecting {
            (SessionState { phase: SessionPhase::Streaming, attempts: 0 }, ActionModel::Idle)
        } else {
            (s, ActionModel::Idle)
        },
        EventModel::ConnectFailed => if s.phase == SessionPhase::Connecting {
            (
                SessionState { phase: SessionPhase::Reconnecting, attempts: spec_bump(s.attempts) },
                ActionModel::Wait(cfg.reconnect_delay_ms),
            )
        } else {
            (s, ActionModel::Idle)
        },
        EventModel::FrameReceived => if s.phase == SessionPhase::Streaming {
            (s, ActionModel::ProcessFrame)
        } else {
            (s, ActionModel::Idle)
        },
        EventModel::PingReceived(p) => if s.phase == SessionPhase::Streaming {
            (s, ActionModel::SendPong(p))
        } else {
            (s, ActionModel::Idle)
        },
        EventModel::CloseReceived | EventModel::ReadFailed | EventModel::StreamEnded => if s.phase
            == SessionPhase::Streaming {
            (
                SessionState { phase: SessionPhase::Reconnecting, attempts: spec_bump(s.attempts) },
                ActionModel::Wait(cfg.reconnect_delay_ms),
            )
        } else {
            (s, ActionModel::Idle)
        },
        EventModel::DelayElapsed => if s.phase == SessionPhase::Reconnecting {
            if s.attempts >= cfg.max_reconnect_attempts {
                (
                    SessionState { phase: SessionPhase::Fatal, attempts: s.attempts },
                    ActionModel::ReportFatal(FeedError::Fatal),
                )
            } else {
                (
                    SessionState { phase: SessionPhase::Connecting, attempts: s.attempts },
                    ActionModel::StartConnect,
                )
            }
        } else {
            (s, ActionModel::Idle)
        },
    }
}

impl SessionState {
    /// A fresh session that has not yet tried to connect.
    pub fn new() -> (s: SessionState)
        ensures
            s.phase == SessionPhase::Disconnected,
            s.attempts == 0,
    {
        SessionState { phase: SessionPhase::Disconnected, attempts: 0 }
    }

    /// Feeds one event to the session; returns the next state and the
    /// action the caller must perform.
    pub fn step(self, ev: SessionEvent, cfg: &SessionConfig) -> (r: (SessionState, SessionAction))
        ensures
            r.0 == spec_step(self, ev@, *cfg).0,
            r.1@ == spec_step(self, ev@, *cfg).1,
            // A ping while streaming is answered at once, with the same
            // payload, and the session keeps streaming.
            self.phase == SessionPhase::Streaming ==> (ev@ matches EventModel::PingReceived(p)
                ==> r.0 == self && r.1@ == ActionModel::SendPong(p)),
            // The terminal phase is reached exactly by exhausting the
            // reconnect budget, and is never left.
            r.0.phase == SessionPhase::Fatal <==> self.phase == SessionPhase::Fatal || (self.phase
                == SessionPhase::Reconnecting && ev@ is DelayElapsed && self.attempts
                >= cfg.max_reconnect_attempts),
            // A successful connect resets the attempt counter; nothing
            // else ever lowers it.
            self.phase == SessionPhase::Connecting && ev@ is ConnectSucceeded ==> r.0.attempts
                == 0,
            !(self.phase == SessionPhase::Connecting && ev@ is ConnectSucceeded)
                ==> r.0.attempts >= self.attempts,
    {
        match ev {
            SessionEvent::Start => {
                if self.phase == SessionPhase::Disconnected {
                    (
                        SessionState { phase: SessionPhase::Connecting, attempts: self.attempts },
                        SessionAction::StartConnect,
                    )
                } else {
                    (self, SessionAction::Idle)
                }
            },
            SessionEvent::ConnectSucceeded => {
                if self.phase == SessionPhase::Connecting {
                    (
                        SessionState { phase: SessionPhase::Streaming, attempts: 0 },
                        SessionAction::Idle,
                    )
                } else {
                    (self, SessionAction::Idle)
                }
            },
            SessionEvent::ConnectFailed => {
                if self.phase == SessionPhase::Connecting {
                    (
                        SessionState {
                            phase: SessionPhase::Reconnecting,
                            attempts: bump(self.attempts),
                        },
                        SessionAction::Wait(cfg.reconnect_delay_ms),
                    )
                } else {
                    (self, SessionAction::Idle)
                }
            },
            SessionEvent::FrameReceived => {
                if self.phase == SessionPhase::Streaming {
                    (self, SessionAction::ProcessFrame)
                } else {
                    (self, SessionAction::Idle)
                }
            },
            SessionEvent::PingReceived(p) => {
                if self.phase == SessionPhase::Streaming {
                    (self, SessionAction::SendPong(p))
                } else {
                    (self, SessionAction::Idle)
                }
            },
            SessionEvent::CloseReceived | SessionEvent::ReadFailed | SessionEvent::StreamEnded => {
                if self.phase == SessionPhase::Streaming {
                    (
                        SessionState {
                            phase: SessionPhase::Reconnecting,
                            attempts: bump(self.attempts),
                        },
                        SessionAction::Wait(cfg.reconnect_delay_ms),
                    )
                } else {
                    (self, SessionAction::Idle)
                }
            },
            SessionEvent::DelayElapsed => {
                if self.phase == SessionPhase::Reconnecting {
                    if self.attempts >= cfg.max_reconnect_attempts {
                        (
                            SessionState { phase: SessionPhase::Fatal, attempts: self.attempts },
                            SessionAction::ReportFatal(FeedError::Fatal),
                        )
                    } else {
                        (
                            SessionState {
                                phase: SessionPhase::Connecting,
                                attempts: self.attempts,
                            },
                            SessionAction::StartConnect,
                        )
                    }
                } else {
                    (self, SessionAction::Idle)
                }
            },
        }
    }
}

/// One more failed attempt, capped at the counter's range.
fn bump(a: u8) -> (r: u8)
    ensures
        r == spec_bump(a),
{
    if a == 255 {
        255
    } else {
        a + 1
    }
}

} // verus!
