use binance_websocket::errors::FeedError;
use binance_websocket::session::SessionAction;
use binance_websocket::session::SessionConfig;
use binance_websocket::session::SessionEvent;
use binance_websocket::session::SessionPhase;
use binance_websocket::session::SessionState;

fn cfg() -> SessionConfig {
    SessionConfig { max_reconnect_attempts: 2, reconnect_delay_ms: 1000 }
}

#[test]
fn ping_answered_with_same_payload() {
    let s = SessionState { phase: SessionPhase::Streaming, attempts: 0 };
    let (next, action) = s.step(SessionEvent::PingReceived(vec![1, 2, 3]), &cfg());
    assert_eq!(next, s);
    assert_eq!(action, SessionAction::SendPong(vec![1, 2, 3]));
}

#[test]
fn start_begins_connecting() {
    let s = SessionState::new();
    assert_eq!(s.phase, SessionPhase::Disconnected);
    let (next, action) = s.step(SessionEvent::Start, &cfg());
    assert_eq!(next.phase, SessionPhase::Connecting);
    assert_eq!(action, SessionAction::StartConnect);
}

#[test]
fn successful_connect_resets_attempts() {
    let s = SessionState { phase: SessionPhase::Connecting, attempts: 1 };
    let (next, action) = s.step(SessionEvent::ConnectSucceeded, &cfg());
    assert_eq!(next, SessionState { phase: SessionPhase::Streaming, attempts: 0 });
    assert_eq!(action, SessionAction::Idle);
}

#[test]
fn close_triggers_reconnect_wait() {
    let s = SessionState { phase: SessionPhase::Streaming, attempts: 0 };
    let (next, action) = s.step(SessionEvent::CloseReceived, &cfg());
    assert_eq!(next, SessionState { phase: SessionPhase::Reconnecting, attempts: 1 });
    assert_eq!(action, SessionAction::Wait(1000));
}

#[test]
fn exhausted_budget_is_fatal() {
    let c = cfg();
    let mut s = SessionState::new();
    let (next, _) = s.step(SessionEvent::Start, &c);
    s = next;
    // First failure.
    let (next, action) = s.step(SessionEvent::ConnectFailed, &c);
    s = next;
    assert_eq!(s, SessionState { phase: SessionPhase::Reconnecting, attempts: 1 });
    assert_eq!(action, SessionAction::Wait(1000));
    let (next, action) = s.step(SessionEvent::DelayElapsed, &c);
    s = next;
    assert_eq!(s.phase, SessionPhase::Connecting);
    assert_eq!(action, SessionAction::StartConnect);
    // Second failure exhausts the budget of 2.
    let (next, _) = s.step(SessionEvent::ConnectFailed, &c);
    s = next;
    assert_eq!(s.attempts, 2);
    let (next, action) = s.step(SessionEvent::DelayElapsed, &c);
    s = next;
    assert_eq!(s.phase, SessionPhase::Fatal);
    assert_eq!(action, SessionAction::ReportFatal(FeedError::Fatal));
    // Fatal is terminal.
    let (next, action) = s.step(SessionEvent::DelayElapsed, &c);
    assert_eq!(next.phase, SessionPhase::Fatal);
    assert_eq!(action, SessionAction::Idle);
}

#[test]
fn irrelevant_event_leaves_state_alone() {
    let s = SessionState::new();
    let (next, action) = s.step(SessionEvent::PingReceived(vec![9]), &cfg());
    assert_eq!(next, s);
    assert_eq!(action, SessionAction::Idle);
}

#[test]
fn error_labels() {
    assert_eq!(FeedError::Protocol.label(), "protocol error");
    assert_eq!(FeedError::Fatal.label(), "max reconnect attempts reached");
    assert_eq!(FeedError::Connection.label(), "connection error");
    assert_eq!(FeedError::Sync.label(), "synchronization error");
    assert_eq!(FeedError::Fetch.label(), "snapshot fetch error");
    assert_eq!(FeedError::Transport.label(), "transport error");
}
