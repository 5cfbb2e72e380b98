use spoof::server::{
    conn_step, is_connection_error, server_step, AcceptErrorKind, ConnAction, ConnEvent,
    ConnState, ServerAction, ServerEvent, ServerState,
};

#[test]
fn accepting_spawns_and_counts_connections() {
    let (s, a) = server_step(ServerState::Accepting { open: 0 }, ServerEvent::Accepted);
    assert_eq!(s, ServerState::Accepting { open: 1 });
    assert_eq!(a, ServerAction::ServeConnection);
}

#[test]
fn transient_accept_errors_continue_and_others_back_off() {
    let s = ServerState::Accepting { open: 0 };
    let (_, cont) = server_step(s, ServerEvent::AcceptFailed { transient: true });
    assert_eq!(cont, ServerAction::KeepAccepting);
    let (_, retry) = server_step(s, ServerEvent::AcceptFailed { transient: false });
    assert_eq!(retry, ServerAction::RetryAfterBackoff);
}

#[test]
fn shutdown_with_open_connections_drains_before_stopping() {
    let (s1, a1) = server_step(ServerState::Accepting { open: 1 }, ServerEvent::ShutdownSignalled);
    assert_eq!(s1, ServerState::ShuttingDown { open: 1 });
    assert_eq!(a1, ServerAction::BeginDrain);
    let (s2, a2) = server_step(s1, ServerEvent::ConnectionFinished);
    assert_eq!(s2, ServerState::Stopped);
    assert_eq!(a2, ServerAction::Finish);
}

#[test]
fn shutdown_with_nothing_open_stops_at_once() {
    let (s, a) = server_step(ServerState::Accepting { open: 0 }, ServerEvent::ShutdownSignalled);
    assert_eq!(s, ServerState::Stopped);
    assert_eq!(a, ServerAction::Finish);
}

#[test]
fn draining_counts_down_every_connection() {
    let mut s = ServerState::ShuttingDown { open: 3 };
    let (s1, a1) = server_step(s, ServerEvent::ConnectionFinished);
    assert_eq!(s1, ServerState::ShuttingDown { open: 2 });
    assert_eq!(a1, ServerAction::Wait);
    s = s1;
    let (s2, _) = server_step(s, ServerEvent::ConnectionFinished);
    let (s3, a3) = server_step(s2, ServerEvent::ConnectionFinished);
    assert_eq!(s3, ServerState::Stopped);
    assert_eq!(a3, ServerAction::Finish);
}

#[test]
fn a_busy_connection_finishes_its_request_before_closing() {
    let (busy, begin) = conn_step(ConnState::Idle, ConnEvent::RequestArrived);
    assert_eq!(busy, ConnState::Busy);
    assert_eq!(begin, ConnAction::BeginLookup);
    let (draining, act) = conn_step(busy, ConnEvent::ShutdownSignalled);
    assert_eq!(draining, ConnState::DrainingBusy);
    assert_eq!(act, ConnAction::FinishRequest);
    let (closed, closing) = conn_step(draining, ConnEvent::ResponseSent);
    assert_eq!(closed, ConnState::Closed);
    assert_eq!(closing, ConnAction::GoAwayAndClose);
}

#[test]
fn an_idle_connection_closes_on_shutdown() {
    let (s, a) = conn_step(ConnState::Idle, ConnEvent::ShutdownSignalled);
    assert_eq!(s, ConnState::Closed);
    assert_eq!(a, ConnAction::GoAwayAndClose);
}

#[test]
fn a_draining_connection_starts_no_new_lookup() {
    let (s, a) = conn_step(ConnState::DrainingBusy, ConnEvent::RequestArrived);
    assert_eq!(s, ConnState::DrainingBusy);
    assert_eq!(a, ConnAction::RejectRequest);
}

#[test]
fn connection_error_classification() {
    assert!(is_connection_error(&AcceptErrorKind::ConnectionRefused));
    assert!(is_connection_error(&AcceptErrorKind::ConnectionAborted));
    assert!(is_connection_error(&AcceptErrorKind::ConnectionReset));
    assert!(!is_connection_error(&AcceptErrorKind::Other));
}
