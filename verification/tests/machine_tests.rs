use realtime::machine::{
    AuthAction, AuthFrameDecision, AuthTickAction, CloseReason, Connection, HeartbeatAction, Phase,
};
use realtime::machine::{
    AUTHENTICATION_TIMEOUT_SECS, HEARTBEAT_TIMEOUT_SECS, REAUTHENTICATION_GRACE_SECS,
    REAUTHENTICATION_INTERVAL_SECS,
};
use realtime::scope::{ReadWrite, Scope, ScopeSet};

fn scopes(list: &[Scope]) -> Option<ScopeSet> {
    let mut s = ScopeSet::new();
    for sc in list {
        s.insert(*sc);
    }
    Some(s)
}

fn authenticate(c: &mut Connection, now: u64, user_id: u64) {
    assert_eq!(c.on_authenticate_frame(), AuthFrameDecision::Resolve);
    match c.on_identity_resolved(now, Some((user_id, None))) {
        AuthAction::Register { user_id: u, scopes: s, sync_rooms } => {
            assert_eq!(u, user_id);
            assert!(s.is_none());
            assert!(sync_rooms);
        }
        AuthAction::Close => panic!("authentication should have succeeded"),
    }
    assert_eq!(c.phase(), Phase::Authenticated { user_id });
}

#[test]
fn connection_starts_anonymous() {
    let c = Connection::new(100);
    assert_eq!(c.phase(), Phase::Connecting);
    assert!(!c.is_closed());
    assert_eq!(c.close_reason(), None);
    assert_eq!(c.authenticated_user(), None);
}

#[test]
fn authentication_deadline_is_enforced_exactly() {
    // Still within the deadline: nothing happens.
    let mut c = Connection::new(100);
    assert_eq!(c.on_auth_tick(100 + AUTHENTICATION_TIMEOUT_SECS), AuthTickAction::Wait);
    assert_eq!(c.phase(), Phase::Connecting);

    // One second past the deadline: closed.
    assert_eq!(c.on_auth_tick(100 + AUTHENTICATION_TIMEOUT_SECS + 1), AuthTickAction::Close);
    assert_eq!(c.close_reason(), Some(CloseReason::Unauthorized));
}

#[test]
fn heartbeat_timeout_is_enforced_exactly() {
    let mut c = Connection::new(0);
    c.on_heartbeat(5);
    assert_eq!(c.on_heartbeat_tick(5 + HEARTBEAT_TIMEOUT_SECS), HeartbeatAction::Ping);
    assert_eq!(c.phase(), Phase::Connecting);
    assert_eq!(c.on_heartbeat_tick(5 + HEARTBEAT_TIMEOUT_SECS + 1), HeartbeatAction::Close);
    assert_eq!(c.close_reason(), Some(CloseReason::HeartbeatTimeout));
}

#[test]
fn heartbeat_timeout_applies_while_authenticated() {
    let mut c = Connection::new(0);
    authenticate(&mut c, 1, 7);
    assert_eq!(c.on_heartbeat_tick(HEARTBEAT_TIMEOUT_SECS + 1), HeartbeatAction::Close);
    assert_eq!(c.close_reason(), Some(CloseReason::HeartbeatTimeout));
    // The identity is still known for deregistration.
    assert_eq!(c.authenticated_user(), Some(7));
}

#[test]
fn successful_authentication_registers_and_syncs() {
    let mut c = Connection::new(100);
    assert_eq!(c.on_authenticate_frame(), AuthFrameDecision::Resolve);
    match c.on_identity_resolved(105, Some((9, scopes(&[Scope::Messages(ReadWrite::Read)])))) {
        AuthAction::Register { user_id, scopes: s, sync_rooms } => {
            assert_eq!(user_id, 9);
            assert!(s.is_some());
            assert!(sync_rooms);
        }
        AuthAction::Close => panic!("authentication should have succeeded"),
    }
    assert_eq!(c.phase(), Phase::Authenticated { user_id: 9 });
    assert_eq!(c.authenticated_user(), Some(9));
}

#[test]
fn failed_resolution_closes_unauthorized() {
    let mut c = Connection::new(100);
    assert_eq!(c.on_authenticate_frame(), AuthFrameDecision::Resolve);
    match c.on_identity_resolved(101, None) {
        AuthAction::Close => {}
        AuthAction::Register { .. } => panic!("resolution failed, nothing to register"),
    }
    assert_eq!(c.close_reason(), Some(CloseReason::Unauthorized));
}

#[test]
fn second_authenticate_while_authenticated_is_refused() {
    let mut c = Connection::new(0);
    authenticate(&mut c, 1, 4);
    assert_eq!(c.on_authenticate_frame(), AuthFrameDecision::Refuse);
    assert_eq!(c.close_reason(), Some(CloseReason::CannotReauthenticate));
}

#[test]
fn reauthentication_is_requested_after_the_interval() {
    let mut c = Connection::new(0);
    authenticate(&mut c, 10, 4);
    let due = 10 + REAUTHENTICATION_INTERVAL_SECS;
    assert_eq!(c.on_auth_tick(due), AuthTickAction::Wait);
    assert_eq!(c.phase(), Phase::Authenticated { user_id: 4 });
    assert_eq!(c.on_auth_tick(due + 1), AuthTickAction::RequestReauth);
    assert_eq!(c.phase(), Phase::ReauthPending { user_id: 4 });
}

#[test]
fn reauthentication_grace_period_is_enforced_exactly() {
    let mut c = Connection::new(0);
    authenticate(&mut c, 10, 4);
    let requested_at = 10 + REAUTHENTICATION_INTERVAL_SECS + 1;
    assert_eq!(c.on_auth_tick(requested_at), AuthTickAction::RequestReauth);

    assert_eq!(c.on_auth_tick(requested_at + REAUTHENTICATION_GRACE_SECS), AuthTickAction::Wait);
    assert_eq!(c.phase(), Phase::ReauthPending { user_id: 4 });

    assert_eq!(
        c.on_auth_tick(requested_at + REAUTHENTICATION_GRACE_SECS + 1),
        AuthTickAction::Close
    );
    assert_eq!(c.close_reason(), Some(CloseReason::Unauthorized));
    assert_eq!(c.authenticated_user(), Some(4));
}

#[test]
fn reauthentication_with_the_same_user_returns_to_authenticated() {
    let mut c = Connection::new(0);
    authenticate(&mut c, 10, 4);
    let requested_at = 10 + REAUTHENTICATION_INTERVAL_SECS + 1;
    assert_eq!(c.on_auth_tick(requested_at), AuthTickAction::RequestReauth);

    assert_eq!(c.on_authenticate_frame(), AuthFrameDecision::Resolve);
    match c.on_identity_resolved(requested_at + 2, Some((4, scopes(&[])))) {
        AuthAction::Register { user_id, sync_rooms, .. } => {
            assert_eq!(user_id, 4);
            assert!(!sync_rooms);
        }
        AuthAction::Close => panic!("reauthentication should have succeeded"),
    }
    assert_eq!(c.phase(), Phase::Authenticated { user_id: 4 });

    // The credential clock was reset: the next request is due a full
    // interval later.
    let next_due = requested_at + 2 + REAUTHENTICATION_INTERVAL_SECS;
    assert_eq!(c.on_auth_tick(next_due), AuthTickAction::Wait);
    assert_eq!(c.on_auth_tick(next_due + 1), AuthTickAction::RequestReauth);
}

#[test]
fn reauthentication_as_a_different_user_is_a_policy_violation() {
    let mut c = Connection::new(0);
    authenticate(&mut c, 10, 4);
    let requested_at = 10 + REAUTHENTICATION_INTERVAL_SECS + 1;
    assert_eq!(c.on_auth_tick(requested_at), AuthTickAction::RequestReauth);

    assert_eq!(c.on_authenticate_frame(), AuthFrameDecision::Resolve);
    match c.on_identity_resolved(requested_at + 2, Some((5, None))) {
        AuthAction::Close => {}
        AuthAction::Register { .. } => panic!("a session may not change identity"),
    }
    assert_eq!(c.close_reason(), Some(CloseReason::Unauthorized));
    assert_eq!(c.authenticated_user(), Some(4));
}

#[test]
fn close_reasons_map_to_wire_codes() {
    assert_eq!(CloseReason::ClientClosed.code(), 1000);
    assert_eq!(CloseReason::ProtocolError.code(), 1007);
    assert_eq!(CloseReason::CannotReauthenticate.code(), 1008);
    assert_eq!(CloseReason::Unauthorized.code(), 1008);
    assert_eq!(CloseReason::HeartbeatTimeout.code(), 1008);
    assert_eq!(CloseReason::InternalError.code(), 1011);

    assert_eq!(CloseReason::CannotReauthenticate.description(), Some("Cannot reauthenticate"));
    assert_eq!(CloseReason::Unauthorized.description(), Some("Unauthorized"));
    assert_eq!(CloseReason::HeartbeatTimeout.description(), Some("Heartbeat timeout"));
    assert_eq!(CloseReason::ClientClosed.description(), None);
    assert_eq!(CloseReason::ProtocolError.description(), None);
    assert_eq!(CloseReason::InternalError.description(), None);
}

#[test]
fn client_close_and_protocol_errors_are_terminal() {
    let mut c = Connection::new(0);
    c.on_close_frame();
    assert_eq!(c.close_reason(), Some(CloseReason::ClientClosed));

    let mut c = Connection::new(0);
    authenticate(&mut c, 1, 2);
    c.on_protocol_error();
    assert_eq!(c.close_reason(), Some(CloseReason::ProtocolError));
    assert_eq!(c.authenticated_user(), Some(2));

    let mut c = Connection::new(0);
    c.on_internal_error();
    assert_eq!(c.close_reason(), Some(CloseReason::InternalError));
}
