//! The per-connection protocol state machine.
//!
//! One instance drives one transport connection. The embedding program owns
//! the event loop: it feeds inbound frames, heartbeat ticks and
//! authentication ticks into the machine, performs the action each event
//! returns (send a ping, call the identity resolver, register or deregister
//! the session, close the transport), and reads the terminal close reason
//! once the machine is closed.
//!
//! The clock is the driver's monotonic clock in whole seconds since an
//! arbitrary origin; the machine never reads time itself.

use vstd::prelude::*;

use crate::scope::ScopeSet;

verus! {

/// How often the driver ticks the heartbeat timer.
pub const HEARTBEAT_INTERVAL_SECS: u64 = 5;

/// A connection without any liveness signal for longer than this is closed.
pub const HEARTBEAT_TIMEOUT_SECS: u64 = 10;

/// How often the driver ticks the authentication timer.
pub const AUTHENTICATION_INTERVAL_SECS: u64 = 10;

/// A connection that stays anonymous for longer than this is closed.
pub const AUTHENTICATION_TIMEOUT_SECS: u64 = 10;

/// An authenticated connection is asked to re-prove its credential after
/// this long.
pub const REAUTHENTICATION_INTERVAL_SECS: u64 = 600;

/// A connection that was asked to reauthenticate and has not done so within
/// this grace period is closed.
pub const REAUTHENTICATION_GRACE_SECS: u64 = 10;

/// The machine-readable reason carried by the close frame.
#[derive(Clone, Copy, Debug, PartialEq, Eq, Structural)]
pub enum CloseReason {
    /// The peer closed the connection itself.
    ClientClosed,
    /// A malformed frame or an inbound transport error.
    ProtocolError,
    /// An authenticate frame while already authenticated and not asked to
    /// reauthenticate.
    CannotReauthenticate,
    /// A failed credential check, a mismatched identity on
    /// reauthentication, or an expired authentication deadline.
    Unauthorized,
    /// No liveness signal within the heartbeat timeout.
    HeartbeatTimeout,
    /// The server could not complete registration (durable storage failed).
    InternalError,
}

impl CloseReason {
    /// The machine-readable close code of the close frame: normal closure
    /// for a client-initiated close, an invalid-frame code for protocol
    /// errors, a policy-violation code for every credential and timeout
    /// failure, and an internal-error code when the server could not finish
    /// registration.
    pub fn code(&self) -> (c: u16)
        ensures
            c == match *self {
                CloseReason::ClientClosed => 1000u16,
                CloseReason::ProtocolError => 1007u16,
                CloseReason::CannotReauthenticate => 1008u16,
                CloseReason::Unauthorized => 1008u16,
                CloseReason::HeartbeatTimeout => 1008u16,
                CloseReason::InternalError => 1011u16,
            },
    {
        match self {
            CloseReason::ClientClosed => 1000,
            CloseReason::ProtocolError => 1007,
            CloseReason::CannotReauthenticate => 1008,
            CloseReason::Unauthorized => 1008,
            CloseReason::HeartbeatTimeout => 1008,
            CloseReason::InternalError => 1011,
        }
    }

    /// The optional human-readable description of the close frame. Resolver
    /// failures, identity mismatches and expired deadlines all read
    /// the same: no detail about why a credential failed leaks to the
    /// client.
    pub fn description(&self) -> (d: Option<&'static str>)
        ensures
            match *self {
                CloseReason::CannotReauthenticate => d is Some && (d->Some_0)@
                    == "Cannot reauthenticate"@,
                CloseReason::Unauthorized => d is Some && (d->Some_0)@ == "Unauthorized"@,
                CloseReason::HeartbeatTimeout => d is Some && (d->Some_0)@
                    == "Heartbeat timeout"@,
                CloseReason::ClientClosed => d is None,
                CloseReason::ProtocolError => d is None,
                CloseReason::InternalError => d is None,
            },
    {
        match self {
            CloseReason::CannotReauthenticate => Some("Cannot reauthenticate"),
            CloseReason::Unauthorized => Some("Unauthorized"),
            CloseReason::HeartbeatTimeout => Some("Heartbeat timeout"),
            _ => None,
        }
    }
}

/// The protocol phase of a connection.
#[derive(Clone, Copy, Debug, PartialEq, Eq, Structural)]
pub enum Phase {
    /// Open but anonymous; must authenticate before the deadline.
    Connecting,
    /// Authenticated as this user.
    Authenticated { user_id: u64 },
    /// Asked to re-prove the credential; still delivers events.
    ReauthPending { user_id: u64 },
    /// Terminal.
    Closed { reason: CloseReason },
}

/// The decision on an inbound authenticate frame.
#[derive(Clone, Copy, Debug, PartialEq, Eq, Structural)]
pub enum AuthFrameDecision {
    /// Hand the bearer token to the identity resolver.
    Resolve,
    /// The frame was not allowed; the connection is now closed.
    Refuse,
}

/// What the driver must do after an identity resolution completed.
pub enum AuthAction {
    /// Close the transport with the machine's close reason.
    Close,
    /// Register the session under this user, overwriting scopes and handle on
    /// reauthentication. When `sync_rooms` is set this was the first
    /// authentication: fetch the user's room memberships from durable
    /// storage and sync each into the registry.
    Register { user_id: u64, scopes: Option<ScopeSet>, sync_rooms: bool },
}

/// What the driver must do after a heartbeat tick.
#[derive(Clone, Copy, Debug, PartialEq, Eq, Structural)]
pub enum HeartbeatAction {
    /// Send a transport-level ping.
    Ping,
    /// Close the transport with the machine's close reason.
    Close,
}

/// What the driver must do after an authentication tick.
#[derive(Clone, Copy, Debug, PartialEq, Eq, Structural)]
pub enum AuthTickAction {
    /// Nothing is due.
    Wait,
    /// Send the reauthenticate-request notice to the client.
    RequestReauth,
    /// Close the transport with the machine's close reason.
    Close,
}

/// The protocol state machine of one connection.
pub struct Connection {
    phase: Phase,
    auth_user: Option<u64>,
    connected_at: u64,
    last_heartbeat: u64,
    last_auth: u64,
    reauth_requested_at: u64,
}

impl Connection {
    /// The current protocol phase.
    pub closed spec fn spec_phase(self) -> Phase {
        self.phase
    }

    /// The identity this connection ever authenticated as; survives closing,
    /// so the driver knows which session to deregister.
    pub closed spec fn spec_auth_user(self) -> Option<u64> {
        self.auth_user
    }

    /// When the connection was opened.
    pub closed spec fn spec_connected_at(self) -> u64 {
        self.connected_at
    }

    /// When the last liveness signal (ping or pong) arrived.
    pub closed spec fn spec_last_heartbeat(self) -> u64 {
        self.last_heartbeat
    }

    /// When the connection last (re)authenticated.
    pub closed spec fn spec_last_auth(self) -> u64 {
        self.last_auth
    }

    /// When the pending reauthentication request was sent.
    pub closed spec fn spec_reauth_requested_at(self) -> u64 {
        self.reauth_requested_at
    }

    /// Every timestamp the machine recorded is no later than `t`. The driver
    /// reads a monotonic clock, so this holds for every later instant too.
    pub closed spec fn timestamps_le(self, t: u64) -> bool {
        &&& self.connected_at <= t
        &&& self.last_heartbeat <= t
        &&& self.last_auth <= t
        &&& self.reauth_requested_at <= t
    }

    /// The authenticated phases carry exactly the remembered identity.
    pub closed spec fn wf(self) -> bool {
        match self.phase {
            Phase::Connecting => self.auth_user is None,
            Phase::Authenticated { user_id } => self.auth_user == Some(user_id),
            Phase::ReauthPending { user_id } => self.auth_user == Some(user_id),
            Phase::Closed { .. } => true,
        }
    }

    /// A connection that was within bounds at one instant is within bounds at
    /// every later instant.
    pub proof fn lemma_timestamps_monotonic(self, t1: u64, t2: u64)
        requires
            self.timestamps_le(t1),
            t1 <= t2,
        ensures
            self.timestamps_le(t2),
    {
    }

    /// A fresh, anonymous connection opened at `now`.
    pub fn new(now: u64) -> (c: Connection)
        ensures
            c.wf(),
            c.timestamps_le(now),
            c.spec_phase() == Phase::Connecting,
            c.spec_auth_user() is None,
            c.spec_connected_at() == now,
            c.spec_last_heartbeat() == now,
    {
        Connection {
            phase: Phase::Connecting,
            auth_user: None,
            connected_at: now,
            last_heartbeat: now,
            last_auth: now,
            reauth_requested_at: now,
        }
    }

    /// The current protocol phase.
    pub fn phase(&self) -> (p: Phase)
        ensures
            p == self.spec_phase(),
    {
        self.phase
    }

    /// Whether the machine reached its terminal phase.
    pub fn is_closed(&self) -> (r: bool)
        ensures
            r == (self.spec_phase() is Closed),
    {
        match self.phase {
            Phase::Closed { .. } => true,
            _ => false,
        }
    }

    /// The terminal close reason, once closed.
    pub fn close_reason(&self) -> (r: Option<CloseReason>)
        ensures
            match self.spec_phase() {
                Phase::Closed { reason } => r == Some(reason),
                _ => r is None,
            },
    {
        match self.phase {
            Phase::Closed { reason } => Some(reason),
            _ => None,
        }
    }

    /// The identity this connection ever authenticated as. When the machine
    /// closes and this is `Some`, the driver must deregister the session and,
    /// when that removed the user's last session, prune the user from the
    /// room-membership index (re-derived from durable storage).
    pub fn authenticated_user(&self) -> (r: Option<u64>)
        ensures
            r == self.spec_auth_user(),
    {
        self.auth_user
    }

    /// The peer closed the connection.
    pub fn on_close_frame(&mut self)
        requires
            old(self).wf(),
        ensures
            final(self).wf(),
            final(self).spec_phase() == (Phase::Closed { reason: CloseReason::ClientClosed }),
            final(self).spec_auth_user() == old(self).spec_auth_user(),
    {
        self.phase = Phase::Closed { reason: CloseReason::ClientClosed };
    }

    /// A malformed frame or an inbound transport error arrived: the
    /// connection closes with a protocol-error reason, in every phase.
    pub fn on_protocol_error(&mut self)
        requires
            old(self).wf(),
        ensures
            final(self).wf(),
            final(self).spec_phase() == (Phase::Closed { reason: CloseReason::ProtocolError }),
            final(self).spec_auth_user() == old(self).spec_auth_user(),
    {
        self.phase = Phase::Closed { reason: CloseReason::ProtocolError };
    }

    /// Registration could not be completed on the server side.
    pub fn on_internal_error(&mut self)
        requires
            old(self).wf(),
        ensures
            final(self).wf(),
            final(self).spec_phase() == (Phase::Closed { reason: CloseReason::InternalError }),
            final(self).spec_auth_user() == old(self).spec_auth_user(),
    {
        self.phase = Phase::Closed { reason: CloseReason::InternalError };
    }

    /// A transport-level liveness signal (ping or pong) arrived at `now`.
    /// Liveness is observed in every phase, independent of authentication.
    pub fn on_heartbeat(&mut self, now: u64)
        requires
            old(self).wf(),
            old(self).timestamps_le(now),
        ensures
            final(self).wf(),
            final(self).timestamps_le(now),
            final(self).spec_phase() == old(self).spec_phase(),
            final(self).spec_auth_user() == old(self).spec_auth_user(),
            final(self).spec_last_heartbeat() == now,
            final(self).spec_connected_at() == old(self).spec_connected_at(),
            final(self).spec_last_auth() == old(self).spec_last_auth(),
            final(self).spec_reauth_requested_at() == old(self).spec_reauth_requested_at(),
    {
        self.last_heartbeat = now;
    }

    /// An authenticate frame arrived. While anonymous or asked to
    /// reauthenticate the token goes to the identity resolver; while
    /// authenticated a second handshake is a policy violation and closes the
    /// connection. The handshake is strictly sequential: the driver awaits
    /// the resolver before reading the next frame.
    pub fn on_authenticate_frame(&mut self) -> (d: AuthFrameDecision)
        requires
            old(self).wf(),
            !(old(self).spec_phase() is Closed),
        ensures
            final(self).wf(),
            final(self).spec_auth_user() == old(self).spec_auth_user(),
            match old(self).spec_phase() {
                Phase::Connecting | Phase::ReauthPending { .. } => {
                    &&& d == AuthFrameDecision::Resolve
                    &&& *final(self) == *old(self)
                },
                Phase::Authenticated { .. } => {
                    &&& d == AuthFrameDecision::Refuse
                    &&& final(self).spec_phase() == (Phase::Closed {
                        reason: CloseReason::CannotReauthenticate,
                    })
                },
                Phase::Closed { .. } => false,
            },
    {
        match self.phase {
            Phase::Authenticated { .. } => {
                self.phase = Phase::Closed { reason: CloseReason::CannotReauthenticate };
                AuthFrameDecision::Refuse
            },
            _ => AuthFrameDecision::Resolve,
        }
    }

    /// The identity resolver answered at `now`. `None` stands for every
    /// resolver failure (invalid, expired or revoked token): the connection
    /// closes with the same unauthorized reason in all of them. On success
    /// while anonymous the session registers and the rooms are synced; on
    /// success while reauthenticating the same user re-registers (new scopes
    /// and handle) and a different user is a policy violation.
    pub fn on_identity_resolved(
        &mut self,
        now: u64,
        outcome: Option<(u64, Option<ScopeSet>)>,
    ) -> (act: AuthAction)
        requires
            old(self).wf(),
            old(self).timestamps_le(now),
            old(self).spec_phase() is Connecting || old(self).spec_phase() is ReauthPending,
        ensures
            final(self).wf(),
            final(self).timestamps_le(now),
            final(self).spec_connected_at() == old(self).spec_connected_at(),
            final(self).spec_last_heartbeat() == old(self).spec_last_heartbeat(),
            match outcome {
                None => {
                    &&& act is Close
                    &&& final(self).spec_phase() == (Phase::Closed {
                        reason: CloseReason::Unauthorized,
                    })
                    &&& final(self).spec_auth_user() == old(self).spec_auth_user()
                },
                Some((user_id, scopes)) => match old(self).spec_phase() {
                    Phase::Connecting => {
                        &&& act == (AuthAction::Register { user_id, scopes, sync_rooms: true })
                        &&& final(self).spec_phase() == (Phase::Authenticated { user_id })
                        &&& final(self).spec_auth_user() == Some(user_id)
                        &&& final(self).spec_last_auth() == now
                    },
                    Phase::ReauthPending { user_id: prev } => {
                        if prev == user_id {
                            &&& act == (AuthAction::Register {
                                user_id,
                                scopes,
                                sync_rooms: false,
                            })
                            &&& final(self).spec_phase() == (Phase::Authenticated { user_id })
                            &&& final(self).spec_auth_user() == Some(user_id)
                            &&& final(self).spec_last_auth() == now
                        } else {
                            &&& act is Close
                            &&& final(self).spec_phase() == (Phase::Closed {
                                reason: CloseReason::Unauthorized,
                            })
                            &&& final(self).spec_auth_user() == old(self).spec_auth_user()
                        }
                    },
                    _ => false,
                },
            },
    {
        match outcome {
            None => {
                self.phase = Phase::Closed { reason: CloseReason::Unauthorized };
                AuthAction::Close
            },
            Some((user_id, scopes)) => {
                match self.phase {
                    Phase::Connecting => {
                        self.phase = Phase::Authenticated { user_id };
                        self.auth_user = Some(user_id);
                        self.last_auth = now;
                        AuthAction::Register { user_id, scopes, sync_rooms: true }
                    },
                    Phase::ReauthPending { user_id: prev } => {
                        if prev == user_id {
                            self.phase = Phase::Authenticated { user_id };
                            self.last_auth = now;
                            AuthAction::Register { user_id, scopes, sync_rooms: false }
                        } else {
                            self.phase = Phase::Closed { reason: CloseReason::Unauthorized };
                            AuthAction::Close
                        }
                    },
                    _ => {
                        // Unreachable under the precondition.
                        AuthAction::Close
                    },
                }
            },
        }
    }

    /// The heartbeat timer ticked at `now`: the connection closes exactly
    /// when the last liveness signal is older than the heartbeat timeout,
    /// and otherwise a ping goes out, in every phase.
    pub fn on_heartbeat_tick(&mut self, now: u64) -> (a: HeartbeatAction)
        requires
            old(self).wf(),
            old(self).timestamps_le(now),
            !(old(self).spec_phase() is Closed),
        ensures
            final(self).wf(),
            final(self).timestamps_le(now),
            final(self).spec_auth_user() == old(self).spec_auth_user(),
            now - old(self).spec_last_heartbeat() > HEARTBEAT_TIMEOUT_SECS ==> {
                &&& a == HeartbeatAction::Close
                &&& final(self).spec_phase() == (Phase::Closed {
                    reason: CloseReason::HeartbeatTimeout,
                })
            },
            now - old(self).spec_last_heartbeat() <= HEARTBEAT_TIMEOUT_SECS ==> {
                &&& a == HeartbeatAction::Ping
                &&& *final(self) == *old(self)
            },
    {
        if now - self.last_heartbeat > HEARTBEAT_TIMEOUT_SECS {
            self.phase = Phase::Closed { reason: CloseReason::HeartbeatTimeout };
            HeartbeatAction::Close
        } else {
            HeartbeatAction::Ping
        }
    }

    /// The authentication timer ticked at `now`. This clause is the deadline
    /// rule: an anonymous connection closes exactly when it is older than the
    /// authentication timeout; an authenticated one is asked to reauthenticate
    /// exactly when its credential is older than the reauthentication
    /// interval; one asked to reauthenticate closes exactly when the request
    /// is older than the grace period.
    pub fn on_auth_tick(&mut self, now: u64) -> (a: AuthTickAction)
        requires
            old(self).wf(),
            old(self).timestamps_le(now),
            !(old(self).spec_phase() is Closed),
        ensures
            final(self).wf(),
            final(self).timestamps_le(now),
            final(self).spec_last_heartbeat() == old(self).spec_last_heartbeat(),
            match old(self).spec_phase() {
                Phase::Connecting => {
                    if now - old(self).spec_connected_at() > AUTHENTICATION_TIMEOUT_SECS {
                        &&& a == AuthTickAction::Close
                        &&& final(self).spec_phase() == (Phase::Closed {
                            reason: CloseReason::Unauthorized,
                        })
                        &&& final(self).spec_auth_user() == old(self).spec_auth_user()
                    } else {
                        &&& a == AuthTickAction::Wait
                        &&& *final(self) == *old(self)
                    }
                },
                Phase::Authenticated { user_id } => {
                    if now - old(self).spec_last_auth() > REAUTHENTICATION_INTERVAL_SECS {
                        &&& a == AuthTickAction::RequestReauth
                        &&& final(self).spec_phase() == (Phase::ReauthPending { user_id })
                        &&& final(self).spec_reauth_requested_at() == now
                        &&& final(self).spec_auth_user() == old(self).spec_auth_user()
                        &&& final(self).spec_last_auth() == old(self).spec_last_auth()
                    } else {
                        &&& a == AuthTickAction::Wait
                        &&& *final(self) == *old(self)
                    }
                },
                Phase::ReauthPending { .. } => {
                    if now - old(self).spec_reauth_requested_at() > REAUTHENTICATION_GRACE_SECS {
                        &&& a == AuthTickAction::Close
                        &&& final(self).spec_phase() == (Phase::Closed {
                            reason: CloseReason::Unauthorized,
                        })
                        &&& final(self).spec_auth_user() == old(self).spec_auth_user()
                    } else {
                        &&& a == AuthTickAction::Wait
                        &&& *final(self) == *old(self)
                    }
                },
                Phase::Closed { .. } => false,
            },
    {
        match self.phase {
            Phase::Connecting => {
                if now - self.connected_at > AUTHENTICATION_TIMEOUT_SECS {
                    self.phase = Phase::Closed { reason: CloseReason::Unauthorized };
                    AuthTickAction::Close
                } else {
                    AuthTickAction::Wait
                }
            },
            Phase::Authenticated { user_id } => {
                if now - self.last_auth > REAUTHENTICATION_INTERVAL_SECS {
                    self.phase = Phase::ReauthPending { user_id };
                    self.reauth_requested_at = now;
                    AuthTickAction::RequestReauth
                } else {
                    AuthTickAction::Wait
                }
            },
            Phase::ReauthPending { .. } => {
                if now - self.reauth_requested_at > REAUTHENTICATION_GRACE_SECS {
                    self.phase = Phase::Closed { reason: CloseReason::Unauthorized };
                    AuthTickAction::Close
                } else {
                    AuthTickAction::Wait
                }
            },
            Phase::Closed { .. } => {
                // Unreachable under the precondition.
                AuthTickAction::Wait
            },
        }
    }
}

} // verus!
