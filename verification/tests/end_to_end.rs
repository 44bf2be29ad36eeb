//! One connection lifecycle driven end to end: authenticate, sync a room,
//! receive scope-filtered events, disconnect, and stop receiving.

use realtime::fanout::{publish, Event, EventKind};
use realtime::machine::{AuthAction, AuthFrameDecision, Connection, Phase};
use realtime::registry::Registry;
use realtime::scope::{ReadWrite, Scope, ScopeSet};

const ROOM: u64 = 42;

fn event(kind: EventKind, payload: &str) -> Event {
    Event { kind, payload: payload.to_string() }
}

#[test]
fn room_broadcast_lifecycle() {
    let mut reg: Registry<u32> = Registry::new();
    let mut conn = Connection::new(0);
    let session_id = 1000;
    let handle = 7;

    // User A authenticates with { Servers-Write, Messages-Read }.
    let mut granted = ScopeSet::new();
    granted.insert(Scope::Servers(ReadWrite::Write));
    granted.insert(Scope::Messages(ReadWrite::Read));

    assert_eq!(conn.on_authenticate_frame(), AuthFrameDecision::Resolve);
    match conn.on_identity_resolved(1, Some((1, Some(granted)))) {
        AuthAction::Register { user_id, scopes, sync_rooms } => {
            assert!(sync_rooms);
            reg.register_session(user_id, session_id, scopes, handle);
            // Durable storage says the user belongs to one room.
            reg.sync_room_membership(ROOM, user_id, true);
        }
        AuthAction::Close => panic!("authentication should have succeeded"),
    }
    assert_eq!(conn.phase(), Phase::Authenticated { user_id: 1 });
    assert_eq!(reg.members_of_room(ROOM), vec![1]);

    // A member-create event requires Servers-Read: delivered, because
    // Servers-Write implies it.
    let events = vec![event(EventKind::MemberCreate, "{\"member\":1}")];
    let plan = publish(&reg, &events, &reg.members_of_room(ROOM));
    assert_eq!(plan.len(), 1);
    assert_eq!(plan[0].user_id, 1);
    assert_eq!(plan[0].session_id, session_id);
    assert_eq!(reg.session_handle(plan[0].user_id, plan[0].session_id), Some(&handle));
    assert_eq!(events[plan[0].event_index].payload, "{\"member\":1}");

    // A message-create event requires Messages-Read: granted outright.
    let events = vec![event(EventKind::MessageCreate, "{\"id\":5}")];
    let plan = publish(&reg, &events, &reg.members_of_room(ROOM));
    assert_eq!(plan.len(), 1);

    // A disconnects: the close frame arrives, the session deregisters, and
    // the emptied user is pruned from its rooms.
    conn.on_close_frame();
    assert!(conn.is_closed());
    if let Some(user_id) = conn.authenticated_user() {
        let was_last = reg.deregister_session(user_id, session_id);
        assert!(was_last);
        reg.sync_room_membership(ROOM, user_id, false);
    }
    assert!(reg.members_of_room(ROOM).is_empty());
    assert!(!reg.user_online(1));

    // A further room publish finds no recipients and attempts no delivery.
    let events = vec![event(EventKind::MessageCreate, "{\"id\":6}")];
    let plan = publish(&reg, &events, &reg.members_of_room(ROOM));
    assert!(plan.is_empty());
}

#[test]
fn two_members_with_different_grants() {
    let mut reg: Registry<u32> = Registry::new();

    let mut a = ScopeSet::new();
    a.insert(Scope::Servers(ReadWrite::Write));
    a.insert(Scope::Messages(ReadWrite::Read));
    reg.register_session(1, 10, Some(a), 0);
    reg.sync_room_membership(ROOM, 1, true);

    let mut b = ScopeSet::new();
    b.insert(Scope::Servers(ReadWrite::Read));
    reg.register_session(2, 20, Some(b), 0);
    reg.sync_room_membership(ROOM, 2, true);

    // Both see the membership change; only A sees the message.
    let events =
        vec![event(EventKind::MemberCreate, "{}"), event(EventKind::MessageCreate, "{}")];
    let plan = publish(&reg, &events, &reg.members_of_room(ROOM));
    let mut got: Vec<(u64, usize)> = plan.iter().map(|d| (d.user_id, d.event_index)).collect();
    got.sort();
    assert_eq!(got, vec![(1, 0), (1, 1), (2, 0)]);
}
