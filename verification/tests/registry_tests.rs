use realtime::registry::Registry;
use realtime::scope::{ReadWrite, Scope, ScopeSet};

fn set_of(scopes: &[Scope]) -> ScopeSet {
    let mut s = ScopeSet::new();
    for sc in scopes {
        s.insert(*sc);
    }
    s
}

#[test]
fn user_key_exists_iff_a_live_session_exists() {
    let mut reg: Registry<u32> = Registry::new();
    assert!(!reg.user_online(1));
    assert!(reg.sessions_for_user(1).is_none());

    reg.register_session(1, 10, None, 100);
    assert!(reg.user_online(1));
    assert_eq!(reg.sessions_for_user(1).unwrap().len(), 1);

    reg.register_session(1, 11, None, 101);
    assert_eq!(reg.sessions_for_user(1).unwrap().len(), 2);

    let was_last = reg.deregister_session(1, 10);
    assert!(!was_last);
    assert!(reg.user_online(1));
    assert_eq!(reg.sessions_for_user(1).unwrap().len(), 1);

    let was_last = reg.deregister_session(1, 11);
    assert!(was_last);
    assert!(!reg.user_online(1));
    assert!(reg.sessions_for_user(1).is_none());
}

#[test]
fn interleaved_sequences_leave_no_dangling_entries() {
    let mut reg: Registry<u32> = Registry::new();
    reg.register_session(1, 10, None, 0);
    reg.register_session(2, 20, None, 0);
    reg.register_session(1, 11, None, 0);
    reg.register_session(3, 30, None, 0);
    assert!(reg.deregister_session(2, 20));
    assert!(!reg.deregister_session(1, 10));
    assert!(reg.deregister_session(3, 30));
    assert!(reg.user_online(1));
    assert!(!reg.user_online(2));
    assert!(!reg.user_online(3));
    assert!(reg.deregister_session(1, 11));
    assert!(!reg.user_online(1));
}

#[test]
fn deregistering_unknown_sessions_changes_nothing() {
    let mut reg: Registry<u32> = Registry::new();
    assert!(!reg.deregister_session(7, 70));
    reg.register_session(7, 70, None, 0);
    assert!(!reg.deregister_session(7, 71));
    assert!(reg.user_online(7));
    assert!(!reg.deregister_session(8, 70));
    assert!(reg.user_online(7));
}

#[test]
fn reregistering_replaces_rather_than_duplicates() {
    let mut reg: Registry<u32> = Registry::new();
    reg.register_session(1, 10, Some(set_of(&[Scope::Servers(ReadWrite::Read)])), 100);
    reg.register_session(1, 10, Some(set_of(&[Scope::Messages(ReadWrite::Write)])), 200);

    let sessions = reg.sessions_for_user(1).unwrap();
    assert_eq!(sessions.len(), 1);
    assert_eq!(sessions[0].session_id, 10);
    assert_eq!(sessions[0].handle, 200);
    let scopes = sessions[0].scopes.as_ref().unwrap();
    assert!(scopes.contains(Scope::Messages(ReadWrite::Write)));
    assert!(!scopes.contains(Scope::Servers(ReadWrite::Read)));
}

#[test]
fn reregistering_to_the_unrestricted_grant() {
    let mut reg: Registry<u32> = Registry::new();
    reg.register_session(1, 10, Some(set_of(&[Scope::Servers(ReadWrite::Read)])), 100);
    reg.register_session(1, 10, None, 101);
    let sessions = reg.sessions_for_user(1).unwrap();
    assert_eq!(sessions.len(), 1);
    assert!(sessions[0].scopes.is_none());
}

#[test]
fn session_handles_are_retrievable() {
    let mut reg: Registry<&'static str> = Registry::new();
    reg.register_session(1, 10, None, "a");
    reg.register_session(1, 11, None, "b");
    assert_eq!(reg.session_handle(1, 10), Some(&"a"));
    assert_eq!(reg.session_handle(1, 11), Some(&"b"));
    assert_eq!(reg.session_handle(1, 12), None);
    assert_eq!(reg.session_handle(2, 10), None);
}

#[test]
fn room_key_exists_iff_a_member_is_online() {
    let mut reg: Registry<u32> = Registry::new();
    assert_eq!(reg.members_of_room(42).len(), 0);

    reg.sync_room_membership(42, 1, true);
    assert_eq!(reg.members_of_room(42), vec![1]);

    reg.sync_room_membership(42, 2, true);
    assert_eq!(reg.members_of_room(42), vec![1, 2]);

    // Adding an already-listed member changes nothing.
    reg.sync_room_membership(42, 1, true);
    assert_eq!(reg.members_of_room(42), vec![1, 2]);

    reg.sync_room_membership(42, 1, false);
    assert_eq!(reg.members_of_room(42), vec![2]);

    // Removing an absent member changes nothing.
    reg.sync_room_membership(42, 3, false);
    assert_eq!(reg.members_of_room(42), vec![2]);

    reg.sync_room_membership(42, 2, false);
    assert_eq!(reg.members_of_room(42).len(), 0);
}

#[test]
fn close_session_prunes_rooms_only_after_the_last_session() {
    let mut reg: Registry<u32> = Registry::new();
    reg.register_session(1, 10, None, 0);
    reg.register_session(1, 11, None, 0);
    reg.sync_room_membership(5, 1, true);
    reg.sync_room_membership(6, 1, true);
    reg.sync_room_membership(5, 2, true);

    // Not the last session: memberships stay.
    assert!(!reg.close_session(1, 10, &vec![5, 6]));
    assert_eq!(reg.members_of_room(5), vec![1, 2]);
    assert_eq!(reg.members_of_room(6), vec![1]);

    // The last session: the user leaves both rooms; other members stay.
    assert!(reg.close_session(1, 11, &vec![5, 6]));
    assert!(!reg.user_online(1));
    assert_eq!(reg.members_of_room(5), vec![2]);
    assert!(reg.members_of_room(6).is_empty());
}

#[test]
fn rooms_are_independent() {
    let mut reg: Registry<u32> = Registry::new();
    reg.sync_room_membership(1, 10, true);
    reg.sync_room_membership(2, 20, true);
    reg.sync_room_membership(1, 10, false);
    assert_eq!(reg.members_of_room(1).len(), 0);
    assert_eq!(reg.members_of_room(2), vec![20]);
}
