use realtime::models::{ChannelKind, Id, Identity, OptionId};
use realtime::oauth::is_true;
use realtime::requests::validate_is_ascii;
use realtime::requests::{
    CreateChannelBody, CreateMessageBody, CreateMessageData, CreateServerBody, GetMessagesQuery,
    LoginBody, LoginOrRegisterData, UpdateMemberBody, UpdateMessageBody, UpdateServerBody,
};
use realtime::scope::{ReadWrite, Scope, ScopeSet};

#[test]
fn username_charset() {
    assert!(validate_is_ascii("alice_01"));
    assert!(validate_is_ascii("ABC_xyz_9"));
    assert!(validate_is_ascii(""));
    assert!(!validate_is_ascii("alice 01"));
    assert!(!validate_is_ascii("ali-ce"));
    assert!(!validate_is_ascii("aliç"));
}

#[test]
fn is_true_reads_the_flag() {
    assert!(is_true(&true));
    assert!(!is_true(&false));
}

#[test]
fn option_id_is_none() {
    assert!(OptionId(None).is_none());
    assert!(!OptionId(Some(3)).is_none());
    assert_eq!(Id(5), Id(5));
}

#[test]
fn channel_kinds_draw_their_audience_differently() {
    assert!(ChannelKind::Text.has_members());
    assert!(!ChannelKind::Text.has_recipients());
    assert!(!ChannelKind::DM.has_members());
    assert!(ChannelKind::DM.has_recipients());
}

#[test]
fn user_like_identities() {
    let first_party = Identity::User((9, None));
    assert_eq!(first_party.is_user_like_with_scope(Scope::Messages(ReadWrite::Write)), Some(9));

    let mut granted = ScopeSet::new();
    granted.insert(Scope::Messages(ReadWrite::Write));
    let delegated = Identity::User((9, Some(granted)));
    assert_eq!(delegated.is_user_like_with_scope(Scope::Messages(ReadWrite::Read)), Some(9));
    assert_eq!(delegated.is_user_like_with_scope(Scope::Servers(ReadWrite::Read)), None);

    let client = Identity::Client((3, None));
    assert_eq!(client.is_user_like_with_scope(Scope::Messages(ReadWrite::Read)), None);
}

#[test]
fn login_body_validation() {
    let good = LoginBody { username: "alice".to_string(), password: "p4sswords".to_string() };
    assert!(good.validate());

    let short_name = LoginBody { username: "al".to_string(), password: "p4sswords".to_string() };
    assert!(!short_name.validate());

    let bad_charset =
        LoginBody { username: "alice!".to_string(), password: "p4sswords".to_string() };
    assert!(!bad_charset.validate());

    let short_pass = LoginBody { username: "alice".to_string(), password: "short".to_string() };
    assert!(!short_pass.validate());
}

#[test]
fn message_content_bounds() {
    assert!(CreateMessageBody { content: "x".to_string() }.validate());
    assert!(!CreateMessageBody { content: "".to_string() }.validate());
    assert!(CreateMessageBody { content: "y".repeat(3500) }.validate());
    assert!(!CreateMessageBody { content: "y".repeat(3501) }.validate());

    assert!(CreateMessageData { content: "z".repeat(2000) }.validate());
    assert!(!CreateMessageData { content: "z".repeat(2001) }.validate());

    assert!(UpdateMessageBody { content: None }.validate());
    assert!(!UpdateMessageBody { content: Some("".to_string()) }.validate());
}

#[test]
fn name_bounds() {
    assert!(CreateServerBody { name: "ab".to_string() }.validate());
    assert!(!CreateServerBody { name: "a".to_string() }.validate());
    assert!(CreateChannelBody { name: "c".repeat(32) }.validate());
    assert!(!CreateChannelBody { name: "c".repeat(33) }.validate());
    assert!(UpdateServerBody { name: None }.validate());
    assert!(!UpdateServerBody { name: Some("x".to_string()) }.validate());
}

#[test]
fn nickname_bounds() {
    assert!(UpdateMemberBody { nickname: None }.validate());
    assert!(UpdateMemberBody { nickname: Some(None) }.validate());
    assert!(UpdateMemberBody { nickname: Some(Some("ok".to_string())) }.validate());
    assert!(!UpdateMemberBody { nickname: Some(Some("x".to_string())) }.validate());
}

#[test]
fn paging_limits() {
    assert!(GetMessagesQuery { limit: None, last_id: None }.validate());
    assert!(GetMessagesQuery { limit: Some(1), last_id: Some(9) }.validate());
    assert!(GetMessagesQuery { limit: Some(100), last_id: None }.validate());
    assert!(!GetMessagesQuery { limit: Some(0), last_id: None }.validate());
    assert!(!GetMessagesQuery { limit: Some(101), last_id: None }.validate());
}

#[test]
fn login_or_register_bounds() {
    let good =
        LoginOrRegisterData { username: "a".to_string(), password: "12345678".to_string(), kind: None };
    assert!(good.validate());
    let long_name = LoginOrRegisterData {
        username: "q".repeat(17),
        password: "12345678".to_string(),
        kind: Some("login".to_string()),
    };
    assert!(!long_name.validate());
    let long_pass = LoginOrRegisterData {
        username: "a".to_string(),
        password: "p".repeat(71),
        kind: None,
    };
    assert!(!long_pass.validate());
}
