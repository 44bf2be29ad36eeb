use realtime::scope::{has_scope, parse_scope, satisfies, scopes_from_string};
use realtime::scope::{ReadWrite, Scope, ScopeSet};

fn set_of(scopes: &[Scope]) -> ScopeSet {
    let mut s = ScopeSet::new();
    for sc in scopes {
        s.insert(*sc);
    }
    s
}

const CATEGORIES: [fn(ReadWrite) -> Scope; 4] =
    [Scope::Profile, Scope::Servers, Scope::Messages, Scope::Friends];

#[test]
fn write_implies_read_for_every_category() {
    for cat in CATEGORIES {
        let granted = Some(set_of(&[cat(ReadWrite::Write)]));
        assert!(satisfies(&granted, cat(ReadWrite::Read)));
    }
}

#[test]
fn read_never_implies_write_for_any_category() {
    for cat in CATEGORIES {
        let granted = Some(set_of(&[cat(ReadWrite::Read)]));
        assert!(!satisfies(&granted, cat(ReadWrite::Write)));
    }
}

#[test]
fn unrestricted_grant_satisfies_everything() {
    for cat in CATEGORIES {
        assert!(satisfies(&None, cat(ReadWrite::Read)));
        assert!(satisfies(&None, cat(ReadWrite::Write)));
    }
}

#[test]
fn exact_scope_satisfies_itself() {
    for cat in CATEGORIES {
        for level in [ReadWrite::Read, ReadWrite::Write] {
            let granted = Some(set_of(&[cat(level)]));
            assert!(satisfies(&granted, cat(level)));
        }
    }
}

#[test]
fn other_categories_are_not_satisfied() {
    let granted = set_of(&[Scope::Servers(ReadWrite::Write)]);
    assert!(!has_scope(&granted, Scope::Messages(ReadWrite::Read)));
    assert!(!has_scope(&granted, Scope::Profile(ReadWrite::Read)));
    assert!(!has_scope(&granted, Scope::Friends(ReadWrite::Write)));
}

#[test]
fn empty_grant_satisfies_nothing() {
    let granted = ScopeSet::new();
    for cat in CATEGORIES {
        assert!(!has_scope(&granted, cat(ReadWrite::Read)));
        assert!(!has_scope(&granted, cat(ReadWrite::Write)));
    }
}

#[test]
fn access_and_counterpart() {
    let s = Scope::Messages(ReadWrite::Write);
    assert_eq!(s.access(), Some(ReadWrite::Write));
    assert_eq!(s.counterpart(), Scope::Messages(ReadWrite::Read));
    let r = Scope::Profile(ReadWrite::Read);
    assert_eq!(r.access(), Some(ReadWrite::Read));
    assert_eq!(r.counterpart(), Scope::Profile(ReadWrite::Write));
}

#[test]
fn parse_scope_knows_all_names() {
    assert_eq!(parse_scope("profile.read"), Some(Scope::Profile(ReadWrite::Read)));
    assert_eq!(parse_scope("profile.write"), Some(Scope::Profile(ReadWrite::Write)));
    assert_eq!(parse_scope("servers.read"), Some(Scope::Servers(ReadWrite::Read)));
    assert_eq!(parse_scope("servers.write"), Some(Scope::Servers(ReadWrite::Write)));
    assert_eq!(parse_scope("messages.read"), Some(Scope::Messages(ReadWrite::Read)));
    assert_eq!(parse_scope("messages.write"), Some(Scope::Messages(ReadWrite::Write)));
    assert_eq!(parse_scope("friends.read"), Some(Scope::Friends(ReadWrite::Read)));
    assert_eq!(parse_scope("friends.write"), Some(Scope::Friends(ReadWrite::Write)));
    assert_eq!(parse_scope("messages"), None);
    assert_eq!(parse_scope(""), None);
    assert_eq!(parse_scope("messages.READ"), None);
}

#[test]
fn scopes_from_string_parses_a_grant() {
    let set = scopes_from_string("servers.write,messages.read").unwrap();
    assert!(set.contains(Scope::Servers(ReadWrite::Write)));
    assert!(set.contains(Scope::Messages(ReadWrite::Read)));
    assert!(!set.contains(Scope::Friends(ReadWrite::Read)));
}

#[test]
fn scopes_from_string_skips_empty_chunks() {
    let set = scopes_from_string(",profile.read,,friends.write,").unwrap();
    assert!(set.contains(Scope::Profile(ReadWrite::Read)));
    assert!(set.contains(Scope::Friends(ReadWrite::Write)));
}

#[test]
fn scopes_from_string_of_empty_input_is_the_empty_grant() {
    let set = scopes_from_string("").unwrap();
    for cat in CATEGORIES {
        assert!(!set.contains(cat(ReadWrite::Read)));
        assert!(!set.contains(cat(ReadWrite::Write)));
    }
}

#[test]
fn scopes_from_string_rejects_unknown_names() {
    assert!(scopes_from_string("profile.read,unknown.scope").is_none());
    assert!(scopes_from_string("profile").is_none());
    assert!(scopes_from_string("profile.read messages.read").is_none());
}

#[test]
fn parsed_grant_feeds_satisfaction() {
    let set = scopes_from_string("messages.write").unwrap();
    assert!(has_scope(&set, Scope::Messages(ReadWrite::Read)));
    assert!(has_scope(&set, Scope::Messages(ReadWrite::Write)));
    assert!(!has_scope(&set, Scope::Servers(ReadWrite::Read)));
}
