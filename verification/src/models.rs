//! Plain data types of the surrounding chat service: identities, ids and the
//! channel/message taxonomy. The realtime backbone consumes these as values;
//! their storage and transport belong to the embedding program.

use vstd::prelude::*;

use crate::scope::{has_scope, spec_has_scope, Scope, ScopeSet};

verus! {

/// A public user profile.
pub struct User {
    pub id: u64,
    pub username: String,
    pub display_name: Option<String>,
}

/// A numeric entity id. The wire format carries it as a decimal string,
/// because 64-bit integers overflow the number type of some clients; the
/// conversion belongs to the embedding program.
#[derive(Clone, Copy, Debug, PartialEq, Eq, Hash, Structural)]
pub struct Id(pub u64);

/// An optional numeric entity id.
#[derive(Clone, Copy, Debug, PartialEq, Eq, Hash, Structural)]
pub struct OptionId(pub Option<u64>);

impl OptionId {
    /// Whether no id is present.
    pub fn is_none(&self) -> (r: bool)
        ensures
            r == (self.0 is None),
    {
        self.0.is_none()
    }
}

/// The kind of a channel: a text channel inside a server, or a direct-message
/// channel between a fixed set of recipients.
#[derive(Clone, Copy, Debug, PartialEq, Eq, Hash, Structural)]
pub enum ChannelKind {
    Text,
    DM,
}

impl ChannelKind {
    /// Whether channels of this kind draw their audience from a server's
    /// member list.
    pub fn has_members(&self) -> (r: bool)
        ensures
            r == (*self == ChannelKind::Text),
    {
        match self {
            ChannelKind::Text => true,
            _ => false,
        }
    }

    /// Whether channels of this kind carry their own fixed recipient list.
    pub fn has_recipients(&self) -> (r: bool)
        ensures
            r == (*self == ChannelKind::DM),
    {
        match self {
            ChannelKind::DM => true,
            _ => false,
        }
    }
}

/// The kind of a message.
#[derive(Clone, Copy, Debug, PartialEq, Eq, Hash, Structural)]
pub enum MessageKind {
    Text,
}

/// The resolved principal behind a request: a user, or an OAuth client
/// acting as itself. `None` scopes are the unrestricted first-party grant.
pub enum Identity {
    User((u64, Option<ScopeSet>)),
    Client((u64, Option<ScopeSet>)),
}

/// The user id an identity acts for under a required scope, if any.
pub open spec fn spec_user_like_with_scope(identity: Identity, scope: Scope) -> Option<u64> {
    match identity {
        Identity::User((id, granted)) => match granted {
            None => Some(id),
            Some(g) => if spec_has_scope(g@, scope) {
                Some(id)
            } else {
                None
            },
        },
        Identity::Client(_) => None,
    }
}

impl Identity {
    /// The user id this identity acts for, provided its grant covers the
    /// required scope. A first-party user grant covers everything; a client
    /// acting as itself is not user-like.
    pub fn is_user_like_with_scope(&self, scope: Scope) -> (r: Option<u64>)
        ensures
            r == spec_user_like_with_scope(*self, scope),
    {
        match self {
            Identity::User((id, granted)) => match granted {
                None => Some(*id),
                Some(g) => if has_scope(g, scope) {
                    Some(*id)
                } else {
                    None
                },
            },
            Identity::Client(_) => None,
        }
    }
}

/// The raw credential a request carried, kept for rate-limit keying.
pub struct Token(pub String);

/// Marker for the rate limiter: requests are keyed by their token.
#[derive(Clone, Copy, Debug, PartialEq, Eq, Structural)]
pub struct TokenKey;

/// The session credential handed back by a login: an opaque token the client
/// presents on later requests.
pub struct SessionBody {
    pub token: String,
}

} // verus!
