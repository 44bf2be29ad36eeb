//! Request bodies and query parameters of the service's endpoints, with
//! their validation rules. Lengths count characters, not bytes.

use vstd::prelude::*;

verus! {

/// Whether a character may appear in a username: ASCII letters, digits and
/// the underscore.
pub open spec fn spec_username_char(c: char) -> bool {
    ||| c == '_'
    ||| '0' <= c && c <= '9'
    ||| 'a' <= c && c <= 'z'
    ||| 'A' <= c && c <= 'Z'
}

/// Whether every character of a username is an ASCII letter, a digit or an
/// underscore.
pub fn validate_is_ascii(s: &str) -> (r: bool)
    ensures
        r == forall|k: int| 0 <= k < s@.len() ==> spec_username_char(#[trigger] s@[k]),
{
    let n = s.unicode_len();
    for i in 0..n
        invariant
            n == s@.len(),
            forall|k: int| 0 <= k < i ==> spec_username_char(#[trigger] s@[k]),
    {
        let c = s.get_char(i);
        let ok = c == '_' || (c >= '0' && c <= '9') || (c >= 'a' && c <= 'z') || (c >= 'A' && c
            <= 'Z');
        if !ok {
            return false;
        }
    }
    true
}

/// Whether a character count lies within an inclusive range.
pub open spec fn spec_len_between(s: Seq<char>, min: int, max: int) -> bool {
    min <= s.len() <= max
}

/// Whether the character count of a string lies within an inclusive range.
fn len_between(s: &str, min: usize, max: usize) -> (r: bool)
    ensures
        r == spec_len_between(s@, min as int, max as int),
{
    let n = s.unicode_len();
    min <= n && n <= max
}

/// A registration request.
pub struct RegistrationBody {
    pub username: String,
    pub display_name: Option<String>,
    pub password: String,
    pub email: String,
}

/// A login request.
pub struct LoginBody {
    pub username: String,
    pub password: String,
}

impl LoginBody {
    /// The username is 3 to 32 username characters and the password 8 to 128
    /// characters.
    pub fn validate(&self) -> (r: bool)
        ensures
            r == {
                &&& spec_len_between(self.username@, 3, 32)
                &&& (forall|k: int|
                    0 <= k < self.username@.len() ==> spec_username_char(
                        #[trigger] self.username@[k],
                    ))
                &&& spec_len_between(self.password@, 8, 128)
            },
    {
        len_between(self.username.as_str(), 3, 32) && validate_is_ascii(self.username.as_str())
            && len_between(self.password.as_str(), 8, 128)
    }
}

/// A profile update; absent fields stay unchanged, and a doubled option
/// distinguishes clearing a value from leaving it alone.
pub struct UpdateUserBody {
    pub username: Option<String>,
    pub display_name: Option<Option<String>>,
    pub email: Option<String>,
    pub password: Option<String>,
}

/// Whether a logout ends every session of the user or only the current one.
pub struct LogoutQuery {
    pub all: Option<bool>,
}

/// A channel creation request.
pub struct CreateChannelBody {
    pub name: String,
}

impl CreateChannelBody {
    /// The name is 2 to 32 characters.
    pub fn validate(&self) -> (r: bool)
        ensures
            r == spec_len_between(self.name@, 2, 32),
    {
        len_between(self.name.as_str(), 2, 32)
    }
}

/// A channel rename request.
pub struct UpdateChannelBody {
    pub name: Option<String>,
}

impl UpdateChannelBody {
    /// A present name is 2 to 32 characters.
    pub fn validate(&self) -> (r: bool)
        ensures
            r == match self.name {
                Some(n) => spec_len_between(n@, 2, 32),
                None => true,
            },
    {
        match &self.name {
            Some(n) => len_between(n.as_str(), 2, 32),
            None => true,
        }
    }
}

/// A paged member listing request.
pub struct GetMembersQuery {
    pub limit: Option<u64>,
    pub last_id: Option<u64>,
}

impl GetMembersQuery {
    /// A present limit is between 1 and 100.
    pub fn validate(&self) -> (r: bool)
        ensures
            r == match self.limit {
                Some(l) => 1 <= l <= 100,
                None => true,
            },
    {
        match self.limit {
            Some(l) => 1 <= l && l <= 100,
            None => true,
        }
    }
}

/// A member nickname update; the doubled option distinguishes clearing the
/// nickname from leaving it alone.
pub struct UpdateMemberBody {
    pub nickname: Option<Option<String>>,
}

impl UpdateMemberBody {
    /// A present nickname is 2 to 32 characters.
    pub fn validate(&self) -> (r: bool)
        ensures
            r == match self.nickname {
                Some(Some(n)) => spec_len_between(n@, 2, 32),
                _ => true,
            },
    {
        match &self.nickname {
            Some(Some(n)) => len_between(n.as_str(), 2, 32),
            _ => true,
        }
    }
}

/// A message creation request.
pub struct CreateMessageBody {
    pub content: String,
}

impl CreateMessageBody {
    /// The content is 1 to 3500 characters.
    pub fn validate(&self) -> (r: bool)
        ensures
            r == spec_len_between(self.content@, 1, 3500),
    {
        len_between(self.content.as_str(), 1, 3500)
    }
}

/// A paged message listing request.
pub struct GetMessagesQuery {
    pub limit: Option<u64>,
    pub last_id: Option<u64>,
}

impl GetMessagesQuery {
    /// A present limit is between 1 and 100.
    pub fn validate(&self) -> (r: bool)
        ensures
            r == match self.limit {
                Some(l) => 1 <= l <= 100,
                None => true,
            },
    {
        match self.limit {
            Some(l) => 1 <= l && l <= 100,
            None => true,
        }
    }
}

/// A message edit request.
pub struct UpdateMessageBody {
    pub content: Option<String>,
}

impl UpdateMessageBody {
    /// Present content is 1 to 3500 characters.
    pub fn validate(&self) -> (r: bool)
        ensures
            r == match self.content {
                Some(c) => spec_len_between(c@, 1, 3500),
                None => true,
            },
    {
        match &self.content {
            Some(c) => len_between(c.as_str(), 1, 3500),
            None => true,
        }
    }
}

/// A server creation request.
pub struct CreateServerBody {
    pub name: String,
}

impl CreateServerBody {
    /// The name is 2 to 32 characters.
    pub fn validate(&self) -> (r: bool)
        ensures
            r == spec_len_between(self.name@, 2, 32),
    {
        len_between(self.name.as_str(), 2, 32)
    }
}

/// A server rename request.
pub struct UpdateServerBody {
    pub name: Option<String>,
}

impl UpdateServerBody {
    /// A present name is 2 to 32 characters.
    pub fn validate(&self) -> (r: bool)
        ensures
            r == match self.name {
                Some(n) => spec_len_between(n@, 2, 32),
                None => true,
            },
    {
        match &self.name {
            Some(n) => len_between(n.as_str(), 2, 32),
            None => true,
        }
    }
}

/// A combined login-or-register request of the form endpoints.
pub struct LoginOrRegisterData {
    pub username: String,
    pub password: String,
    pub kind: Option<String>,
}

impl LoginOrRegisterData {
    /// The username is 1 to 16 characters and the password 8 to 70.
    pub fn validate(&self) -> (r: bool)
        ensures
            r == (spec_len_between(self.username@, 1, 16) && spec_len_between(
                self.password@,
                8,
                70,
            )),
    {
        len_between(self.username.as_str(), 1, 16) && len_between(self.password.as_str(), 8, 70)
    }
}

/// A channel creation request of the form endpoints.
pub struct CreateChannelData {
    pub name: String,
}

impl CreateChannelData {
    /// The name is 2 to 32 characters.
    pub fn validate(&self) -> (r: bool)
        ensures
            r == spec_len_between(self.name@, 2, 32),
    {
        len_between(self.name.as_str(), 2, 32)
    }
}

/// A message creation request of the form endpoints.
pub struct CreateMessageData {
    pub content: String,
}

impl CreateMessageData {
    /// The content is 1 to 2000 characters.
    pub fn validate(&self) -> (r: bool)
        ensures
            r == spec_len_between(self.content@, 1, 2000),
    {
        len_between(self.content.as_str(), 1, 2000)
    }
}

/// A server creation request of the form endpoints.
pub struct CreateServerData {
    pub name: String,
}

impl CreateServerData {
    /// The name is 2 to 32 characters.
    pub fn validate(&self) -> (r: bool)
        ensures
            r == spec_len_between(self.name@, 2, 32),
    {
        len_between(self.name.as_str(), 2, 32)
    }
}

/// A paged member listing request of the form endpoints.
pub struct ServerMembersQuery {
    pub last_id: Option<u64>,
}

/// A paged message listing request of the form endpoints.
pub struct ChannelMessagesQuery {
    pub last_id: Option<u64>,
}

} // verus!
