//! Identifiers of connections and of games: 128-bit values that travel as
//! UUID text.

use vstd::prelude::*;

verus! {

/// Identifies one live connection.
#[derive(Clone, Copy, Debug, PartialEq, Eq, Hash, Structural)]
pub struct ClientId(pub u128);

/// Identifies one game.
#[derive(Clone, Copy, Debug, PartialEq, Eq, Hash, Structural)]
pub struct SessionId(pub u128);

/// The text that `uuid::Uuid` prints for the UUID whose 128 bits are `v`.
pub uninterp spec fn uuid_text(v: u128) -> Seq<char>;

/// The 128 bits of the UUID that `uuid::Uuid::parse_str` reads from `text`,
/// or `None` where it reads none.
pub uninterp spec fn uuid_parse(text: Seq<char>) -> Option<u128>;

/// The bits of a UUID that hold its version and its variant.
pub const UUID_FIXED_BITS: u128 = 0x0000_0000_0000_f000_c000_0000_0000_0000u128;

/// Those bits as a random (version 4) UUID has them.
pub const UUID_RANDOM_BITS: u128 = 0x0000_0000_0000_4000_8000_0000_0000_0000u128;

/// The 128 bits are those of a random (version 4) UUID.
pub open spec fn is_random_uuid(bits: u128) -> bool {
    (bits & UUID_FIXED_BITS) == UUID_RANDOM_BITS
}

/// Calls `uuid::Uuid::new_v4` and hands back the new UUID's 128 bits.
/// Trusted: the value is drawn from the system's random source; of every
/// outcome only the version and variant bits are known. The call panics
/// if the system has no random bytes to give.
#[verifier::external_body]
fn random_uuid() -> (v: u128)
    ensures
        v & UUID_FIXED_BITS == UUID_RANDOM_BITS,
{
    uuid::Uuid::new_v4().as_u128()
}

/// Calls `to_string` on the `uuid::Uuid` made of `v`. Trusted: the result
/// is the hyphenated lower-case text of that UUID, named `uuid_text(v)`.
#[verifier::external_body]
fn format_uuid(v: u128) -> (s: String)
    ensures
        s@ == uuid_text(v),
{
    uuid::Uuid::from_u128(v).to_string()
}

/// Calls `uuid::Uuid::parse_str`. Trusted: the result depends on the text
/// alone and is named `uuid_parse(text@)`.
#[verifier::external_body]
fn parse_uuid(text: &str) -> (r: Option<u128>)
    ensures
        r == uuid_parse(text@),
{
    uuid::Uuid::parse_str(text).ok().map(|u| u.as_u128())
}

impl ClientId {
    /// A new random identifier.
    pub fn generate() -> (id: ClientId)
        ensures
            id.0 & UUID_FIXED_BITS == UUID_RANDOM_BITS,
    {
        ClientId(random_uuid())
    }

    /// The identifier as UUID text.
    pub fn text(&self) -> (s: String)
        ensures
            s@ == uuid_text(self.0),
    {
        format_uuid(self.0)
    }
}

impl SessionId {
    /// A new random identifier.
    pub fn generate() -> (id: SessionId)
        ensures
            id.0 & UUID_FIXED_BITS == UUID_RANDOM_BITS,
    {
        SessionId(random_uuid())
    }

    /// The identifier as UUID text.
    pub fn text(&self) -> (s: String)
        ensures
            s@ == uuid_text(self.0),
    {
        format_uuid(self.0)
    }

    /// Reads an identifier from UUID text.
    pub fn parse(text: &str) -> (r: Option<SessionId>)
        ensures
            r == session_id_of(uuid_parse(text@)),
    {
        match parse_uuid(text) {
            Some(v) => Some(SessionId(v)),
            None => None,
        }
    }
}

/// The session identifier that parsed UUID bits stand for.
pub open spec fn session_id_of(bits: Option<u128>) -> Option<SessionId> {
    match bits {
        Some(v) => Some(SessionId(v)),
        None => None,
    }
}

} // verus!
