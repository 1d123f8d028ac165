//! Sessions: their identity, the network they were opened from, and the
//! records that travel between the service and the store.

use crate::models::user::UserId;
use crate::time::Timestamp;
use vstd::prelude::*;

verus! {

/// The bytes of a session token.
pub type SessionToken = Vec<u8>;

/// Number of bytes of a session identifier.
pub const SESSION_ID_LEN: usize = 16;

/// The identity of a session: the sixteen raw bytes of a UUID.
#[derive(Clone, Copy, Debug, PartialEq, Eq, Hash)]
pub struct SessionId {
    bytes: [u8; 16],
}

impl View for SessionId {
    type V = Seq<u8>;

    closed spec fn view(&self) -> Seq<u8> {
        self.bytes@
    }
}

/// The bytes of a random UUID made from sixteen random bytes: the version
/// is set to 4 and the variant to the one of RFC 4122, the other 122 bits stay.
pub open spec fn uuid_v4_bytes(random: Seq<u8>) -> Seq<u8>
    recommends
        random.len() == 16,
{
    random.update(6, (random[6] & 0x0f) | 0x40).update(8, (random[8] & 0x3f) | 0x80)
}

/// Whether sixteen bytes are a UUID of version 4 and of the variant of RFC 4122.
pub open spec fn is_uuid_v4(bytes: Seq<u8>) -> bool {
    &&& bytes.len() == 16
    &&& bytes[6] & 0xf0 == 0x40
    &&& bytes[8] & 0xc0 == 0x80
}

impl SessionId {
    /// An identifier has sixteen bytes.
    pub proof fn lemma_len(self)
        ensures
            self@.len() == 16,
    {
    }

    /// The identifier that has the given bytes.
    pub fn from_bytes(bytes: [u8; 16]) -> (id: SessionId)
        ensures
            id@ == bytes@,
    {
        SessionId { bytes }
    }

    /// The sixteen bytes of the identifier.
    pub fn as_bytes(&self) -> (bytes: &[u8; 16])
        ensures
            bytes@ == self@,
    {
        &self.bytes
    }

    /// The identifier that has the bytes of the slice, if they are sixteen.
    pub fn from_slice(bytes: &[u8]) -> (id: Option<SessionId>)
        ensures
            bytes@.len() == 16 <==> id is Some,
            id matches Some(id) ==> id@ == bytes@,
    {
        if bytes.len() != 16 {
            return None;
        }
        let mut copy = [0u8;16];
        let mut i: usize = 0;
        while i < 16
            invariant
                i <= 16,
                bytes@.len() == 16,
                forall|k: int| 0 <= k < i ==> copy@[k] == bytes@[k],
            decreases 16 - i,
        {
            copy[i] = bytes[i];
            i += 1;
        }
        assert(copy@ =~= bytes@);
        Some(SessionId { bytes: copy })
    }

    /// A random identifier from sixteen random bytes.
    pub fn new_v4(random: [u8; 16]) -> (id: SessionId)
        ensures
            id@ == uuid_v4_bytes(random@),
            is_uuid_v4(id@),
    {
        let mut bytes = random;
        let r6: u8 = random[6];
        let r8: u8 = random[8];
        let time_hi: u8 = (r6 & 0x0f) | 0x40;
        let clock_hi: u8 = (r8 & 0x3f) | 0x80;
        assert(((r6 & 0x0f) | 0x40) & 0xf0 == 0x40) by (bit_vector);
        assert(((r8 & 0x3f) | 0x80) & 0xc0 == 0x80) by (bit_vector);
        bytes[6] = time_hi;
        bytes[8] = clock_hi;
        assert(bytes@ =~= uuid_v4_bytes(random@));
        SessionId { bytes }
    }

    /// Whether two identifiers have the same bytes.
    pub fn same_as(&self, other: &SessionId) -> (same: bool)
        ensures
            same == (self@ == other@),
    {
        let mut i: usize = 0;
        while i < 16
            invariant
                i <= 16,
                forall|k: int| 0 <= k < i ==> self.bytes@[k] == other.bytes@[k],
            decreases 16 - i,
        {
            if self.bytes[i] != other.bytes[i] {
                return false;
            }
            i += 1;
        }
        assert(self.bytes@ =~= other.bytes@);
        true
    }
}

/// An address of the internet, of version 4 or 6, as one number: the
/// first octet is the most significant.
#[derive(Clone, Copy, Debug, PartialEq, Eq, Structural)]
pub enum IpAddress {
    V4(u32),
    V6(u128),
}

/// An address with the length of its network prefix.
#[derive(Clone, Copy, Debug, PartialEq, Eq, Structural)]
pub struct IpNetwork {
    pub address: IpAddress,
    pub prefix: u8,
}

impl IpNetwork {
    /// The prefix is no longer than the address.
    pub open spec fn is_valid(self) -> bool {
        match self.address {
            IpAddress::V4(_) => self.prefix <= 32,
            IpAddress::V6(_) => self.prefix <= 128,
        }
    }

    /// The network that holds one address of version 4 and no other.
    pub open spec fn host_v4_spec(address: u32) -> IpNetwork {
        IpNetwork { address: IpAddress::V4(address), prefix: 32 }
    }

    /// The network that holds one address of version 4 and no other.
    pub fn host_v4(address: u32) -> (network: IpNetwork)
        ensures
            network == IpNetwork::host_v4_spec(address),
            network.is_valid(),
    {
        IpNetwork { address: IpAddress::V4(address), prefix: 32 }
    }
}

#[derive(Clone, Debug)]
pub struct CreateSessionRequest {
    pub user_id: UserId,
    pub ip: IpNetwork,
    pub device_name: Option<String>,
    pub os_version: Option<String>,
    pub app_version: Option<String>,
    pub refresh_token: SessionToken,
    pub refresh_token_expires_at: Timestamp,
    pub access_token: SessionToken,
    pub access_token_expires_at: Timestamp,
}

#[derive(Clone, Debug)]
pub struct CreateSessionResponse {
    pub id: String,
}

#[derive(Clone, Debug)]
pub struct SessionEntryResponse {
    pub ip: IpNetwork,
    pub first_seen_at: Timestamp,
    pub last_seen_at: Timestamp,
    pub device_name: Option<String>,
    pub os_version: Option<String>,
    pub app_version: Option<String>,
}

#[derive(Clone, Debug)]
pub struct ListSessionsResponse {
    pub entries: Vec<SessionEntryResponse>,
}

/// What the store holds of a session's access token.
#[derive(Clone, Debug)]
pub struct ResolveSessionResponse {
    pub user_id: UserId,
    pub access_token: SessionToken,
    pub access_token_expires_at: Timestamp,
}

/// What the store holds of a session's refresh token.
#[derive(Clone, Debug)]
pub struct RefreshTokenResponse {
    pub refresh_token: SessionToken,
    pub refresh_token_expires_at: Timestamp,
    pub refresh_counter: i32,
}

/// The new tokens of a session that is rotated.
#[derive(Clone, Debug)]
pub struct UpdateTokensRequest {
    pub session_id: SessionId,
    pub refresh_token: SessionToken,
    pub refresh_token_expires_at: Timestamp,
    pub access_token: SessionToken,
    pub access_token_expires_at: Timestamp,
}

} // verus!
