//! Handshake payload framing and placeholder key-material generators.
//!
//! The generators produce uniformly random bytes of the documented lengths;
//! nothing cryptographic is claimed of them.

use vstd::prelude::*;

verus! {

/// Role of a handshake message, carried as the first payload byte when a
/// packet's message type is Auth.
#[derive(Debug, PartialEq, Eq, Structural, Clone, Copy)]
pub enum AuthType {
    ClientHello,
    ServerHello,
    ClientAck,
    ServerAck,
}

/// The wire byte for each handshake role.
pub open spec fn spec_auth_type_u8(t: AuthType) -> u8 {
    match t {
        AuthType::ClientHello => 0,
        AuthType::ServerHello => 1,
        AuthType::ClientAck => 2,
        AuthType::ServerAck => 3,
    }
}

/// Decoding of the handshake-role wire byte.
pub open spec fn spec_auth_type_of_u8(value: u8) -> Option<AuthType> {
    if value == 0 {
        Some(AuthType::ClientHello)
    } else if value == 1 {
        Some(AuthType::ServerHello)
    } else if value == 2 {
        Some(AuthType::ClientAck)
    } else if value == 3 {
        Some(AuthType::ServerAck)
    } else {
        None
    }
}

impl AuthType {
    /// The wire byte of this handshake role.
    pub fn to_u8(&self) -> (r: u8)
        ensures
            r == spec_auth_type_u8(*self),
    {
        match self {
            AuthType::ClientHello => 0,
            AuthType::ServerHello => 1,
            AuthType::ClientAck => 2,
            AuthType::ServerAck => 3,
        }
    }

    /// The handshake role a wire byte stands for, if any.
    pub fn from_u8(value: u8) -> (r: Option<AuthType>)
        ensures
            r == spec_auth_type_of_u8(value),
    {
        match value {
            0 => Some(AuthType::ClientHello),
            1 => Some(AuthType::ServerHello),
            2 => Some(AuthType::ClientAck),
            3 => Some(AuthType::ServerAck),
            _ => None,
        }
    }
}

/// Handshake-role wire bytes and their decoding invert each other.
pub proof fn lemma_auth_type_u8_round_trip(t: AuthType, value: u8)
    ensures
        spec_auth_type_of_u8(spec_auth_type_u8(t)) == Some(t),
        spec_auth_type_of_u8(value) matches Some(u) ==> spec_auth_type_u8(u) == value,
{
}

/// A handshake sub-payload: one role byte followed by opaque data.
pub struct AuthBody {
    auth_type: AuthType,
    data: Vec<u8>,
}

impl AuthBody {
    /// The handshake role this body carries.
    pub closed spec fn spec_auth_type(&self) -> AuthType {
        self.auth_type
    }

    /// The opaque data this body carries.
    pub closed spec fn spec_data(&self) -> Seq<u8> {
        self.data@
    }

    /// Packs a handshake role and its opaque data.
    pub fn new(auth_type: AuthType, data: Vec<u8>) -> (r: AuthBody)
        ensures
            r.spec_auth_type() == auth_type,
            r.spec_data() == data@,
    {
        AuthBody { auth_type, data }
    }

    /// Encodes the body: the role's wire byte followed by the data.
    pub fn to_u8(&self) -> (r: Vec<u8>)
        ensures
            r@ == seq![spec_auth_type_u8(self.spec_auth_type())] + self.spec_data(),
    {
        let mut result: Vec<u8> = Vec::new();
        result.push(self.auth_type.to_u8());
        let mut i: usize = 0;
        while i < self.data.len()
            invariant
                i <= self.data@.len(),
                result@ == seq![spec_auth_type_u8(self.auth_type)] + self.data@.take(i as int),
            decreases self.data@.len() - i,
        {
            result.push(self.data[i]);
            i = i + 1;
            proof {
                assert(result@ =~= seq![spec_auth_type_u8(self.auth_type)] + self.data@.take(
                    i as int,
                ));
            }
        }
        proof {
            assert(result@ =~= seq![spec_auth_type_u8(self.auth_type)] + self.data@);
        }
        result
    }

    /// Decodes a handshake body: fails exactly on an empty buffer or an
    /// unknown role byte; otherwise the first byte is the role and the rest
    /// is the data.
    pub fn from_u8(data: &[u8]) -> (r: Option<AuthBody>)
        ensures
            data@.len() == 0 ==> r is None,
            data@.len() > 0 ==> match spec_auth_type_of_u8(data@[0]) {
                None => r is None,
                Some(t) => (r matches Some(body) && body.spec_auth_type() == t
                    && body.spec_data() == data@.subrange(1, data@.len() as int)),
            },
    {
        if data.is_empty() {
            return None;
        }
        let auth_type = match AuthType::from_u8(data[0]) {
            Some(t) => t,
            None => {
                return None;
            },
        };
        let rest = vstd::slice::slice_subrange(data, 1, data.len());
        let body_data = vstd::slice::slice_to_vec(rest);
        Some(AuthBody { auth_type, data: body_data })
    }
}

/// Relies on rand::fill: fills the buffer with bytes from the thread-local
/// generator. Nothing is assumed of the values; the length is unchanged.
#[verifier::external_body]
fn fill_random(buf: &mut Vec<u8>)
    ensures
        final(buf)@.len() == old(buf)@.len(),
{
    rand::fill(buf.as_mut_slice());
}

/// A buffer of `size` uniformly random bytes.
fn generate_random_bytes(size: usize) -> (r: Vec<u8>)
    ensures
        r@.len() == size,
{
    let mut bytes: Vec<u8> = Vec::new();
    let mut i: usize = 0;
    while i < size
        invariant
            i <= size,
            bytes@.len() == i,
        decreases size - i,
    {
        bytes.push(0u8);
        i = i + 1;
    }
    fill_random(&mut bytes);
    bytes
}

/// A fresh 12-byte random nonce.
pub fn generate_random_nonce() -> (r: Vec<u8>)
    ensures
        r@.len() == 12,
{
    generate_random_bytes(12)
}

/// A placeholder key pair: two buffers of 256 random bytes each. These are
/// not real asymmetric keys; callers must not rely on any cryptographic
/// structure.
pub fn generate_rsa_key_pair() -> (r: (Vec<u8>, Vec<u8>))
    ensures
        r.0@.len() == 256,
        r.1@.len() == 256,
{
    let secret_key = generate_random_bytes(256);
    let public_key = generate_random_bytes(256);
    (secret_key, public_key)
}

/// A 32-byte random symmetric key.
pub fn generate_aes_key() -> (r: Vec<u8>)
    ensures
        r@.len() == 32,
{
    generate_random_bytes(32)
}

} // verus!
