//! Message model: tagged variants for outbound server messages and inbound
//! client messages, each with an exact wire encoding or decoding.

use vstd::prelude::*;

use crate::crypt::{scramble_modulus, spec_scramble_modulus};
use crate::io::{clone_bytes, spec_le32, write_b, write_c, write_d, zeros};
use crate::{AuthError, BUFFER_SIZE};

verus! {

/// Protocol-version constant carried by the session-initialization message.
pub const PROTOCOL_VERSION: i32 = 0xc621;

/// Result code carried by a GameGuard acknowledgement.
#[derive(Debug)]
pub enum GGAuthResult {
    Skip,
}

impl GGAuthResult {
    /// The wire code of the result.
    pub open spec fn spec_code(&self) -> i32 {
        match self {
            GGAuthResult::Skip => 0x0b,
        }
    }

    /// The wire code of the result.
    pub fn code(&self) -> (r: i32)
        ensures
            r == self.spec_code(),
    {
        match self {
            GGAuthResult::Skip => 0x0b,
        }
    }
}

/// Outbound server messages.
#[derive(Debug)]
pub enum ServerMessage {
    Init { session_id: i32, modulus: Vec<u8>, crypt_key: Vec<u8> },
    GGAuth { result: GGAuthResult },
}

impl ServerMessage {
    /// An Init message carries a 128-byte RSA modulus and a 16-byte traffic
    /// key.
    pub open spec fn wf(&self) -> bool {
        match self {
            ServerMessage::Init { modulus, crypt_key, .. } => modulus@.len() == 128
                && crypt_key@.len() == 16,
            ServerMessage::GGAuth { .. } => true,
        }
    }
}

/// The number of bytes the encoding of a message occupies.
pub open spec fn spec_encoded_len(msg: ServerMessage) -> int {
    match msg {
        ServerMessage::Init { .. } => 169,
        ServerMessage::GGAuth { .. } => 21,
    }
}

/// The exact wire encoding of an outbound message: for Init, the tag byte
/// 0x00, the session id and the protocol version in little-endian form, the
/// scrambled modulus, 16 reserved zero bytes and the traffic key; for
/// GGAuth, the tag byte 0x0b, the result code and 16 reserved zero bytes.
pub open spec fn spec_encoding(msg: ServerMessage) -> Seq<u8>
    recommends
        msg.wf(),
{
    match msg {
        ServerMessage::Init { session_id, modulus, crypt_key } => seq![0x00u8] + spec_le32(
            session_id as u32,
        ) + spec_le32(PROTOCOL_VERSION as u32) + spec_scramble_modulus(modulus@) + zeros(16)
            + crypt_key@,
        ServerMessage::GGAuth { result } => seq![0x0bu8] + spec_le32(result.spec_code() as u32)
            + zeros(16),
    }
}

/// Encode a message into the zeroed packet buffer, returning the encoded
/// length. Reserved regions are skipped and stay zero.
pub fn encode(msg: &ServerMessage, buf: &mut Vec<u8>) -> (size: usize)
    requires
        msg.wf(),
        old(buf)@.len() == BUFFER_SIZE,
        forall|i: int| 0 <= i < old(buf)@.len() ==> old(buf)@[i] == 0,
    ensures
        size == spec_encoded_len(*msg),
        final(buf)@.len() == old(buf)@.len(),
        final(buf)@.subrange(0, size as int) == spec_encoding(*msg),
        forall|i: int| size <= i < final(buf)@.len() ==> final(buf)@[i] == 0,
{
    match msg {
        ServerMessage::Init { session_id, modulus, crypt_key } => {
            let mut scrambled = clone_bytes(modulus);
            scramble_modulus(&mut scrambled);
            let mut pos = write_c(buf, 0, 0x00);
            pos = write_d(buf, pos, *session_id);
            pos = write_d(buf, pos, PROTOCOL_VERSION);
            pos = write_b(buf, pos, scrambled.as_slice());
            pos = pos + 16;
            pos = write_b(buf, pos, crypt_key.as_slice());
            proof {
                assert(buf@.subrange(0, 169) =~= spec_encoding(*msg));
            }
            pos
        },
        ServerMessage::GGAuth { result } => {
            let mut pos = write_c(buf, 0, 0x0b);
            pos = write_d(buf, pos, result.code());
            pos = pos + 16;
            proof {
                assert(buf@.subrange(0, 21) =~= spec_encoding(*msg));
            }
            pos
        },
    }
}

/// Inbound client messages.
#[derive(Debug, PartialEq, Eq, Structural)]
pub enum ClientMessage {
    AuthGameGuard {},
}

/// Decode an inbound packet from its leading tag byte: 0x07 is the
/// GameGuard authentication request; any other value is malformed input,
/// reported with the offending byte.
pub fn decode(data: &[u8]) -> (r: Result<ClientMessage, AuthError>)
    requires
        data@.len() >= 1,
    ensures
        r == (if data@[0] == 0x07 {
            Ok::<ClientMessage, AuthError>(ClientMessage::AuthGameGuard {})
        } else {
            Err::<ClientMessage, AuthError>(AuthError::MalformedInput { tag: data@[0] })
        }),
{
    let tag = data[0];
    if tag == 0x07 {
        Ok(ClientMessage::AuthGameGuard {})
    } else {
        Err(AuthError::MalformedInput { tag })
    }
}

} // verus!
