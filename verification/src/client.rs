//! Session orchestrator: generates the per-session key material (a random
//! 16-byte traffic key and an RSA credential keypair) and drives the initial
//! handshake send.

use vstd::prelude::*;

use crate::crypt::fill_random;
use crate::io::clone_bytes;
use crate::message::ServerMessage;
use crate::sender::AuthClientSender;
use crate::AuthError;
use openssl::error::ErrorStack;
use openssl::pkey::Private;
use openssl::rsa::Rsa;

verus! {

#[verifier::external_type_specification]
#[verifier::external_body]
#[verifier::reject_recursive_types(T)]
pub struct ExRsa<T>(Rsa<T>);

#[verifier::external_type_specification]
#[verifier::external_body]
pub struct ExPrivate(Private);

/// The fixed sentinel session identifier used at this protocol stage.
pub const SESSION_ID: i32 = 0x1eadbeef;

/// Relies on openssl's Rsa::generate and BigNumRef::to_vec: a freshly
/// generated 1024-bit RSA key has a modulus of exactly 1024 bits, whose
/// minimal big-endian representation spans exactly 128 bytes.
#[verifier::external_body]
fn generate_keypair() -> (r: Result<(Rsa<Private>, Vec<u8>), ErrorStack>)
    ensures
        r matches Ok(p) ==> p.1@.len() == 128,
{
    let rsa = Rsa::generate(1024)?;
    let modulus = rsa.n().to_vec();
    Ok((rsa, modulus))
}

/// One login session: its identifier is a fixed sentinel at this stage; the
/// traffic key and the credential keypair are generated once and stay
/// immutable for the session's lifetime (only the cipher's active key
/// rotates, not the session's recorded key value).
pub struct AuthClient<S: AuthClientSender> {
    sender: S,
    crypt_key: Vec<u8>,
    credentials_key: Rsa<Private>,
    modulus: Vec<u8>,
}

impl<S: AuthClientSender> AuthClient<S> {
    /// The sender is usable, the traffic key is 16 bytes and the public
    /// modulus of the credential keypair is 128 bytes.
    pub closed spec fn wf(&self) -> bool {
        &&& self.sender.wf()
        &&& self.crypt_key@.len() == 16
        &&& self.modulus@.len() == 128
    }

    /// The session's 16-byte traffic key, generated once at session start.
    pub closed spec fn crypt_key(&self) -> Seq<u8> {
        self.crypt_key@
    }

    /// The 128-byte public modulus of the session's credential keypair.
    pub closed spec fn modulus(&self) -> Seq<u8> {
        self.modulus@
    }

    /// Generate the session's key material and take ownership of the packet
    /// sender.
    pub fn new(sender: S) -> (r: Result<Self, AuthError>)
        requires
            sender.wf(),
        ensures
            r matches Ok(c) ==> c.wf(),
            r matches Err(e) ==> e matches AuthError::CryptFailure,
    {
        let mut crypt_key: Vec<u8> = vec![0u8; 16];
        match fill_random(&mut crypt_key) {
            Ok(_) => (),
            Err(_) => {
                return Err(AuthError::CryptFailure);
            },
        };
        let (credentials_key, modulus) = match generate_keypair() {
            Ok(p) => p,
            Err(_) => {
                return Err(AuthError::CryptFailure);
            },
        };
        Ok(AuthClient { sender, crypt_key, credentials_key, modulus })
    }

    /// The session-initialization message: the sentinel session id, the
    /// keypair's public modulus and the generated traffic key.
    pub fn build_init_message(&self) -> (msg: ServerMessage)
        requires
            self.wf(),
        ensures
            msg matches ServerMessage::Init { session_id, modulus, crypt_key }
                && session_id == SESSION_ID && modulus@ == self.modulus() && crypt_key@
                == self.crypt_key(),
            msg.wf(),
    {
        ServerMessage::Init {
            session_id: SESSION_ID,
            modulus: clone_bytes(&self.modulus),
            crypt_key: clone_bytes(&self.crypt_key),
        }
    }

    /// Build the session-initialization message and hand it to the packet
    /// sender. On success the framed packet to transmit is returned. The
    /// session's recorded key material never changes.
    pub fn init(&mut self) -> (r: Result<Vec<u8>, AuthError>)
        requires
            old(self).wf(),
        ensures
            final(self).wf(),
            final(self).crypt_key() == old(self).crypt_key(),
            final(self).modulus() == old(self).modulus(),
    {
        let msg = self.build_init_message();
        self.sender.send(msg)
    }
}

} // verus!
