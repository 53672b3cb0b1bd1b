//! Outbound/inbound packet pipeline for a legacy MMO-style login-server
//! handshake: building the session-initialization message, applying the
//! legacy byte-scrambling and block-cipher transformations, framing the
//! result for transport, and decoding the single inbound request recognized
//! at this stage.

use vstd::prelude::*;

pub mod client;
pub mod crypt;
pub mod io;
pub mod message;
pub mod sender;

verus! {

/// Size of the packet length header, in bytes.
pub const HEADER_SIZE: usize = 2;

/// Size of the scratch buffers for packet bodies; a framed packet
/// (header plus body) never reaches this size.
pub const BUFFER_SIZE: usize = 1024;

/// Size of the block for the legacy scramble transforms.
pub const BLOCK_SIZE: usize = 4;

/// Well-known initial key for the traffic cipher; every session starts
/// with it and rotates to a per-session key after the first packet.
pub const INIT_KEY: [u8; 16] = [
    0x6B, 0x60, 0xCB, 0x5B, 0x82, 0xCE, 0x90, 0xB1, 0xCC, 0x2B, 0x6C, 0x55, 0x6C, 0x6C, 0x6C, 0x6C,
];

/// Errors surfaced by the packet pipeline.
#[derive(Debug, PartialEq, Eq, Structural)]
pub enum AuthError {
    /// A padded packet size would reach the fixed buffer capacity.
    EncodingOverflow { size: usize },
    /// An inbound packet carried an unrecognized leading tag byte.
    MalformedInput { tag: u8 },
    /// The underlying cipher or key-material provider failed.
    CryptFailure,
    /// A transport write or flush failed; the session is unusable afterward.
    /// Raised only at the transport boundary, outside this library.
    IOFailure,
    /// A shared-state lock could not be acquired. Raised only where callers
    /// share a session across threads, outside this library.
    LockFailure,
}

} // verus!
