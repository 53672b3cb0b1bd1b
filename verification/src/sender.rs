//! Packet sender: encode, pad, checksum, legacy-scramble (first packet
//! only), cipher-shim, encrypt, cipher-shim, frame — and the key-rotation
//! protocol, whose ordering is load-bearing: the session-init packet is
//! encrypted under the old key and every later packet under the new one.

use vstd::prelude::*;

use crate::crypt::{
    bf_block_size, bf_ecb_encrypt, blowfish_compat, fill_random, scramble_init,
    spec_blowfish_compat, spec_rk_body, spec_rk_final, AuthClientCrypt,
};
use crate::io::{
    clone_bytes, read_d, spec_le16, spec_le32, spec_u16_le, write_d, write_u16_le, zeros,
};
use crate::message::{spec_encoded_len, spec_encoding, ServerMessage};
use crate::{AuthError, BLOCK_SIZE, BUFFER_SIZE, HEADER_SIZE};

verus! {

/// `n` rounded up to the next multiple of `b`.
pub open spec fn pad_to(n: int, b: int) -> int
    recommends
        b > 0,
{
    if n % b == 0 {
        n
    } else {
        n + b - n % b
    }
}

/// Rounding up to a multiple of `b` lands on a multiple of `b`, moves by
/// less than one block, and never moves down.
pub proof fn lemma_pad_to(n: int, b: int)
    requires
        n >= 0,
        b > 0,
    ensures
        pad_to(n, b) % b == 0,
        n <= pad_to(n, b) < n + b,
{
    if n % b != 0 {
        let q = n / b;
        let r = n % b;
        vstd::arithmetic::div_mod::lemma_fundamental_div_mod(n, b);
        assert(n + b - r == b * (q + 1)) by (nonlinear_arith)
            requires
                n == b * q + r,
        ;
        vstd::arithmetic::div_mod::lemma_mod_multiples_vanish(q + 1, 0, b);
        vstd::arithmetic::div_mod::lemma_small_mod(0, b as nat);
    }
}

/// A multiple of `b` strictly below a multiple of `b` leaves room for one
/// more block.
proof fn lemma_aligned_below(n: int, b: int, cap: int)
    requires
        b > 0,
        n >= 0,
        n % b == 0,
        cap % b == 0,
        n < cap,
    ensures
        n + b <= cap,
{
    let q = n / b;
    let p = cap / b;
    vstd::arithmetic::div_mod::lemma_fundamental_div_mod(n, b);
    vstd::arithmetic::div_mod::lemma_fundamental_div_mod(cap, b);
    assert(n + b <= cap) by (nonlinear_arith)
        requires
            n == b * q,
            cap == b * p,
            n < cap,
            b > 0,
    ;
}

/// A multiple of eight is a multiple of four.
proof fn lemma_mod8_implies_mod4(n: int)
    requires
        n >= 0,
        n % 8 == 0,
    ensures
        n % 4 == 0,
{
    let q = n / 8;
    vstd::arithmetic::div_mod::lemma_fundamental_div_mod(n, 8);
    assert(n == 4 * (2 * q)) by (nonlinear_arith)
        requires
            n == 8 * q,
    ;
    vstd::arithmetic::div_mod::lemma_mod_multiples_vanish(2 * q, 0, 4);
    vstd::arithmetic::div_mod::lemma_small_mod(0, 4);
}

/// Pad a size up to the next multiple of `block_size`; fail with
/// EncodingOverflow exactly when the padded size would reach the fixed
/// buffer capacity. A successful result is always strictly below the
/// capacity.
pub fn pad(size: usize, block_size: usize) -> (r: Result<usize, AuthError>)
    requires
        0 < block_size <= BUFFER_SIZE,
    ensures
        r matches Ok(s) ==> s == pad_to(size as int, block_size as int) && s < BUFFER_SIZE,
        r matches Err(e) ==> (e matches AuthError::EncodingOverflow { .. }) && pad_to(
            size as int,
            block_size as int,
        ) >= BUFFER_SIZE,
{
    proof {
        lemma_pad_to(size as int, block_size as int);
    }
    if size >= BUFFER_SIZE {
        return Err(AuthError::EncodingOverflow { size });
    }
    let rem = size % block_size;
    let padded = if rem != 0 {
        size + (block_size - rem)
    } else {
        size
    };
    if padded < BUFFER_SIZE {
        Ok(padded)
    } else {
        Err(AuthError::EncodingOverflow { size: padded })
    }
}

/// `s` extended with zero bytes up to length `n`.
pub open spec fn zero_extend(s: Seq<u8>, n: int) -> Seq<u8>
    recommends
        s.len() <= n,
{
    s + zeros(n - s.len())
}

/// The packet body after encoding and the checksum step: the encoding,
/// zero-padded to a block boundary, followed by the 4-byte zero checksum
/// field.
pub open spec fn spec_with_checksum(msg: ServerMessage) -> Seq<u8> {
    zero_extend(spec_encoding(msg), pad_to(spec_encoded_len(msg), BLOCK_SIZE as int)) + zeros(4)
}

/// The session-init packet body additionally gets the running-key scramble,
/// seeded with `scramble_key`, and carries the final key as a trailing
/// block.
pub open spec fn spec_init_plain(msg: ServerMessage, scramble_key: u32) -> Seq<u8> {
    let c = spec_with_checksum(msg);
    spec_rk_body(c, scramble_key) + spec_le32(spec_rk_final(c, scramble_key))
}

/// What goes into the cipher: the byte-order shim of the plaintext,
/// zero-padded to the cipher's block size.
pub open spec fn spec_cipher_input(plain: Seq<u8>) -> Seq<u8> {
    zero_extend(spec_blowfish_compat(plain), pad_to(plain.len() as int, 8))
}

/// The complete wire frame for a plaintext body encrypted under `key`: a
/// 2-byte little-endian header holding the total frame size, then the
/// shimmed ciphertext.
pub open spec fn spec_frame(key: Seq<u8>, plain: Seq<u8>) -> Seq<u8> {
    let body = spec_blowfish_compat(bf_ecb_encrypt(key, spec_cipher_input(plain)));
    spec_le16((body.len() + HEADER_SIZE) as u16) + body
}

/// In every frame small enough for its header field, the declared length —
/// the 16-bit value in the leading header — equals the whole frame's size:
/// the header itself plus the actual number of body bytes after it.
pub proof fn lemma_frame_header_length(key: Seq<u8>, plain: Seq<u8>)
    requires
        spec_frame(key, plain).len() <= u16::MAX,
    ensures
        spec_u16_le(spec_frame(key, plain).subrange(0, 2)) == spec_frame(key, plain).len(),
{
    let body = spec_blowfish_compat(bf_ecb_encrypt(key, spec_cipher_input(plain)));
    let h = (body.len() + HEADER_SIZE) as u16;
    let f = spec_frame(key, plain);
    assert(f.subrange(0, 2) =~= spec_le16(h));
    crate::io::lemma_le16_roundtrip(h);
}

/// Outbound packet sender: builds one complete wire packet per message.
pub trait AuthClientSender {
    /// Scratch buffers and cipher state are in place.
    spec fn wf(&self) -> bool;

    /// Build one framed wire packet (header plus encrypted body) for the
    /// message, or fail without producing one.
    fn send(&mut self, msg: ServerMessage) -> (r: Result<Vec<u8>, AuthError>)
        requires
            old(self).wf(),
            msg.wf(),
        ensures
            final(self).wf(),
    ;
}

/// The packet sender: fixed-capacity scratch buffers, reset on every send,
/// and the crypto state whose key rotates after the first packet.
pub struct AuthClientSenderImpl {
    packet: Vec<u8>,
    buffer: Vec<u8>,
    crypt: AuthClientCrypt,
}

impl AuthClientSenderImpl {
    /// The key currently held by both directions of the cipher.
    pub closed spec fn key(&self) -> Seq<u8> {
        self.crypt.key()
    }

    /// A sender around existing crypto state, with fresh scratch buffers.
    pub fn new(crypt: AuthClientCrypt) -> (r: Self)
        requires
            crypt.wf(),
        ensures
            r.wf(),
            r.key() == crypt.key(),
    {
        AuthClientSenderImpl {
            packet: vec![0u8; BUFFER_SIZE],
            buffer: vec![0u8; BUFFER_SIZE],
            crypt,
        }
    }
}

/// Reset a scratch buffer to zero.
fn fill_zero(buf: &mut Vec<u8>)
    ensures
        final(buf)@.len() == old(buf)@.len(),
        forall|i: int| 0 <= i < final(buf)@.len() ==> final(buf)@[i] == 0,
{
    let n = buf.len();
    let mut i: usize = 0;
    while i < n
        invariant
            i <= n,
            buf@.len() == n,
            forall|j: int| 0 <= j < i ==> buf@[j] == 0,
        decreases n - i,
    {
        buf[i] = 0;
        i = i + 1;
    }
}

impl AuthClientSender for AuthClientSenderImpl {
    closed spec fn wf(&self) -> bool {
        &&& self.packet@.len() == BUFFER_SIZE
        &&& self.buffer@.len() == BUFFER_SIZE
        &&& self.crypt.wf()
    }

    fn send(&mut self, msg: ServerMessage) -> (r: Result<Vec<u8>, AuthError>)
        ensures
            r matches Ok(frame) ==> frame@.len() <= BUFFER_SIZE && (frame@.len()
                - HEADER_SIZE as int) % 8 == 0,
            match r {
                Ok(frame) => match msg {
                    ServerMessage::Init { crypt_key, .. } => final(self).key() == crypt_key@
                        && exists|sk: u32|
                        frame@ == spec_frame(old(self).key(), spec_init_plain(msg, sk))
                            && frame@.len() == HEADER_SIZE + spec_cipher_input(
                            spec_init_plain(msg, sk),
                        ).len(),
                    ServerMessage::GGAuth { .. } => final(self).key() == old(self).key()
                        && frame@ == spec_frame(old(self).key(), spec_with_checksum(msg))
                        && frame@.len() == HEADER_SIZE + spec_cipher_input(
                        spec_with_checksum(msg),
                    ).len(),
                },
                Err(e) => final(self).key() == old(self).key()
                    && e matches AuthError::CryptFailure,
            },
    {
        // Remember whether this message carries a new traffic key (true only
        // for Init).
        let new_crypt_key: Option<Vec<u8>> = match &msg {
            ServerMessage::Init { crypt_key, .. } => Some(clone_bytes(crypt_key)),
            ServerMessage::GGAuth { .. } => None,
        };

        // Reset buffers for writing.
        fill_zero(&mut self.packet);
        fill_zero(&mut self.buffer);

        // Encode the message.
        let size0 = crate::message::encode(&msg, &mut self.packet);
        proof {
            assert(size0 <= 169);
            lemma_pad_to(size0 as int, BLOCK_SIZE as int);
        }

        // Checksum: a fixed zero placeholder after block padding. Both
        // message encodings stay far below the capacity, so no padding
        // stage can overflow.
        let size1 = match pad(size0, BLOCK_SIZE) {
            Ok(s) => s,
            Err(_) => {
                proof {
                    assert(false);
                }
                return Err(AuthError::CryptFailure);
            },
        };
        let mut size = write_d(&mut self.packet, size1, 0);
        let ghost cs = spec_with_checksum(msg);
        proof {
            crate::io::lemma_le32_zero();
            assert(self.packet@.subrange(0, size as int) =~= cs);
            assert forall|i: int| size <= i < self.packet@.len() implies self.packet@[i] == 0 by {}
        }

        // Additional scramble for the first packet of the session, seeded
        // with a fresh random key.
        let ghost mut plain = cs;
        if new_crypt_key.is_some() {
            let mut rnd: Vec<u8> = vec![0u8; 4];
            match fill_random(&mut rnd) {
                Ok(_) => (),
                Err(_) => {
                    return Err(AuthError::CryptFailure);
                },
            };
            let skey = read_d(rnd.as_slice(), 0);
            let size2 = match pad(size, BLOCK_SIZE) {
                Ok(s) => s,
                Err(_) => {
                    proof {
                        assert(false);
                    }
                    return Err(AuthError::CryptFailure);
                },
            };
            proof {
                assert(size2 == size);
            }
            match scramble_init(&mut self.packet, size2, skey) {
                Ok(_) => (),
                Err(_) => {
                    proof {
                        assert(false);
                    }
                    return Err(AuthError::CryptFailure);
                },
            };
            proof {
                plain = spec_init_plain(msg, skey as u32);
                assert(self.packet@.subrange(0, size2 + 4) =~= plain);
            }
            size = size2 + 4;
        }
        proof {
            assert(self.packet@.subrange(0, size as int) == plain);
            assert forall|i: int| size <= i < self.packet@.len() implies self.packet@[i] == 0 by {}
        }

        // Byte-order shim, then pad to the cipher's block size.
        let size3 = match pad(size, BLOCK_SIZE) {
            Ok(s) => s,
            Err(_) => {
                proof {
                    assert(false);
                }
                return Err(AuthError::CryptFailure);
            },
        };
        proof {
            assert(size3 == size);
        }
        blowfish_compat(&mut self.packet, size3);
        proof {
            lemma_pad_to(size3 as int, 8);
        }
        let size4 = match pad(size3, bf_block_size()) {
            Ok(s) => s,
            Err(_) => {
                proof {
                    assert(false);
                }
                return Err(AuthError::CryptFailure);
            },
        };
        proof {
            lemma_aligned_below(size4 as int, 8, BUFFER_SIZE as int);
            assert(self.packet@.subrange(0, size4 as int) =~= spec_cipher_input(plain));
        }

        // Encryption, and the key rotation, in one exclusive region: the
        // packet just built is encrypted under the old key, every later
        // packet under the new one.
        let n = match self.crypt.encrypt_update(&self.packet, size4, &mut self.buffer) {
            Ok(n) => n,
            Err(_) => {
                return Err(AuthError::CryptFailure);
            },
        };
        if let Some(k) = &new_crypt_key {
            match self.crypt.update_key(k.as_slice()) {
                Ok(_) => (),
                Err(_) => {
                    return Err(AuthError::CryptFailure);
                },
            };
        }
        proof {
            lemma_mod8_implies_mod4(n as int);
        }
        blowfish_compat(&mut self.buffer, n);

        // Header, then the encrypted body.
        let header: u16 = (n + HEADER_SIZE) as u16;
        let mut frame: Vec<u8> = vec![0u8; 2];
        write_u16_le(&mut frame, 0, header);
        let ghost out = self.buffer@;
        let mut i: usize = 0;
        while i < n
            invariant
                i <= n,
                n <= out.len(),
                self.buffer@ == out,
                frame@.len() == 2 + i,
                frame@.subrange(0, 2) == spec_le16(header),
                frame@.subrange(2, frame@.len() as int) == out.subrange(0, i as int),
            decreases n - i,
        {
            frame.push(self.buffer[i]);
            i = i + 1;
            proof {
                assert(frame@.subrange(0, 2) =~= spec_le16(header));
                assert(frame@.subrange(2, frame@.len() as int) =~= out.subrange(0, i as int));
            }
        }
        proof {
            assert(frame@ =~= spec_frame(old(self).key(), plain));
        }
        Ok(frame)
    }
}

} // verus!
