//! Legacy scramble transforms and the block-cipher wrapper: the
//! fixed-position XOR/swap scramble of the RSA modulus, the running-key
//! additive-XOR scramble of the first packet, the byte-order compatibility
//! shim wrapped around the cipher, and the pair of directional Blowfish-ECB
//! cipher instances with their mid-session key rotation.

use vstd::prelude::*;

use crate::io::{read_u32_le, spec_le32, spec_u32_le, write_u32_le};
use crate::AuthError;
use openssl::error::ErrorStack;
use openssl::provider::Provider;
use openssl::symm::{Cipher, Crypter, Mode};

verus! {

#[verifier::external_type_specification]
#[verifier::external_body]
pub struct ExCrypter(Crypter);

#[verifier::external_type_specification]
#[verifier::external_body]
pub struct ExErrorStack(ErrorStack);

#[verifier::external_type_specification]
#[verifier::external_body]
pub struct ExProvider(Provider);

/// Holds when `c` is a Blowfish-ECB crypter with padding disabled, keyed
/// with `key`, encrypting if `encrypting` is true and decrypting otherwise,
/// and with no partial block pending inside it. Fresh crypters have nothing
/// pending, and every update below feeds whole blocks, so nothing ever is.
pub uninterp spec fn crypter_is(c: Crypter, key: Seq<u8>, encrypting: bool) -> bool;

/// The Blowfish-ECB encryption of `data` (a whole number of 8-byte blocks)
/// under `key`.
pub uninterp spec fn bf_ecb_encrypt(key: Seq<u8>, data: Seq<u8>) -> Seq<u8>;

/// The Blowfish-ECB decryption of `data` (a whole number of 8-byte blocks)
/// under `key`.
pub uninterp spec fn bf_ecb_decrypt(key: Seq<u8>, data: Seq<u8>) -> Seq<u8>;

/// Relies on openssl's Provider::try_load: loading the "legacy" provider
/// into the default library context makes legacy algorithms such as
/// Blowfish available for as long as the returned handle lives.
#[verifier::external_body]
fn load_legacy_provider() -> (r: Result<Provider, ErrorStack>) {
    Provider::try_load(None, "legacy", true)
}

/// Relies on openssl's Crypter::new with Cipher::bf_ecb and Crypter::pad:
/// on success the result is a Blowfish-ECB crypter for the requested
/// direction, keyed with `key`, with padding disabled. Blowfish takes no
/// initialization vector, and setting the length of a 16-byte key cannot
/// overflow a C int, so Crypter::new does not panic.
#[verifier::external_body]
fn new_crypter(key: &[u8], encrypting: bool) -> (r: Result<Crypter, ErrorStack>)
    requires
        key@.len() == 16,
    ensures
        r matches Ok(c) ==> crypter_is(c, key@, encrypting),
{
    let mode = if encrypting {
        Mode::Encrypt
    } else {
        Mode::Decrypt
    };
    let mut crypter = Crypter::new(Cipher::bf_ecb(), mode, key, None)?;
    crypter.pad(false);
    Ok(crypter)
}

/// Relies on openssl's Crypter::update: with padding disabled, no partial
/// block pending and block-aligned input, a Blowfish-ECB crypter processes
/// the input whole, so on success it reports exactly `len` bytes written,
/// those bytes are the encryption (or decryption) of the input under the
/// crypter's key, the rest of `output` is untouched, and nothing stays
/// pending. The key and direction never change. Crypter::update panics
/// when the output is not a block longer than the input, or when a length
/// overflows a C int; the preconditions rule both out.
#[verifier::external_body]
fn crypter_update(c: &mut Crypter, input: &Vec<u8>, len: usize, output: &mut Vec<u8>) -> (r: Result<
    usize,
    ErrorStack,
>)
    requires
        len <= input@.len(),
        len % 8 == 0,
        len <= 0x7fffffff,
        old(output)@.len() >= len + 8,
        old(output)@.len() <= 0x7fffffff,
    ensures
        final(output)@.len() == old(output)@.len(),
        forall|key: Seq<u8>, e: bool|
            crypter_is(*old(c), key, e) ==> crypter_is(*final(c), key, e),
        forall|key: Seq<u8>|
            crypter_is(*old(c), key, true) ==> (r matches Ok(n) ==> n == len
                && final(output)@.subrange(0, len as int) == bf_ecb_encrypt(key, input@.subrange(0, len as int))
                && final(output)@.skip(len as int) == old(output)@.skip(len as int)),
        forall|key: Seq<u8>|
            crypter_is(*old(c), key, false) ==> (r matches Ok(n) ==> n == len
                && final(output)@.subrange(0, len as int) == bf_ecb_decrypt(key, input@.subrange(0, len as int))
                && final(output)@.skip(len as int) == old(output)@.skip(len as int)),
{
    c.update(&input[..len], output.as_mut_slice())
}

/// Relies on openssl's rand_bytes: fills the buffer with cryptographically
/// random bytes; nothing can be promised of their values. rand_bytes panics
/// on buffers longer than a C int can count, which the precondition rules
/// out.
#[verifier::external_body]
pub(crate) fn fill_random(buf: &mut Vec<u8>) -> (r: Result<(), ErrorStack>)
    requires
        old(buf)@.len() <= 0x7fffffff,
    ensures
        final(buf)@.len() == old(buf)@.len(),
{
    openssl::rand::rand_bytes(buf.as_mut_slice())
}

/// Relies on openssl's Cipher::bf_ecb().block_size(): Blowfish works on
/// 8-byte blocks.
#[verifier::external_body]
pub fn bf_block_size() -> (n: usize)
    ensures
        n == 8,
{
    Cipher::bf_ecb().block_size()
}

/// First scramble step: the first four bytes trade places with the four
/// bytes at offset 77.
pub open spec fn mod_step1(s: Seq<u8>) -> Seq<u8> {
    Seq::new(
        s.len(),
        |i: int|
            if 0 <= i < 4 {
                s[i + 77]
            } else if 77 <= i < 81 {
                s[i - 77]
            } else {
                s[i]
            },
    )
}

/// Second scramble step: each byte of the lower half absorbs the byte 64
/// positions above it, for the first `k` positions.
pub open spec fn mod_xor_lower(s: Seq<u8>, k: int) -> Seq<u8> {
    Seq::new(
        s.len(),
        |i: int|
            if 0 <= i < k {
                (s[i] ^ s[i + 64]) as u8
            } else {
                s[i]
            },
    )
}

/// Third scramble step: bytes 13 to 16 absorb the bytes 39 positions above.
pub open spec fn mod_step3(s: Seq<u8>) -> Seq<u8> {
    Seq::new(
        s.len(),
        |i: int|
            if 13 <= i < 17 {
                (s[i] ^ s[i + 39]) as u8
            } else {
                s[i]
            },
    )
}

/// Fourth scramble step: each byte of the upper half absorbs the byte 64
/// positions below it, for the first `k` upper positions.
pub open spec fn mod_xor_upper(s: Seq<u8>, k: int) -> Seq<u8> {
    Seq::new(
        s.len(),
        |i: int|
            if 64 <= i < 64 + k {
                (s[i] ^ s[i - 64]) as u8
            } else {
                s[i]
            },
    )
}

/// The complete modulus scramble: the four steps in order, each reading the
/// result of the one before.
pub open spec fn spec_scramble_modulus(s: Seq<u8>) -> Seq<u8>
    recommends
        s.len() == 128,
{
    mod_xor_upper(mod_step3(mod_xor_lower(mod_step1(s), 64)), 64)
}

/// Scramble the RSA public modulus in place before it goes on the wire.
pub fn scramble_modulus(modulus: &mut Vec<u8>)
    requires
        old(modulus)@.len() == 128,
    ensures
        final(modulus)@ == spec_scramble_modulus(old(modulus)@),
{
    let ghost s0 = modulus@;

    // Step 1: swap bytes 0..4 with bytes 77..81.
    let mut i: usize = 0;
    while i < 4
        invariant
            i <= 4,
            modulus@.len() == 128,
            forall|j: int|
                0 <= j < 128 ==> modulus@[j] == (if 0 <= j < i {
                    s0[j + 77]
                } else if 77 <= j < 77 + i {
                    s0[j - 77]
                } else {
                    s0[j]
                }),
        decreases 4 - i,
    {
        let a = modulus[i];
        let b = modulus[i + 77];
        modulus[i] = b;
        modulus[i + 77] = a;
        i = i + 1;
    }
    let ghost s1 = modulus@;
    proof {
        assert(s1 =~= mod_step1(s0));
    }

    // Step 2: fold the upper half into the lower half.
    let mut i: usize = 0;
    while i < 64
        invariant
            i <= 64,
            modulus@.len() == 128,
            s1.len() == 128,
            modulus@ == mod_xor_lower(s1, i as int),
        decreases 64 - i,
    {
        let x = modulus[i];
        let y = modulus[i + 64];
        modulus[i] = x ^ y;
        i = i + 1;
        proof {
            assert(modulus@ =~= mod_xor_lower(s1, i as int));
        }
    }
    let ghost s2 = modulus@;

    // Step 3: bytes 13..17 absorb bytes 52..56.
    let mut i: usize = 0;
    while i < 4
        invariant
            i <= 4,
            modulus@.len() == 128,
            s2.len() == 128,
            forall|j: int|
                0 <= j < 128 ==> modulus@[j] == (if 13 <= j < 13 + i {
                    (s2[j] ^ s2[j + 39]) as u8
                } else {
                    s2[j]
                }),
        decreases 4 - i,
    {
        let x = modulus[i + 13];
        let y = modulus[i + 52];
        modulus[i + 13] = x ^ y;
        i = i + 1;
    }
    let ghost s3 = modulus@;
    proof {
        assert(s3 =~= mod_step3(s2));
    }

    // Step 4: fold the lower half back into the upper half.
    let mut i: usize = 0;
    while i < 64
        invariant
            i <= 64,
            modulus@.len() == 128,
            s3.len() == 128,
            modulus@ == mod_xor_upper(s3, i as int),
        decreases 64 - i,
    {
        let x = modulus[i + 64];
        let y = modulus[i];
        modulus[i + 64] = x ^ y;
        i = i + 1;
        proof {
            assert(modulus@ =~= mod_xor_upper(s3, i as int));
        }
    }
    proof {
        assert(modulus@ =~= spec_scramble_modulus(s0));
    }
}

/// The position whose byte lands at position `i` under the byte-order
/// compatibility shim: positions 0 and 3, and positions 1 and 2, of each
/// 4-byte block trade places.
pub open spec fn compat_src(i: int) -> int
    recommends
        i >= 0,
{
    i - 2 * (i % 4) + 3
}

/// The byte-order compatibility shim applied around cipher operations.
pub open spec fn spec_blowfish_compat(s: Seq<u8>) -> Seq<u8>
    recommends
        s.len() % 4 == 0,
{
    Seq::new(s.len(), |i: int| s[compat_src(i)])
}

/// Within a buffer whose length is a multiple of four, the shim source
/// position stays inside the same 4-byte block and maps back to where it
/// came from.
pub proof fn lemma_compat_src(i: int, len: int)
    requires
        0 <= i < len,
        len % 4 == 0,
    ensures
        0 <= compat_src(i) < len,
        i - (i % 4) <= compat_src(i) < i - (i % 4) + 4,
        compat_src(compat_src(i)) == i,
{
    let r = i % 4;
    let q = i / 4;
    vstd::arithmetic::div_mod::lemma_fundamental_div_mod(i, 4);
    vstd::arithmetic::div_mod::lemma_mod_division_less_than_divisor(i, 4);
    let j = compat_src(i);
    assert(j == 4 * q + (3 - r));
    vstd::arithmetic::div_mod::lemma_mod_multiples_vanish(q, 3 - r, 4);
    vstd::arithmetic::div_mod::lemma_small_mod((3 - r) as nat, 4);
    assert(j % 4 == 3 - r);
    assert(compat_src(j) == i);
    // j stays below len: the block start 4*q is at most len - 4.
    assert(4 * q < len);
    let ql = len / 4;
    vstd::arithmetic::div_mod::lemma_fundamental_div_mod(len, 4);
    assert(len == 4 * ql);
    assert(q < ql) by (nonlinear_arith)
        requires
            4 * q < 4 * ql,
    ;
    assert(4 * q <= 4 * (ql - 1)) by (nonlinear_arith)
        requires
            q <= ql - 1,
    ;
}

/// Applying the shim twice restores every byte.
pub proof fn lemma_blowfish_compat_self_inverse(s: Seq<u8>)
    requires
        s.len() % 4 == 0,
    ensures
        spec_blowfish_compat(spec_blowfish_compat(s)) == s,
{
    let t = spec_blowfish_compat(spec_blowfish_compat(s));
    assert forall|i: int| 0 <= i < s.len() implies t[i] == s[i] by {
        lemma_compat_src(i, s.len() as int);
        lemma_compat_src(compat_src(i), s.len() as int);
    }
    assert(t =~= s);
}

/// Apply the byte-order compatibility shim to the first `size` bytes of the
/// buffer, in place. Self-inverse: a second application restores the bytes.
pub fn blowfish_compat(buffer: &mut Vec<u8>, size: usize)
    requires
        size % 4 == 0,
        size <= old(buffer)@.len(),
    ensures
        final(buffer)@.len() == old(buffer)@.len(),
        final(buffer)@.subrange(0, size as int) == spec_blowfish_compat(
            old(buffer)@.subrange(0, size as int),
        ),
        forall|i: int|
            size <= i < final(buffer)@.len() ==> final(buffer)@[i] == old(buffer)@[i],
{
    let ghost s0 = buffer@;
    let ghost body = s0.subrange(0, size as int);
    let mut off: usize = 0;
    while off < size
        invariant
            off % 4 == 0,
            off <= size,
            size % 4 == 0,
            size <= buffer@.len(),
            buffer@.len() == s0.len(),
            body == s0.subrange(0, size as int),
            forall|j: int| 0 <= j < off ==> buffer@[j] == body[compat_src(j)],
            forall|j: int| off <= j < buffer@.len() ==> buffer@[j] == s0[j],
        decreases size - off,
    {
        proof {
            assert((off + 4) % 4 == 0) by {
                vstd::arithmetic::div_mod::lemma_mod_multiples_vanish(1, off as int, 4);
            }
            assert(compat_src(off as int) == off + 3) by {
                vstd::arithmetic::div_mod::lemma_mod_multiples_vanish(
                    off as int / 4,
                    0,
                    4,
                );
                vstd::arithmetic::div_mod::lemma_fundamental_div_mod(off as int, 4);
            }
            assert((off + 1) % 4 == 1 && (off + 2) % 4 == 2 && (off + 3) % 4 == 3) by {
                let q = off as int / 4;
                vstd::arithmetic::div_mod::lemma_fundamental_div_mod(off as int, 4);
                vstd::arithmetic::div_mod::lemma_mod_multiples_vanish(q, 1, 4);
                vstd::arithmetic::div_mod::lemma_mod_multiples_vanish(q, 2, 4);
                vstd::arithmetic::div_mod::lemma_mod_multiples_vanish(q, 3, 4);
                vstd::arithmetic::div_mod::lemma_small_mod(1, 4);
                vstd::arithmetic::div_mod::lemma_small_mod(2, 4);
                vstd::arithmetic::div_mod::lemma_small_mod(3, 4);
            }
        }
        let a = buffer[off];
        let b = buffer[off + 3];
        buffer[off] = b;
        buffer[off + 3] = a;
        let c = buffer[off + 1];
        let d = buffer[off + 2];
        buffer[off + 1] = d;
        buffer[off + 2] = c;
        off = off + 4;
    }
    proof {
        assert(buffer@.subrange(0, size as int) =~= spec_blowfish_compat(body));
    }
}

/// The 4-byte little-endian block at block index `j` of a buffer.
pub open spec fn block_at(s: Seq<u8>, j: int) -> u32
    recommends
        0 <= j,
        4 * j + 4 <= s.len(),
{
    spec_u32_le(s.subrange(4 * j, 4 * j + 4))
}

/// The running key after absorbing blocks 1 through `j`: the wrapping sum of
/// the seed with every block read in its original, pre-mutation form.
pub open spec fn rk_key(s: Seq<u8>, key0: u32, j: int) -> u32
    decreases j,
{
    if j <= 0 {
        key0
    } else {
        rk_key(s, key0, j - 1).wrapping_add(block_at(s, j))
    }
}

/// The buffer after the running-key scramble: block 0 (the checksum field)
/// is untouched, every later block is XORed with the running key as of that
/// block.
pub open spec fn spec_rk_body(s: Seq<u8>, key0: u32) -> Seq<u8>
    recommends
        s.len() % 4 == 0,
{
    Seq::new(
        s.len(),
        |i: int|
            if i < 4 {
                s[i]
            } else {
                spec_le32((block_at(s, i / 4) ^ rk_key(s, key0, i / 4)) as u32)[i % 4]
            },
    )
}

/// The final running key, written as the trailing block after the scramble.
pub open spec fn spec_rk_final(s: Seq<u8>, key0: u32) -> u32 {
    rk_key(s, key0, s.len() as int / 4 - 1)
}

/// A position inside an aligned 4-byte block has that block's index and its
/// offset within the block as division and remainder by four.
proof fn lemma_div_mod_in_block(off: int, i: int)
    requires
        off >= 0,
        off % 4 == 0,
        off <= i < off + 4,
    ensures
        i / 4 == off / 4,
        i % 4 == i - off,
{
    let q = off / 4;
    vstd::arithmetic::div_mod::lemma_fundamental_div_mod(off, 4);
    vstd::arithmetic::div_mod::lemma_fundamental_div_mod_converse(i, 4, q, i - off);
}

/// Apply the running-key scramble to `buffer[..size]` in place, then write
/// the final key as a trailing 4-byte block at offset `size`. The first
/// block is left untouched. Fails, after the blocks have been scrambled but
/// without writing the trailer, exactly when the trailer would not fit.
pub fn scramble_init(buffer: &mut Vec<u8>, size: usize, key: i32) -> (r: Result<(), AuthError>)
    requires
        size % 4 == 0,
        4 <= size <= old(buffer)@.len(),
    ensures
        final(buffer)@.len() == old(buffer)@.len(),
        final(buffer)@.subrange(0, size as int) == spec_rk_body(
            old(buffer)@.subrange(0, size as int),
            key as u32,
        ),
        r matches Ok(_) <==> size + 4 <= old(buffer)@.len(),
        r matches Ok(_) ==> final(buffer)@.subrange(size as int, size + 4) == spec_le32(
            spec_rk_final(old(buffer)@.subrange(0, size as int), key as u32),
        ),
        r matches Ok(_) ==> forall|i: int|
            size + 4 <= i < final(buffer)@.len() ==> final(buffer)@[i] == old(buffer)@[i],
        r matches Err(e) ==> (e matches AuthError::EncodingOverflow { size: s } && s == size)
            && forall|i: int|
            size <= i < final(buffer)@.len() ==> final(buffer)@[i] == old(buffer)@[i],
{
    let ghost s0 = buffer@;
    let ghost body = s0.subrange(0, size as int);
    let ghost key0 = (key as u32);
    let buf_len = buffer.len();  // bounds the ghost length by usize::MAX
    let mut k: u32 = #[verifier::truncate] (key as u32);
    let mut off: usize = 4;
    while off < size
        invariant
            4 <= off <= size,
            off % 4 == 0,
            size % 4 == 0,
            size <= buffer@.len(),
            buffer@.len() == s0.len(),
            s0.len() <= usize::MAX,
            body == s0.subrange(0, size as int),
            k == rk_key(body, key0, off as int / 4 - 1),
            forall|j: int| 0 <= j < off ==> buffer@[j] == spec_rk_body(body, key0)[j],
            forall|j: int| off <= j < buffer@.len() ==> buffer@[j] == s0[j],
        decreases size - off,
    {
        let ghost jb = off as int / 4;
        proof {
            vstd::arithmetic::div_mod::lemma_fundamental_div_mod(off as int, 4);
            assert(off == 4 * jb);
            assert((off + 4) % 4 == 0 && (off + 4) as int / 4 == jb + 1) by {
                vstd::arithmetic::div_mod::lemma_fundamental_div_mod_converse(
                    off + 4,
                    4,
                    jb + 1,
                    0,
                );
            }
        }
        let b = read_u32_le(buffer.as_slice(), off);
        proof {
            assert(buffer@.subrange(off as int, off + 4) =~= body.subrange(4 * jb, 4 * jb + 4));
            assert(b == block_at(body, jb));
        }
        k = k.wrapping_add(b);
        let x = b ^ k;
        write_u32_le(buffer, off, x);
        proof {
            assert(jb >= 1);
            assert(k == rk_key(body, key0, jb));
            assert forall|j: int| off <= j < off + 4 implies buffer@[j] == spec_rk_body(
                body,
                key0,
            )[j] by {
                lemma_div_mod_in_block(off as int, j);
                assert(buffer@[j] == spec_le32(x)[j - off]);
            }
        }
        off = off + 4;
    }
    proof {
        assert(buffer@.subrange(0, size as int) =~= spec_rk_body(body, key0));
        vstd::arithmetic::div_mod::lemma_fundamental_div_mod(size as int, 4);
        assert(size as int / 4 - 1 == off as int / 4 - 1);
        assert(k == spec_rk_final(body, key0));
    }
    if size <= buf_len - 4 {
        write_u32_le(buffer, size, k);
        proof {
            assert(buffer@.subrange(0, size as int) =~= spec_rk_body(body, key0));
        }
        Ok(())
    } else {
        Err(AuthError::EncodingOverflow { size })
    }
}

/// A pair of directional Blowfish-ECB cipher instances in ECB mode with no
/// padding. Invariant: at any instant both directions share the same key.
/// The key rotates exactly once per session, immediately after the first
/// packet is encrypted.
pub struct AuthClientCrypt {
    provider: Provider,
    encrypt: Crypter,
    decrypt: Crypter,
    key: Ghost<Seq<u8>>,
}

impl AuthClientCrypt {
    /// Both cipher directions are Blowfish-ECB without padding and share the
    /// same 16-byte key.
    pub closed spec fn wf(&self) -> bool {
        &&& crypter_is(self.encrypt, self.key@, true)
        &&& crypter_is(self.decrypt, self.key@, false)
        &&& self.key@.len() == 16
    }

    /// The key both directions are keyed with.
    pub closed spec fn key(&self) -> Seq<u8> {
        self.key@
    }

    /// Construct both cipher directions from an initial key.
    pub fn new(key: &[u8]) -> (r: Result<AuthClientCrypt, AuthError>)
        requires
            key@.len() == 16,
        ensures
            r matches Ok(c) ==> c.wf() && c.key() == key@,
            r matches Err(e) ==> e matches AuthError::CryptFailure,
    {
        let provider = match load_legacy_provider() {
            Ok(p) => p,
            Err(_) => {
                return Err(AuthError::CryptFailure);
            },
        };
        let encrypt = match new_crypter(key, true) {
            Ok(c) => c,
            Err(_) => {
                return Err(AuthError::CryptFailure);
            },
        };
        let decrypt = match new_crypter(key, false) {
            Ok(c) => c,
            Err(_) => {
                return Err(AuthError::CryptFailure);
            },
        };
        Ok(AuthClientCrypt { provider, encrypt, decrypt, key: Ghost(key@) })
    }

    /// Rebuild both cipher directions from a new key, atomically from the
    /// caller's point of view: on failure the old pair stays in place, so
    /// there is no state in which the two directions use different keys.
    pub fn update_key(&mut self, key: &[u8]) -> (r: Result<(), AuthError>)
        requires
            old(self).wf(),
            key@.len() == 16,
        ensures
            final(self).wf(),
            r matches Ok(_) ==> final(self).key() == key@,
            r matches Err(e) ==> e matches AuthError::CryptFailure && final(self).key() == old(self).key(),
    {
        let encrypt = match new_crypter(key, true) {
            Ok(c) => c,
            Err(_) => {
                return Err(AuthError::CryptFailure);
            },
        };
        let decrypt = match new_crypter(key, false) {
            Ok(c) => c,
            Err(_) => {
                return Err(AuthError::CryptFailure);
            },
        };
        self.encrypt = encrypt;
        self.decrypt = decrypt;
        self.key = Ghost(key@);
        Ok(())
    }

    /// Encrypt `input[..len]` into the start of `output`, returning how many
    /// bytes were written. The rest of `output` is untouched and the key
    /// does not change.
    pub fn encrypt_update(&mut self, input: &Vec<u8>, len: usize, output: &mut Vec<u8>) -> (r:
        Result<usize, AuthError>)
        requires
            old(self).wf(),
            len <= input@.len(),
            len % 8 == 0,
            old(output)@.len() >= len + 8,
            old(output)@.len() <= 0x7fffffff,
        ensures
            final(self).wf(),
            final(self).key() == old(self).key(),
            final(output)@.len() == old(output)@.len(),
            r matches Ok(n) ==> n == len && final(output)@.subrange(0, len as int)
                == bf_ecb_encrypt(old(self).key(), input@.subrange(0, len as int)) && final(output)@.skip(len as int) == old(output)@.skip(len as int),
            r matches Err(e) ==> e matches AuthError::CryptFailure,
    {
        match crypter_update(&mut self.encrypt, input, len, output) {
            Ok(n) => Ok(n),
            Err(_) => Err(AuthError::CryptFailure),
        }
    }

    /// Decrypt `input[..len]` into the start of `output`, returning how many
    /// bytes were written. The rest of `output` is untouched and the key
    /// does not change.
    pub fn decrypt_update(&mut self, input: &Vec<u8>, len: usize, output: &mut Vec<u8>) -> (r:
        Result<usize, AuthError>)
        requires
            old(self).wf(),
            len <= input@.len(),
            len % 8 == 0,
            old(output)@.len() >= len + 8,
            old(output)@.len() <= 0x7fffffff,
        ensures
            final(self).wf(),
            final(self).key() == old(self).key(),
            final(output)@.len() == old(output)@.len(),
            r matches Ok(n) ==> n == len && final(output)@.subrange(0, len as int)
                == bf_ecb_decrypt(old(self).key(), input@.subrange(0, len as int)) && final(output)@.skip(len as int) == old(output)@.skip(len as int),
            r matches Err(e) ==> e matches AuthError::CryptFailure,
    {
        match crypter_update(&mut self.decrypt, input, len, output) {
            Ok(n) => Ok(n),
            Err(_) => Err(AuthError::CryptFailure),
        }
    }
}

} // verus!
