//! Little-endian primitive read/write operations over byte buffers, used by
//! the message model and the packet sender for tags, header and length
//! fields.

use vstd::prelude::*;

verus! {

/// The two little-endian bytes of a 16-bit value, low byte first.
pub open spec fn spec_le16(x: u16) -> Seq<u8> {
    seq![(x & 0xff) as u8, ((x >> 8) & 0xff) as u8]
}

/// The four little-endian bytes of a 32-bit value, low byte first.
pub open spec fn spec_le32(x: u32) -> Seq<u8> {
    seq![
        (x & 0xff) as u8,
        ((x >> 8) & 0xff) as u8,
        ((x >> 16) & 0xff) as u8,
        ((x >> 24) & 0xff) as u8,
    ]
}

/// The 16-bit value carried by two little-endian bytes.
pub open spec fn spec_u16_le(s: Seq<u8>) -> u16
    recommends
        s.len() == 2,
{
    ((s[0] as u16) | (s[1] as u16) << 8) as u16
}

/// The 32-bit value carried by four little-endian bytes.
pub open spec fn spec_u32_le(s: Seq<u8>) -> u32
    recommends
        s.len() == 4,
{
    ((s[0] as u32) | (s[1] as u32) << 8 | (s[2] as u32) << 16 | (s[3] as u32) << 24) as u32
}

/// A sequence of `n` zero bytes.
pub open spec fn zeros(n: int) -> Seq<u8> {
    Seq::new(n as nat, |i: int| 0u8)
}

/// Encoding a 16-bit value and reading the bytes back yields the value.
pub proof fn lemma_le16_roundtrip(x: u16)
    ensures
        spec_u16_le(spec_le16(x)) == x,
{
    let s = spec_le16(x);
    let b0 = s[0];
    let b1 = s[1];
    assert(((b0 as u16) | (b1 as u16) << 8) as u16 == x) by (bit_vector)
        requires
            b0 == (x & 0xff) as u8,
            b1 == ((x >> 8) & 0xff) as u8,
    ;
}

/// The 32-bit value zero encodes as four zero bytes.
pub proof fn lemma_le32_zero()
    ensures
        spec_le32(0) == zeros(4),
{
    assert(0u32 & 0xff == 0 && (0u32 >> 8) & 0xff == 0 && (0u32 >> 16) & 0xff == 0 && (0u32 >> 24)
        & 0xff == 0) by (bit_vector);
    assert(spec_le32(0) =~= zeros(4));
}

/// Copy a byte vector.
pub(crate) fn clone_bytes(v: &Vec<u8>) -> (r: Vec<u8>)
    ensures
        r@ == v@,
{
    let r = v.clone();
    proof {
        assert(r@ =~= v@);
    }
    r
}

/// Write B value: a raw byte span.
pub fn write_b(buf: &mut Vec<u8>, pos: usize, data: &[u8]) -> (end: usize)
    requires
        pos + data@.len() <= old(buf)@.len(),
    ensures
        end == pos + data@.len(),
        final(buf)@.len() == old(buf)@.len(),
        final(buf)@.subrange(pos as int, end as int) == data@,
        forall|i: int|
            0 <= i < final(buf)@.len() && !(pos <= i < end) ==> final(buf)@[i] == old(buf)@[i],
{
    let _buf_len = buf.len();  // bounds the ghost length by usize::MAX
    let mut i: usize = 0;
    while i < data.len()
        invariant
            buf@.len() <= usize::MAX,
            pos + data@.len() <= buf@.len(),
            i <= data@.len(),
            buf@.len() == old(buf)@.len(),
            forall|j: int| pos <= j < pos + i ==> buf@[j] == data@[j - pos],
            forall|j: int| 0 <= j < buf@.len() && !(pos <= j < pos + i) ==> buf@[j] == old(
                buf,
            )@[j],
        decreases data@.len() - i,
    {
        buf[pos + i] = data[i];
        i = i + 1;
    }
    proof {
        assert(buf@.subrange(pos as int, pos + data@.len()) =~= data@);
    }
    pos + data.len()
}

/// Write C value (1 byte).
pub fn write_c(buf: &mut Vec<u8>, pos: usize, n: i8) -> (end: usize)
    requires
        pos + 1 <= old(buf)@.len(),
    ensures
        end == pos + 1,
        final(buf)@ == old(buf)@.update(pos as int, n as u8),
{
    let _buf_len = buf.len();  // bounds the ghost length by usize::MAX
    buf[pos] = #[verifier::truncate] (n as u8);
    pos + 1
}

/// Write H value (2 bytes, little-endian).
pub fn write_h(buf: &mut Vec<u8>, pos: usize, n: i16) -> (end: usize)
    requires
        pos + 2 <= old(buf)@.len(),
    ensures
        end == pos + 2,
        final(buf)@.len() == old(buf)@.len(),
        final(buf)@.subrange(pos as int, end as int) == spec_le16(n as u16),
        forall|i: int|
            0 <= i < final(buf)@.len() && !(pos <= i < end) ==> final(buf)@[i] == old(buf)@[i],
{
    let u = #[verifier::truncate] (n as u16);
    write_u16_le(buf, pos, u)
}

/// Write a 16-bit value as two little-endian bytes.
pub fn write_u16_le(buf: &mut Vec<u8>, pos: usize, u: u16) -> (end: usize)
    requires
        pos + 2 <= old(buf)@.len(),
    ensures
        end == pos + 2,
        final(buf)@.len() == old(buf)@.len(),
        final(buf)@.subrange(pos as int, end as int) == spec_le16(u),
        forall|i: int|
            0 <= i < final(buf)@.len() && !(pos <= i < end) ==> final(buf)@[i] == old(buf)@[i],
{
    let _buf_len = buf.len();  // bounds the ghost length by usize::MAX
    buf[pos] = (u & 0xff) as u8;
    buf[pos + 1] = ((u >> 8) & 0xff) as u8;
    proof {
        assert(buf@.subrange(pos as int, pos + 2) =~= spec_le16(u));
    }
    pos + 2
}

/// Write D value (4 bytes, little-endian).
pub fn write_d(buf: &mut Vec<u8>, pos: usize, n: i32) -> (end: usize)
    requires
        pos + 4 <= old(buf)@.len(),
    ensures
        end == pos + 4,
        final(buf)@.len() == old(buf)@.len(),
        final(buf)@.subrange(pos as int, end as int) == spec_le32(n as u32),
        forall|i: int|
            0 <= i < final(buf)@.len() && !(pos <= i < end) ==> final(buf)@[i] == old(buf)@[i],
{
    let u = #[verifier::truncate] (n as u32);
    write_u32_le(buf, pos, u)
}

/// Write a 32-bit value as four little-endian bytes.
pub fn write_u32_le(buf: &mut Vec<u8>, pos: usize, u: u32) -> (end: usize)
    requires
        pos + 4 <= old(buf)@.len(),
    ensures
        end == pos + 4,
        final(buf)@.len() == old(buf)@.len(),
        final(buf)@.subrange(pos as int, end as int) == spec_le32(u),
        forall|i: int|
            0 <= i < final(buf)@.len() && !(pos <= i < end) ==> final(buf)@[i] == old(buf)@[i],
{
    let _buf_len = buf.len();  // bounds the ghost length by usize::MAX
    buf[pos] = (u & 0xff) as u8;
    buf[pos + 1] = ((u >> 8) & 0xff) as u8;
    buf[pos + 2] = ((u >> 16) & 0xff) as u8;
    buf[pos + 3] = ((u >> 24) & 0xff) as u8;
    proof {
        assert(buf@.subrange(pos as int, pos + 4) =~= spec_le32(u));
    }
    pos + 4
}

/// Read H value (2 bytes, little-endian).
pub fn read_h(buf: &[u8], pos: usize) -> (r: i16)
    requires
        pos + 2 <= buf@.len(),
    ensures
        r == spec_u16_le(buf@.subrange(pos as int, pos + 2)) as i16,
{
    let b0 = buf[pos];
    let b1 = buf[pos + 1];
    let u: u16 = (b0 as u16) | (b1 as u16) << 8;
    proof {
        let s = buf@.subrange(pos as int, pos + 2);
        assert(s[0] == b0 && s[1] == b1);
    }
    #[verifier::truncate] (u as i16)
}

/// Read D value (4 bytes, little-endian).
pub fn read_d(buf: &[u8], pos: usize) -> (r: i32)
    requires
        pos + 4 <= buf@.len(),
    ensures
        r == spec_u32_le(buf@.subrange(pos as int, pos + 4)) as i32,
{
    let u = read_u32_le(buf, pos);
    #[verifier::truncate] (u as i32)
}

/// Read a 32-bit value from four little-endian bytes.
pub fn read_u32_le(buf: &[u8], pos: usize) -> (r: u32)
    requires
        pos + 4 <= buf@.len(),
    ensures
        r == spec_u32_le(buf@.subrange(pos as int, pos + 4)),
{
    let b0 = buf[pos];
    let b1 = buf[pos + 1];
    let b2 = buf[pos + 2];
    let b3 = buf[pos + 3];
    let u: u32 = (b0 as u32) | (b1 as u32) << 8 | (b2 as u32) << 16 | (b3 as u32) << 24;
    proof {
        let s = buf@.subrange(pos as int, pos + 4);
        assert(s[0] == b0 && s[1] == b1 && s[2] == b2 && s[3] == b3);
    }
    u
}

} // verus!
