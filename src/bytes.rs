//! Fixed-width integers in byte sequences, read and written through the
//! `byteorder` crate.

use byteorder::{BigEndian, ByteOrder, LittleEndian};
use vstd::prelude::*;

verus! {

/// The value of the first four bytes of `b`, least significant byte first.
pub open spec fn le_u32(b: Seq<u8>) -> nat
    recommends
        b.len() >= 4,
{
    b[0] as nat + 256 * (b[1] as nat) + 65536 * (b[2] as nat) + 16777216 * (b[3] as nat)
}

/// The value of the first two bytes of `b`, most significant byte first.
pub open spec fn be_u16(b: Seq<u8>) -> nat
    recommends
        b.len() >= 2,
{
    256 * (b[0] as nat) + b[1] as nat
}

/// The value of the first four bytes of `b`, most significant byte first.
pub open spec fn be_u32(b: Seq<u8>) -> nat
    recommends
        b.len() >= 4,
{
    16777216 * (b[0] as nat) + 65536 * (b[1] as nat) + 256 * (b[2] as nat) + b[3] as nat
}

/// Relies on `LittleEndian::read_u32` of byteorder: the first four bytes,
/// least significant first (it panics on fewer than four).
#[verifier::external_body]
pub(crate) fn read_u32_le(b: &[u8]) -> (r: u32)
    requires
        b@.len() >= 4,
    ensures
        r as nat == le_u32(b@),
{
    LittleEndian::read_u32(b)
}

/// Relies on `BigEndian::read_u16` of byteorder: the first two bytes, most
/// significant first (it panics on fewer than two).
#[verifier::external_body]
pub(crate) fn read_u16_be(b: &[u8]) -> (r: u16)
    requires
        b@.len() >= 2,
    ensures
        r as nat == be_u16(b@),
{
    BigEndian::read_u16(b)
}

/// Relies on `BigEndian::read_u32` of byteorder: the first four bytes, most
/// significant first (it panics on fewer than four).
#[verifier::external_body]
pub(crate) fn read_u32_be(b: &[u8]) -> (r: u32)
    requires
        b@.len() >= 4,
    ensures
        r as nat == be_u32(b@),
{
    BigEndian::read_u32(b)
}

/// Relies on `LittleEndian::write_u32` of byteorder: the four bytes of `n`,
/// least significant first.
#[verifier::external_body]
pub(crate) fn write_u32_le(n: u32) -> (r: Vec<u8>)
    ensures
        r@.len() == 4,
        le_u32(r@) == n as nat,
{
    let mut buf = [0u8; 4];
    LittleEndian::write_u32(&mut buf, n);
    buf.to_vec()
}

/// Relies on `BigEndian::write_u16` of byteorder: the two bytes of `n`, most
/// significant first.
#[verifier::external_body]
pub(crate) fn write_u16_be(n: u16) -> (r: Vec<u8>)
    ensures
        r@.len() == 2,
        be_u16(r@) == n as nat,
{
    let mut buf = [0u8; 2];
    BigEndian::write_u16(&mut buf, n);
    buf.to_vec()
}

/// Relies on `BigEndian::write_u32` of byteorder: the four bytes of `n`, most
/// significant first.
#[verifier::external_body]
pub(crate) fn write_u32_be(n: u32) -> (r: Vec<u8>)
    ensures
        r@.len() == 4,
        be_u32(r@) == n as nat,
{
    let mut buf = [0u8; 4];
    BigEndian::write_u32(&mut buf, n);
    buf.to_vec()
}

/// The four bytes of `n`, least significant first.
pub open spec fn le32_bytes(n: nat) -> Seq<u8> {
    seq![(n % 256) as u8, (n / 256 % 256) as u8, (n / 65536 % 256) as u8, (n / 16777216 % 256) as u8]
}

/// The two bytes of `n`, most significant first.
pub open spec fn be16_bytes(n: nat) -> Seq<u8> {
    seq![(n / 256 % 256) as u8, (n % 256) as u8]
}

/// The four bytes of `n`, most significant first.
pub open spec fn be32_bytes(n: nat) -> Seq<u8> {
    seq![(n / 16777216 % 256) as u8, (n / 65536 % 256) as u8, (n / 256 % 256) as u8, (n % 256) as u8]
}

/// The little-endian bytes of a 32-bit value read back as that value.
pub proof fn lemma_le32_round_trip(n: nat)
    requires
        n < 0x1_0000_0000,
    ensures
        le32_bytes(n).len() == 4,
        le_u32(le32_bytes(n)) == n,
{
    let b = le32_bytes(n);
    assert(b[0] as nat + 256 * (b[1] as nat) + 65536 * (b[2] as nat) + 16777216 * (b[3] as nat) == n)
        by (nonlinear_arith)
        requires
            n < 0x1_0000_0000,
            b[0] as nat == n % 256,
            b[1] as nat == n / 256 % 256,
            b[2] as nat == n / 65536 % 256,
            b[3] as nat == n / 16777216 % 256,
    {
    }
}

/// Four bytes are the little-endian bytes of the value they read as.
pub proof fn lemma_le32_of_bytes(s: Seq<u8>)
    requires
        s.len() == 4,
    ensures
        le32_bytes(le_u32(s)) == s,
{
    let n = le_u32(s);
    assert(n % 256 == s[0] as nat && n / 256 % 256 == s[1] as nat && n / 65536 % 256 == s[2] as nat
        && n / 16777216 % 256 == s[3] as nat) by (nonlinear_arith)
        requires
            n == s[0] as nat + 256 * (s[1] as nat) + 65536 * (s[2] as nat) + 16777216 * (s[3] as nat),
            s[0] < 256,
            s[1] < 256,
            s[2] < 256,
            s[3] < 256,
    {
    }
    assert(le32_bytes(n) =~= s);
}

/// The big-endian bytes of a 16-bit value read back as that value.
pub proof fn lemma_be16_round_trip(n: nat)
    requires
        n < 0x1_0000,
    ensures
        be16_bytes(n).len() == 2,
        be_u16(be16_bytes(n)) == n,
{
    let b = be16_bytes(n);
    assert(256 * (b[0] as nat) + b[1] as nat == n) by (nonlinear_arith)
        requires
            n < 0x1_0000,
            b[0] as nat == n / 256 % 256,
            b[1] as nat == n % 256,
    {
    }
}

/// Two bytes are the big-endian bytes of the value they read as.
pub proof fn lemma_be16_of_bytes(s: Seq<u8>)
    requires
        s.len() == 2,
    ensures
        be16_bytes(be_u16(s)) == s,
{
    let n = be_u16(s);
    assert(n / 256 % 256 == s[0] as nat && n % 256 == s[1] as nat) by (nonlinear_arith)
        requires
            n == 256 * (s[0] as nat) + s[1] as nat,
            s[0] < 256,
            s[1] < 256,
    {
    }
    assert(be16_bytes(n) =~= s);
}

/// The big-endian bytes of a 32-bit value read back as that value.
pub proof fn lemma_be32_round_trip(n: nat)
    requires
        n < 0x1_0000_0000,
    ensures
        be32_bytes(n).len() == 4,
        be_u32(be32_bytes(n)) == n,
{
    let b = be32_bytes(n);
    assert(16777216 * (b[0] as nat) + 65536 * (b[1] as nat) + 256 * (b[2] as nat) + b[3] as nat == n)
        by (nonlinear_arith)
        requires
            n < 0x1_0000_0000,
            b[0] as nat == n / 16777216 % 256,
            b[1] as nat == n / 65536 % 256,
            b[2] as nat == n / 256 % 256,
            b[3] as nat == n % 256,
    {
    }
}

/// Four bytes are the big-endian bytes of the value they read as.
pub proof fn lemma_be32_of_bytes(s: Seq<u8>)
    requires
        s.len() == 4,
    ensures
        be32_bytes(be_u32(s)) == s,
{
    let n = be_u32(s);
    assert(n / 16777216 % 256 == s[0] as nat && n / 65536 % 256 == s[1] as nat && n / 256 % 256
        == s[2] as nat && n % 256 == s[3] as nat) by (nonlinear_arith)
        requires
            n == 16777216 * (s[0] as nat) + 65536 * (s[1] as nat) + 256 * (s[2] as nat) + s[3] as nat,
            s[0] < 256,
            s[1] < 256,
            s[2] < 256,
            s[3] < 256,
    {
    }
    assert(be32_bytes(n) =~= s);
}

} // verus!
