//! Byte-order helpers for the wire codec: big-endian encodings of the
//! fixed-width integer fields that RADIUS uses, and their inverses.

use vstd::prelude::*;

verus! {

broadcast use vstd::seq::group_seq_axioms;

/// The 4-byte big-endian encoding of a 32-bit value.
pub open spec fn spec_u32_to_be_bytes(x: u32) -> Seq<u8> {
    seq![
        ((x >> 24) & 0xff) as u8,
        ((x >> 16) & 0xff) as u8,
        ((x >> 8) & 0xff) as u8,
        (x & 0xff) as u8,
    ]
}

/// The 32-bit value denoted by 4 bytes in big-endian order.
pub open spec fn spec_u32_from_be_bytes(s: Seq<u8>) -> u32
    recommends
        s.len() == 4,
{
    ((s[0] as u32) << 24) | ((s[1] as u32) << 16) | ((s[2] as u32) << 8) | (s[3] as u32)
}

/// The 2-byte big-endian encoding of a 16-bit value.
pub open spec fn spec_u16_to_be_bytes(x: u16) -> Seq<u8> {
    seq![((x >> 8) & 0xff) as u8, (x & 0xff) as u8]
}

/// The 16-bit value denoted by 2 bytes in big-endian order.
pub open spec fn spec_u16_from_be_bytes(s: Seq<u8>) -> u16
    recommends
        s.len() == 2,
{
    ((s[0] as u16) << 8) | (s[1] as u16)
}

pub proof fn lemma_u32_be_bytes_roundtrip(x: u32)
    ensures
        spec_u32_to_be_bytes(x).len() == 4,
        spec_u32_from_be_bytes(spec_u32_to_be_bytes(x)) == x,
{
    let b0 = ((x >> 24) & 0xff) as u8;
    let b1 = ((x >> 16) & 0xff) as u8;
    let b2 = ((x >> 8) & 0xff) as u8;
    let b3 = (x & 0xff) as u8;
    assert(((b0 as u32) << 24) | ((b1 as u32) << 16) | ((b2 as u32) << 8) | (b3 as u32) == x)
        by (bit_vector)
        requires
            b0 == ((x >> 24) & 0xff) as u8,
            b1 == ((x >> 16) & 0xff) as u8,
            b2 == ((x >> 8) & 0xff) as u8,
            b3 == (x & 0xff) as u8,
    ;
}

pub proof fn lemma_u16_be_bytes_roundtrip(x: u16)
    ensures
        spec_u16_to_be_bytes(x).len() == 2,
        spec_u16_from_be_bytes(spec_u16_to_be_bytes(x)) == x,
{
    let b0 = ((x >> 8) & 0xff) as u8;
    let b1 = (x & 0xff) as u8;
    assert(((b0 as u16) << 8) | (b1 as u16) == x) by (bit_vector)
        requires
            b0 == ((x >> 8) & 0xff) as u8,
            b1 == (x & 0xff) as u8,
    ;
}

/// The 4-byte big-endian encoding of `v`, as a vector.
pub fn vec_from_u32(v: u32) -> (out: Vec<u8>)
    ensures
        out@ == spec_u32_to_be_bytes(v),
{
    let mut out: Vec<u8> = Vec::new();
    assert((v >> 24) & 0xff < 256 && (v >> 16) & 0xff < 256 && (v >> 8) & 0xff < 256 && v & 0xff
        < 256) by (bit_vector);
    out.push(((v >> 24) & 0xff) as u8);
    out.push(((v >> 16) & 0xff) as u8);
    out.push(((v >> 8) & 0xff) as u8);
    out.push((v & 0xff) as u8);
    assert(out@ =~= spec_u32_to_be_bytes(v));
    out
}

/// The 2-byte big-endian encoding of `v`, as a vector.
pub fn vec_from_u16(v: u16) -> (out: Vec<u8>)
    ensures
        out@ == spec_u16_to_be_bytes(v),
{
    let mut out: Vec<u8> = Vec::new();
    assert((v >> 8) & 0xff < 256 && v & 0xff < 256) by (bit_vector);
    out.push(((v >> 8) & 0xff) as u8);
    out.push((v & 0xff) as u8);
    assert(out@ =~= spec_u16_to_be_bytes(v));
    out
}

pub proof fn lemma_u32_be_bytes_inverse(s: Seq<u8>)
    requires
        s.len() == 4,
    ensures
        spec_u32_to_be_bytes(spec_u32_from_be_bytes(s)) == s,
{
    let x = spec_u32_from_be_bytes(s);
    let b0 = s[0];
    let b1 = s[1];
    let b2 = s[2];
    let b3 = s[3];
    assert(((x >> 24) & 0xff) as u8 == b0 && ((x >> 16) & 0xff) as u8 == b1 && ((x >> 8) & 0xff)
        as u8 == b2 && (x & 0xff) as u8 == b3) by (bit_vector)
        requires
            x == ((b0 as u32) << 24) | ((b1 as u32) << 16) | ((b2 as u32) << 8) | (b3 as u32),
    ;
    assert(spec_u32_to_be_bytes(x) =~= s);
}

pub proof fn lemma_u16_be_bytes_inverse(s: Seq<u8>)
    requires
        s.len() == 2,
    ensures
        spec_u16_to_be_bytes(spec_u16_from_be_bytes(s)) == s,
{
    let x = spec_u16_from_be_bytes(s);
    let b0 = s[0];
    let b1 = s[1];
    assert(((x >> 8) & 0xff) as u8 == b0 && (x & 0xff) as u8 == b1) by (bit_vector)
        requires
            x == ((b0 as u16) << 8) | (b1 as u16),
    ;
    assert(spec_u16_to_be_bytes(x) =~= s);
}

/// The four octets of an IPv4 address in network order, as a vector.
pub fn vec_from_ipv4(v: crate::pkt::Ipv4Address) -> (out: Vec<u8>)
    ensures
        out@ == v.spec_octets(),
{
    let mut out: Vec<u8> = Vec::new();
    out.push(v.octet0);
    out.push(v.octet1);
    out.push(v.octet2);
    out.push(v.octet3);
    assert(out@ =~= v.spec_octets());
    out
}

/// An owned copy of a byte vector, with the same contents.
pub fn clone_bytes(v: &Vec<u8>) -> (r: Vec<u8>)
    ensures
        r@ == v@,
{
    vstd::slice::slice_to_vec(v.as_slice())
}

/// Reads a 16-bit value from 2 big-endian bytes starting at `start`.
pub fn u16_from_be_at(v: &Vec<u8>, start: usize) -> (r: u16)
    requires
        start + 2 <= v@.len(),
    ensures
        r == spec_u16_from_be_bytes(v@.subrange(start as int, start as int + 2)),
{
    let n = v.len();
    let b0 = v[start];
    let b1 = v[start + 1];
    let r = ((b0 as u16) << 8) | (b1 as u16);
    proof {
        let s = v@.subrange(start as int, start as int + 2);
        assert(s[0] == b0 && s[1] == b1);
    }
    r
}

/// Reads a 32-bit value from 4 big-endian bytes starting at `start`.
pub fn u32_from_be_at(v: &Vec<u8>, start: usize) -> (r: u32)
    requires
        start + 4 <= v@.len(),
    ensures
        r == spec_u32_from_be_bytes(v@.subrange(start as int, start as int + 4)),
{
    let n = v.len();
    let b0 = v[start];
    let b1 = v[start + 1];
    let b2 = v[start + 2];
    let b3 = v[start + 3];
    let r = ((b0 as u32) << 24) | ((b1 as u32) << 16) | ((b2 as u32) << 8) | (b3 as u32);
    proof {
        let s = v@.subrange(start as int, start as int + 4);
        assert(s[0] == b0 && s[1] == b1 && s[2] == b2 && s[3] == b3);
    }
    r
}

} // verus!
