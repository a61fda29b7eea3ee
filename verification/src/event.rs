//! Binary flow-event records: the fixed layout shared by the packet classifier,
//! which writes the records, and the event drain, which reads them.
//!
//! A record is twelve bytes: the source address, the destination address, the
//! source port and the destination port. Every field is stored most significant
//! byte first, except the destination address, whose four bytes are stored in
//! reversed order.

use vstd::arithmetic::div_mod::lemma_fundamental_div_mod_converse;
use vstd::prelude::*;

verus! {

/// Length in bytes of an IPv4 flow record.
pub const IPV4_EVENT_LEN: usize = 12;

/// The number whose two bytes, most significant first, are `hi` and `lo`.
pub open spec fn be16(hi: u8, lo: u8) -> int {
    hi as int * 0x100 + lo as int
}

/// The number whose four bytes, most significant first, are `b0` to `b3`.
pub open spec fn be32(b0: u8, b1: u8, b2: u8, b3: u8) -> int {
    b0 as int * 0x100_0000 + b1 as int * 0x1_0000 + b2 as int * 0x100 + b3 as int
}

/// The four bytes of `x`, most significant first.
pub open spec fn octets(x: u32) -> Seq<u8> {
    seq![
        (x / 0x100_0000) as u8,
        ((x / 0x1_0000) % 0x100) as u8,
        ((x / 0x100) % 0x100) as u8,
        (x % 0x100) as u8,
    ]
}

/// The two bytes of `x`, most significant first.
pub open spec fn octets16(x: u16) -> Seq<u8> {
    seq![(x / 0x100) as u8, (x % 0x100) as u8]
}

/// A detected IPv4 flow: addresses and ports as numbers in host order.
#[derive(Debug, Clone, Copy, PartialEq, Eq, Structural)]
pub struct Ipv4Event {
    pub src_addr: u32,
    pub dst_addr: u32,
    pub src_port: u16,
    pub dst_port: u16,
}

/// A detected IPv6 flow. The layout is reserved; no component produces it yet.
#[derive(Debug, Clone, Copy, PartialEq, Eq, Structural)]
pub struct Ipv6Event {
    pub src_addr: u128,
    pub dst_addr: u128,
    pub src_port: u16,
    pub dst_port: u16,
}

proof fn lemma_shift_is_scale(b: u8)
    by (bit_vector)
    ensures
        (b as u32) << 24 == (b as u32) * 0x100_0000,
        (b as u32) << 16 == (b as u32) * 0x1_0000,
        (b as u32) << 8 == (b as u32) * 0x100,
        (b as u16) << 8 == (b as u16) * 0x100,
{
}

proof fn lemma_octets_by_shift(x: u32)
    by (bit_vector)
    ensures
        (x >> 24) & 0xff == x / 0x100_0000,
        (x >> 16) & 0xff == (x / 0x1_0000) % 0x100,
        (x >> 8) & 0xff == (x / 0x100) % 0x100,
        x & 0xff == x % 0x100,
        x / 0x100_0000 < 0x100,
{
}

proof fn lemma_octets16_by_shift(x: u16)
    by (bit_vector)
    ensures
        (x >> 8) & 0xff == x / 0x100,
        x & 0xff == x % 0x100,
        x / 0x100 < 0x100,
{
}

/// Assembles a 32-bit number from four bytes, most significant first.
pub fn u32_from_be(b0: u8, b1: u8, b2: u8, b3: u8) -> (x: u32)
    ensures
        x == be32(b0, b1, b2, b3),
{
    proof {
        lemma_shift_is_scale(b0);
        lemma_shift_is_scale(b1);
        lemma_shift_is_scale(b2);
    }
    ((b0 as u32) << 24) + ((b1 as u32) << 16) + ((b2 as u32) << 8) + (b3 as u32)
}

/// Assembles a 16-bit number from two bytes, most significant first.
pub fn u16_from_be(hi: u8, lo: u8) -> (x: u16)
    ensures
        x == be16(hi, lo),
{
    proof {
        lemma_shift_is_scale(hi);
    }
    ((hi as u16) << 8) + (lo as u16)
}

/// Splits a 32-bit number into its four bytes, most significant first.
pub fn u32_to_octets(x: u32) -> (b: [u8; 4])
    ensures
        b@ == octets(x),
{
    proof {
        lemma_octets_by_shift(x);
    }
    let b1: u8 = ((x >> 24) & 0xff) as u8;
    let b2: u8 = ((x >> 16) & 0xff) as u8;
    let b3: u8 = ((x >> 8) & 0xff) as u8;
    let b4: u8 = (x & 0xff) as u8;
    let b = [b1, b2, b3, b4];
    assert(b@ =~= octets(x));
    b
}

/// Splits a 16-bit number into its two bytes, most significant first.
pub fn u16_to_octets(x: u16) -> (b: [u8; 2])
    ensures
        b@ == octets16(x),
{
    proof {
        lemma_octets16_by_shift(x);
    }
    let hi: u8 = ((x >> 8) & 0xff) as u8;
    let lo: u8 = (x & 0xff) as u8;
    let b = [hi, lo];
    assert(b@ =~= octets16(x));
    b
}

impl Ipv4Event {
    /// The flow that the first twelve bytes of `v` describe.
    pub open spec fn decoded(v: Seq<u8>) -> Ipv4Event {
        Ipv4Event {
            src_addr: be32(v[0], v[1], v[2], v[3]) as u32,
            dst_addr: be32(v[7], v[6], v[5], v[4]) as u32,
            src_port: be16(v[8], v[9]) as u16,
            dst_port: be16(v[10], v[11]) as u16,
        }
    }

    /// The twelve bytes that describe this flow.
    pub open spec fn encoded(self) -> Seq<u8> {
        octets(self.src_addr) + octets(self.dst_addr).reverse() + octets16(self.src_port)
            + octets16(self.dst_port)
    }

    /// Reads a flow from the first twelve bytes of `v`.
    pub fn from(v: &[u8]) -> (e: Ipv4Event)
        requires
            v@.len() >= IPV4_EVENT_LEN,
        ensures
            e == Ipv4Event::decoded(v@),
    {
        let a = u32_from_be(v[0], v[1], v[2], v[3]);
        let b = u32_from_be(v[7], v[6], v[5], v[4]);
        let c = u16_from_be(v[8], v[9]);
        let d = u16_from_be(v[10], v[11]);
        Ipv4Event { src_addr: a, dst_addr: b, src_port: c, dst_port: d }
    }

    /// Reads a flow from `v`, or nothing where `v` is shorter than a record.
    pub fn decode(v: &[u8]) -> (r: Option<Ipv4Event>)
        ensures
            r == if v@.len() >= IPV4_EVENT_LEN {
                Some(Ipv4Event::decoded(v@))
            } else {
                None
            },
    {
        if v.len() >= IPV4_EVENT_LEN {
            Some(Ipv4Event::from(v))
        } else {
            None
        }
    }

    /// Writes this flow as a record.
    pub fn encode(&self) -> (r: [u8; 12])
        ensures
            r@ == self.encoded(),
    {
        let s = u32_to_octets(self.src_addr);
        let d = u32_to_octets(self.dst_addr);
        let p = u16_to_octets(self.src_port);
        let q = u16_to_octets(self.dst_port);
        let r = [s[0], s[1], s[2], s[3], d[3], d[2], d[1], d[0], p[0], p[1], q[0], q[1]];
        assert(r@ =~= self.encoded());
        r
    }
}

proof fn lemma_octets_rebuild(x: u32)
    by (bit_vector)
    ensures
        (x / 0x100_0000) * 0x100_0000 + ((x / 0x1_0000) % 0x100) * 0x1_0000 + ((x / 0x100) % 0x100)
            * 0x100 + x % 0x100 == x,
        x / 0x100_0000 < 0x100,
{
}

proof fn lemma_octets16_rebuild(x: u16)
    by (bit_vector)
    ensures
        (x / 0x100) * 0x100 + x % 0x100 == x,
        x / 0x100 < 0x100,
{
}

/// Decoding the record of a flow gives the flow back, field by field.
pub proof fn lemma_decode_encode(e: Ipv4Event)
    ensures
        e.encoded().len() == IPV4_EVENT_LEN,
        Ipv4Event::decoded(e.encoded()) == e,
{
    lemma_octets_rebuild(e.src_addr);
    lemma_octets_rebuild(e.dst_addr);
    lemma_octets16_rebuild(e.src_port);
    lemma_octets16_rebuild(e.dst_port);
}

/// The bytes of the number assembled from four bytes are those four bytes.
pub proof fn lemma_be32_octets(b0: u8, b1: u8, b2: u8, b3: u8)
    ensures
        0 <= be32(b0, b1, b2, b3) <= u32::MAX,
        octets(be32(b0, b1, b2, b3) as u32) == seq![b0, b1, b2, b3],
{
    let x = be32(b0, b1, b2, b3);
    let hi = b0 as int * 0x100 + b1 as int;
    let mid = hi * 0x100 + b2 as int;
    lemma_fundamental_div_mod_converse(
        x,
        0x100_0000,
        b0 as int,
        b1 as int * 0x1_0000 + b2 as int * 0x100 + b3 as int,
    );
    lemma_fundamental_div_mod_converse(x, 0x1_0000, hi, b2 as int * 0x100 + b3 as int);
    lemma_fundamental_div_mod_converse(hi, 0x100, b0 as int, b1 as int);
    lemma_fundamental_div_mod_converse(x, 0x100, mid, b3 as int);
    lemma_fundamental_div_mod_converse(mid, 0x100, hi, b2 as int);
    assert(octets(x as u32) =~= seq![b0, b1, b2, b3]);
}

/// The bytes of the number assembled from two bytes are those two bytes.
pub proof fn lemma_be16_octets(hi: u8, lo: u8)
    ensures
        0 <= be16(hi, lo) <= u16::MAX,
        octets16(be16(hi, lo) as u16) == seq![hi, lo],
{
    lemma_fundamental_div_mod_converse(be16(hi, lo), 0x100, hi as int, lo as int);
    assert(octets16(be16(hi, lo) as u16) =~= seq![hi, lo]);
}

/// Encoding the flow read from a record gives the record back, byte by byte.
pub proof fn lemma_encode_decode(v: Seq<u8>)
    requires
        v.len() == IPV4_EVENT_LEN,
    ensures
        Ipv4Event::decoded(v).encoded() == v,
{
    lemma_be32_octets(v[0], v[1], v[2], v[3]);
    lemma_be32_octets(v[7], v[6], v[5], v[4]);
    lemma_be16_octets(v[8], v[9]);
    lemma_be16_octets(v[10], v[11]);
    assert(Ipv4Event::decoded(v).encoded() =~= v);
}

} // verus!
