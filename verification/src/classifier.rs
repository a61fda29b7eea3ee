//! The packet classifier: decides, for one ingress frame, whether the frame
//! opens a TCP connection to a watched virtual address, and if so queues a
//! flow record. It never holds a frame back: its answer only says whether the
//! frame could be read.

use crate::event::{be16, be32, u16_from_be, u32_from_be, Ipv4Event};
use crate::event::{lemma_be16_octets, lemma_be32_octets, lemma_decode_encode};
use crate::ring::{pushed, EventRing};
use crate::vip_table::VipTable;
use vstd::prelude::*;

verus! {

/// Answer for a frame whose headers could not be read.
pub const XDP_ABORTED: u32 = 0;

/// Answer for every frame that was read: the frame goes on.
pub const XDP_PASS: u32 = 2;

/// Length of the link-layer header.
pub const ETH_HDR_LEN: usize = 14;

/// Length of the fixed part of the IPv4 header.
pub const IPV4_HDR_LEN: usize = 20;

/// Length of the fixed part of the TCP header.
pub const TCP_HDR_LEN: usize = 20;

/// Protocol type of a frame that carries IPv4.
pub const ETHER_TYPE_IPV4: u16 = 0x0800;

/// Protocol type of a frame that carries IPv6.
pub const ETHER_TYPE_IPV6: u16 = 0x86DD;

/// Upper-layer protocol number of TCP.
pub const IP_PROTO_TCP: u8 = 6;

/// The SYN bit in the flags byte of a TCP header.
pub const TCP_FLAG_SYN: u8 = 0x02;

/// Offset, in the TCP header, of the byte that holds the flags.
pub const TCP_FLAGS_OFFSET: usize = 13;

/// What the classifier makes of a frame.
#[derive(Debug, Clone, Copy, PartialEq, Eq, Structural)]
pub enum Verdict {
    /// A header reaches past the end of the frame.
    Aborted,
    /// The frame is of no interest.
    Pass,
    /// The frame opens a TCP connection to a watched address.
    Flow(Ipv4Event),
}

/// The protocol type in the link-layer header.
pub open spec fn ether_type(f: Seq<u8>) -> int {
    be16(f[12], f[13])
}

/// The upper-layer protocol number in the IPv4 header.
pub open spec fn ipv4_proto(f: Seq<u8>) -> u8 {
    f[ETH_HDR_LEN + 9]
}

/// The source address in the IPv4 header, as a number in host order.
pub open spec fn ipv4_src(f: Seq<u8>) -> u32 {
    be32(f[ETH_HDR_LEN + 12], f[ETH_HDR_LEN + 13], f[ETH_HDR_LEN + 14], f[ETH_HDR_LEN + 15]) as u32
}

/// The destination address in the IPv4 header, as a number in host order.
pub open spec fn ipv4_dst(f: Seq<u8>) -> u32 {
    be32(f[ETH_HDR_LEN + 16], f[ETH_HDR_LEN + 17], f[ETH_HDR_LEN + 18], f[ETH_HDR_LEN + 19]) as u32
}

/// Where the TCP header starts: after the IPv4 header, whose length in 32-bit
/// words is the low half of its first byte.
pub open spec fn tcp_offset(f: Seq<u8>) -> int {
    ETH_HDR_LEN + 4 * (f[ETH_HDR_LEN as int] % 16)
}

/// Whether the SYN flag of the TCP header is set.
pub open spec fn tcp_syn(f: Seq<u8>) -> bool {
    (f[tcp_offset(f) + TCP_FLAGS_OFFSET] / 2) % 2 == 1
}

/// The source port in the TCP header.
pub open spec fn tcp_src_port(f: Seq<u8>) -> u16 {
    be16(f[tcp_offset(f)], f[tcp_offset(f) + 1]) as u16
}

/// The destination port in the TCP header.
pub open spec fn tcp_dst_port(f: Seq<u8>) -> u16 {
    be16(f[tcp_offset(f) + 2], f[tcp_offset(f) + 3]) as u16
}

/// The flow that the headers of `f` describe.
pub open spec fn flow_of(f: Seq<u8>) -> Ipv4Event {
    Ipv4Event {
        src_addr: ipv4_src(f),
        dst_addr: ipv4_dst(f),
        src_port: tcp_src_port(f),
        dst_port: tcp_dst_port(f),
    }
}

/// The address under which the frame is looked up in the VIP table: the
/// destination of an IPv4 frame, nothing for a frame of another protocol, an
/// error for a frame that ends inside a header.
pub open spec fn destination_of(f: Seq<u8>) -> Result<Option<u32>, ()> {
    if f.len() < ETH_HDR_LEN {
        Err(())
    } else if ether_type(f) != ETHER_TYPE_IPV4 {
        Ok(None)
    } else if f.len() < ETH_HDR_LEN + IPV4_HDR_LEN {
        Err(())
    } else {
        Ok(Some(ipv4_dst(f)))
    }
}

/// The flow that the frame opens: that of an IPv4 TCP segment with the SYN
/// flag, nothing for any other readable frame, an error for a frame that ends
/// inside a header.
pub open spec fn new_flow_of(f: Seq<u8>) -> Result<Option<Ipv4Event>, ()> {
    match destination_of(f) {
        Err(e) => Err(e),
        Ok(None) => Ok(None),
        Ok(Some(_)) => if ipv4_proto(f) != IP_PROTO_TCP {
            Ok(None)
        } else if f.len() < tcp_offset(f) + TCP_HDR_LEN {
            Err(())
        } else if !tcp_syn(f) {
            Ok(None)
        } else {
            Ok(Some(flow_of(f)))
        },
    }
}

/// Whether the look-up of the frame's destination in `vips` finds it. A frame
/// without a readable destination is not looked up.
pub open spec fn looked_up(f: Seq<u8>, vips: Set<u32>) -> bool {
    destination_of(f) matches Ok(Some(dst)) && vips.contains(dst)
}

/// What the classifier makes of the frame `f` once the look-up of its
/// destination has found it or not. The destination is looked up before the
/// rest of the frame is read.
pub open spec fn verdict_given(f: Seq<u8>, found: bool) -> Verdict {
    match destination_of(f) {
        Err(_) => Verdict::Aborted,
        Ok(None) => Verdict::Pass,
        Ok(Some(_)) => if !found {
            Verdict::Pass
        } else {
            match new_flow_of(f) {
                Err(_) => Verdict::Aborted,
                Ok(None) => Verdict::Pass,
                Ok(Some(flow)) => Verdict::Flow(flow),
            }
        },
    }
}

/// What the classifier makes of the frame `f` while the table holds `vips`.
pub open spec fn verdict_of(f: Seq<u8>, vips: Set<u32>) -> Verdict {
    verdict_given(f, looked_up(f, vips))
}

/// The answer that goes with a verdict.
pub open spec fn action_of(v: Verdict) -> u32 {
    match v {
        Verdict::Aborted => XDP_ABORTED,
        _ => XDP_PASS,
    }
}

/// The records of a ring after the classifier has acted on a verdict.
pub open spec fn emitted(records: Seq<Seq<u8>>, capacity: nat, v: Verdict) -> Seq<Seq<u8>> {
    match v {
        Verdict::Flow(flow) => pushed(records, capacity, flow.encoded()),
        _ => records,
    }
}

/// Whether `f` is an IPv4 frame whose fixed IPv4 header is all there and that
/// carries TCP.
pub open spec fn is_tcp(f: Seq<u8>) -> bool {
    &&& f.len() >= ETH_HDR_LEN + IPV4_HDR_LEN
    &&& ether_type(f) == ETHER_TYPE_IPV4
    &&& ipv4_proto(f) == IP_PROTO_TCP
}

/// Whether `f` is a TCP segment whose fixed TCP header is all there and has
/// the SYN flag set.
pub open spec fn is_tcp_syn(f: Seq<u8>) -> bool {
    &&& is_tcp(f)
    &&& f.len() >= tcp_offset(f) + TCP_HDR_LEN
    &&& tcp_syn(f)
}

proof fn lemma_header_bits(b: u8)
    by (bit_vector)
    ensures
        b & 0x0f == b % 16,
        (b & 0x02 != 0) == ((b / 2) % 2 == 1),
{
}

/// Checks that `len` bytes at `offset` lie inside the frame, and gives the
/// offset back if they do.
pub fn ptr_at(frame: &[u8], offset: usize, len: usize) -> (r: Result<usize, ()>)
    ensures
        r == if offset + len <= frame@.len() {
            Ok::<usize, ()>(offset)
        } else {
            Err::<usize, ()>(())
        },
{
    let frame_len = frame.len();
    match offset.checked_add(len) {
        Some(end) => {
            if end <= frame_len {
                Ok(offset)
            } else {
                Err(())
            }
        },
        None => Err(()),
    }
}

/// Whether `addr` is in the VIP table.
pub fn is_ipv4vip(vips: &VipTable, addr: u32) -> (b: bool)
    ensures
        b == vips@.contains(addr),
{
    vips.contains(addr)
}

/// Reads the address under which the frame is looked up in the VIP table.
pub fn destination(frame: &[u8]) -> (r: Result<Option<u32>, ()>)
    ensures
        r == destination_of(frame@),
{
    let eth = ptr_at(frame, 0, ETH_HDR_LEN)?;
    let ether_type = u16_from_be(frame[eth + 12], frame[eth + 13]);
    if ether_type != ETHER_TYPE_IPV4 {
        return Ok(None);
    }
    let ip = ptr_at(frame, ETH_HDR_LEN, IPV4_HDR_LEN)?;
    let dst_addr = u32_from_be(frame[ip + 16], frame[ip + 17], frame[ip + 18], frame[ip + 19]);
    Ok(Some(dst_addr))
}

/// Reads the flow that the frame opens, if it opens one.
pub fn new_flow(frame: &[u8]) -> (r: Result<Option<Ipv4Event>, ()>)
    ensures
        r == new_flow_of(frame@),
{
    let dst_addr = match destination(frame)? {
        Some(dst_addr) => dst_addr,
        None => {
            return Ok(None);
        },
    };
    let ip = ETH_HDR_LEN;
    proof {
        lemma_header_bits(frame@[ip as int]);
    }
    let ip_hdr_len = ((frame[ip] & 0x0f) as usize) * 4;
    if frame[ip + 9] != IP_PROTO_TCP {
        return Ok(None);
    }
    let tcp = ptr_at(frame, ETH_HDR_LEN + ip_hdr_len, TCP_HDR_LEN)?;
    proof {
        lemma_header_bits(frame@[tcp + TCP_FLAGS_OFFSET]);
    }
    if frame[tcp + TCP_FLAGS_OFFSET] & TCP_FLAG_SYN == 0 {
        return Ok(None);
    }
    let src_port = u16_from_be(frame[tcp], frame[tcp + 1]);
    let dst_port = u16_from_be(frame[tcp + 2], frame[tcp + 3]);
    let src_addr = u32_from_be(frame[ip + 12], frame[ip + 13], frame[ip + 14], frame[ip + 15]);
    Ok(Some(Ipv4Event { src_addr, dst_addr, src_port, dst_port }))
}

/// Classifies one frame whose destination was looked up, with `found` as the
/// answer. For a frame without a readable destination the answer is not read.
pub fn classify_found(frame: &[u8], found: bool) -> (v: Verdict)
    ensures
        v == verdict_given(frame@, found),
{
    match destination(frame) {
        Err(_) => Verdict::Aborted,
        Ok(None) => Verdict::Pass,
        Ok(Some(_)) => {
            if !found {
                return Verdict::Pass;
            }
            match new_flow(frame) {
                Err(_) => Verdict::Aborted,
                Ok(None) => Verdict::Pass,
                Ok(Some(flow)) => Verdict::Flow(flow),
            }
        },
    }
}

/// Looks the destination of the frame up in the VIP table.
pub fn lookup(frame: &[u8], vips: &VipTable) -> (found: bool)
    ensures
        found == looked_up(frame@, vips@),
{
    match destination(frame) {
        Ok(Some(dst_addr)) => is_ipv4vip(vips, dst_addr),
        _ => false,
    }
}

/// Classifies one frame against the VIP table.
pub fn classify(frame: &[u8], vips: &VipTable) -> (v: Verdict)
    ensures
        v == verdict_of(frame@, vips@),
{
    let found = lookup(frame, vips);
    classify_found(frame, found)
}

/// Classifies one frame and queues the record of the flow it opens, if any.
/// A full ring loses the record and nothing else. Fails where a header
/// reaches past the end of the frame.
pub fn try_lb_inter_node_exporter(frame: &[u8], vips: &VipTable, events: &mut EventRing) -> (r:
    Result<u32, ()>)
    requires
        old(events).wf(),
    ensures
        final(events).wf(),
        final(events).capacity() == old(events).capacity(),
        r == match verdict_of(frame@, vips@) {
            Verdict::Aborted => Err::<u32, ()>(()),
            _ => Ok::<u32, ()>(XDP_PASS),
        },
        final(events)@ == emitted(old(events)@, old(events).capacity(), verdict_of(frame@, vips@)),
{
    match classify(frame, vips) {
        Verdict::Aborted => Err(()),
        Verdict::Pass => Ok(XDP_PASS),
        Verdict::Flow(flow) => {
            let record = flow.encode();
            events.push(record);
            Ok(XDP_PASS)
        },
    }
}

/// The classifier's entry point: the answer for one frame. Every frame that
/// could be read passes, whether or not a record was queued for it.
pub fn lb_inter_node_exporter(frame: &[u8], vips: &VipTable, events: &mut EventRing) -> (action:
    u32)
    requires
        old(events).wf(),
    ensures
        final(events).wf(),
        final(events).capacity() == old(events).capacity(),
        action == action_of(verdict_of(frame@, vips@)),
        final(events)@ == emitted(old(events)@, old(events).capacity(), verdict_of(frame@, vips@)),
{
    match try_lb_inter_node_exporter(frame, vips, events) {
        Ok(ret) => ret,
        Err(_) => XDP_ABORTED,
    }
}

/// The record of the flow that a frame describes holds the frame's own bytes:
/// the source address as it stands in the IPv4 header, the destination address
/// with its four bytes reversed, and the two ports as they stand in the TCP
/// header. Decoding the record gives the header fields as numbers.
pub proof fn lemma_record_layout(f: Seq<u8>)
    ensures
        flow_of(f).encoded() == seq![
            f[ETH_HDR_LEN + 12],
            f[ETH_HDR_LEN + 13],
            f[ETH_HDR_LEN + 14],
            f[ETH_HDR_LEN + 15],
            f[ETH_HDR_LEN + 19],
            f[ETH_HDR_LEN + 18],
            f[ETH_HDR_LEN + 17],
            f[ETH_HDR_LEN + 16],
            f[tcp_offset(f)],
            f[tcp_offset(f) + 1],
            f[tcp_offset(f) + 2],
            f[tcp_offset(f) + 3],
        ],
        Ipv4Event::decoded(flow_of(f).encoded()) == flow_of(f),
{
    let t = tcp_offset(f);
    let ip = ETH_HDR_LEN as int;
    lemma_be32_octets(f[ip + 12], f[ip + 13], f[ip + 14], f[ip + 15]);
    lemma_be32_octets(f[ip + 16], f[ip + 17], f[ip + 18], f[ip + 19]);
    lemma_be16_octets(f[t], f[t + 1]);
    lemma_be16_octets(f[t + 2], f[t + 3]);
    lemma_decode_encode(flow_of(f));
    assert(flow_of(f).encoded() =~= seq![
        f[ETH_HDR_LEN + 12],
        f[ETH_HDR_LEN + 13],
        f[ETH_HDR_LEN + 14],
        f[ETH_HDR_LEN + 15],
        f[ETH_HDR_LEN + 19],
        f[ETH_HDR_LEN + 18],
        f[ETH_HDR_LEN + 17],
        f[ETH_HDR_LEN + 16],
        f[t],
        f[t + 1],
        f[t + 2],
        f[t + 3],
    ]);
}

/// A frame that can be read and whose destination, if it has one, is not in
/// the table passes, and the ring stays as it was.
pub proof fn lemma_unwatched_passes(
    f: Seq<u8>,
    vips: Set<u32>,
    records: Seq<Seq<u8>>,
    capacity: nat,
)
    requires
        match destination_of(f) {
            Ok(Some(dst)) => !vips.contains(dst),
            Ok(None) => true,
            Err(_) => false,
        },
    ensures
        verdict_of(f, vips) == Verdict::Pass,
        action_of(verdict_of(f, vips)) == XDP_PASS,
        emitted(records, capacity, verdict_of(f, vips)) == records,
{
}

/// A record is only ever queued for a frame whose destination is in the table,
/// and the frame passes.
pub proof fn lemma_flow_only_for_watched(f: Seq<u8>, vips: Set<u32>)
    requires
        verdict_of(f, vips) is Flow,
    ensures
        destination_of(f) == Ok::<Option<u32>, ()>(Some(ipv4_dst(f))),
        vips.contains(ipv4_dst(f)),
        is_tcp_syn(f),
        verdict_of(f, vips) == Verdict::Flow(flow_of(f)),
        action_of(verdict_of(f, vips)) == XDP_PASS,
{
}

/// A TCP segment with the SYN flag whose destination is in the table passes
/// and, where the ring has room, adds exactly one record to it: that of the
/// flow in its headers.
pub proof fn lemma_syn_to_watched_emits(
    f: Seq<u8>,
    vips: Set<u32>,
    records: Seq<Seq<u8>>,
    capacity: nat,
)
    requires
        is_tcp_syn(f),
        vips.contains(ipv4_dst(f)),
        records.len() < capacity,
    ensures
        verdict_of(f, vips) == Verdict::Flow(flow_of(f)),
        action_of(verdict_of(f, vips)) == XDP_PASS,
        emitted(records, capacity, verdict_of(f, vips)) == records.push(flow_of(f).encoded()),
        Ipv4Event::decoded(flow_of(f).encoded()) == flow_of(f),
{
    lemma_record_layout(f);
}

/// A TCP segment without the SYN flag adds no record, whatever the table
/// holds; where its TCP header is all there, it passes.
pub proof fn lemma_non_syn_emits_nothing(
    f: Seq<u8>,
    vips: Set<u32>,
    records: Seq<Seq<u8>>,
    capacity: nat,
)
    requires
        is_tcp(f),
        !is_tcp_syn(f),
    ensures
        !(verdict_of(f, vips) is Flow),
        emitted(records, capacity, verdict_of(f, vips)) == records,
        f.len() >= tcp_offset(f) + TCP_HDR_LEN ==> verdict_of(f, vips) == Verdict::Pass,
{
}

/// An IPv6 frame is recognized and passes; no record is queued for it.
pub proof fn lemma_ipv6_passes(f: Seq<u8>, vips: Set<u32>, records: Seq<Seq<u8>>, capacity: nat)
    requires
        f.len() >= ETH_HDR_LEN,
        ether_type(f) == ETHER_TYPE_IPV6,
    ensures
        verdict_of(f, vips) == Verdict::Pass,
        emitted(records, capacity, verdict_of(f, vips)) == records,
{
}

/// A frame is only ever given up where one of its headers reaches past its
/// end: the link-layer header, the IPv4 header, or, for a TCP segment to a
/// watched address, the TCP header.
pub proof fn lemma_aborted_means_cut(f: Seq<u8>, vips: Set<u32>)
    requires
        verdict_of(f, vips) == Verdict::Aborted,
    ensures
        ({
            ||| f.len() < ETH_HDR_LEN
            ||| ether_type(f) == ETHER_TYPE_IPV4 && f.len() < ETH_HDR_LEN + IPV4_HDR_LEN
            ||| is_tcp(f) && vips.contains(ipv4_dst(f)) && f.len() < tcp_offset(f) + TCP_HDR_LEN
        }),
{
}

} // verus!
