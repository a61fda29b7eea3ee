use lb_inter_node_exporter::classifier::{
    classify, destination, is_ipv4vip, lb_inter_node_exporter, new_flow, ptr_at,
    try_lb_inter_node_exporter, Verdict, ETH_HDR_LEN, IPV4_HDR_LEN, TCP_HDR_LEN, XDP_ABORTED,
    XDP_PASS,
};
use lb_inter_node_exporter::event::Ipv4Event;
use lb_inter_node_exporter::ring::EventRing;
use lb_inter_node_exporter::vip_table::VipTable;

const VIP: [u8; 4] = [192, 168, 1, 10];
const VIP_NUM: u32 = 0xc0a8_010a;
const CLIENT: [u8; 4] = [10, 0, 0, 5];
const SYN: u8 = 0x02;
const ACK: u8 = 0x10;
const FIN: u8 = 0x01;
const RST: u8 = 0x04;

fn eth_header(ether_type: u16) -> Vec<u8> {
    let mut f = vec![0x02, 0, 0, 0, 0, 1, 0x02, 0, 0, 0, 0, 2];
    f.push((ether_type >> 8) as u8);
    f.push((ether_type & 0xff) as u8);
    f
}

fn ipv4_header(words: u8, proto: u8, src: [u8; 4], dst: [u8; 4]) -> Vec<u8> {
    let mut h = vec![0x40 | words, 0, 0, 60, 0, 1, 0x40, 0, 64, proto, 0, 0];
    h.extend_from_slice(&src);
    h.extend_from_slice(&dst);
    for i in 5..words {
        h.extend_from_slice(&[1, 1, 1, i]);
    }
    h
}

fn tcp_header(src_port: u16, dst_port: u16, flags: u8) -> Vec<u8> {
    let mut h = Vec::new();
    h.extend_from_slice(&src_port.to_be_bytes());
    h.extend_from_slice(&dst_port.to_be_bytes());
    h.extend_from_slice(&[0, 0, 0, 1, 0, 0, 0, 0, 0x50, flags, 0xff, 0xff, 0, 0, 0, 0]);
    h
}

fn tcp_frame(src: [u8; 4], dst: [u8; 4], src_port: u16, dst_port: u16, flags: u8) -> Vec<u8> {
    let mut f = eth_header(0x0800);
    f.extend(ipv4_header(5, 6, src, dst));
    f.extend(tcp_header(src_port, dst_port, flags));
    f
}

fn table_with_vip() -> VipTable {
    let mut t = VipTable::new();
    t.upsert(VIP_NUM).unwrap();
    t
}

#[test]
fn header_lengths_and_answers() {
    assert_eq!(ETH_HDR_LEN, 14);
    assert_eq!(IPV4_HDR_LEN, 20);
    assert_eq!(TCP_HDR_LEN, 20);
    assert_eq!(XDP_ABORTED, 0);
    assert_eq!(XDP_PASS, 2);
}

#[test]
fn ptr_at_accepts_what_lies_inside() {
    let frame = [0u8; 34];
    assert_eq!(ptr_at(&frame, 0, 14), Ok(0));
    assert_eq!(ptr_at(&frame, 14, 20), Ok(14));
    assert_eq!(ptr_at(&frame, 34, 0), Ok(34));
    assert_eq!(ptr_at(&frame, 0, 34), Ok(0));
}

#[test]
fn ptr_at_refuses_what_reaches_past_the_end() {
    let frame = [0u8; 34];
    assert_eq!(ptr_at(&frame, 0, 35), Err(()));
    assert_eq!(ptr_at(&frame, 15, 20), Err(()));
    assert_eq!(ptr_at(&frame, 35, 0), Err(()));
    assert_eq!(ptr_at(&[], 0, 1), Err(()));
}

#[test]
fn ptr_at_refuses_offsets_that_overflow() {
    let frame = [0u8; 34];
    assert_eq!(ptr_at(&frame, usize::MAX, 1), Err(()));
    assert_eq!(ptr_at(&frame, usize::MAX, usize::MAX), Err(()));
    assert_eq!(ptr_at(&frame, 1, usize::MAX), Err(()));
}

#[test]
fn is_ipv4vip_reads_the_table() {
    let t = table_with_vip();
    assert!(is_ipv4vip(&t, VIP_NUM));
    assert!(!is_ipv4vip(&t, VIP_NUM + 1));
}

#[test]
fn frame_shorter_than_the_link_header_aborts() {
    let t = table_with_vip();
    for len in 0..14 {
        let frame = vec![0u8; len];
        assert_eq!(destination(&frame), Err(()));
        assert_eq!(new_flow(&frame), Err(()));
        assert_eq!(classify(&frame, &t), Verdict::Aborted);
    }
}

#[test]
fn frame_of_another_protocol_passes() {
    let t = table_with_vip();
    let mut arp = eth_header(0x0806);
    arp.extend_from_slice(&[0u8; 28]);
    assert_eq!(destination(&arp), Ok(None));
    assert_eq!(new_flow(&arp), Ok(None));
    assert_eq!(classify(&arp, &t), Verdict::Pass);
    let bare = eth_header(0x0806);
    assert_eq!(classify(&bare, &t), Verdict::Pass);
}

#[test]
fn ipv6_frame_passes_without_a_record() {
    let t = table_with_vip();
    let mut ring = EventRing::new(4);
    let mut frame = eth_header(0x86dd);
    frame.extend_from_slice(&[0u8; 60]);
    assert_eq!(classify(&frame, &t), Verdict::Pass);
    assert_eq!(lb_inter_node_exporter(&frame, &t, &mut ring), XDP_PASS);
    assert_eq!(ring.len(), 0);
}

#[test]
fn ipv4_frame_with_a_cut_header_aborts() {
    let t = table_with_vip();
    let full = tcp_frame(CLIENT, VIP, 4321, 80, SYN);
    for len in 14..34 {
        assert_eq!(destination(&full[..len]), Err(()));
        assert_eq!(classify(&full[..len], &t), Verdict::Aborted);
    }
    assert_eq!(destination(&full[..34]), Ok(Some(VIP_NUM)));
}

#[test]
fn destination_is_read_in_host_order() {
    let frame = tcp_frame(CLIENT, [1, 2, 3, 4], 1, 2, SYN);
    assert_eq!(destination(&frame), Ok(Some(0x0102_0304)));
}

#[test]
fn frame_to_an_address_outside_the_table_passes_without_a_record() {
    let t = table_with_vip();
    let mut ring = EventRing::new(4);
    let frame = tcp_frame(CLIENT, [192, 168, 1, 11], 4321, 80, SYN);
    assert_eq!(classify(&frame, &t), Verdict::Pass);
    assert_eq!(try_lb_inter_node_exporter(&frame, &t, &mut ring), Ok(XDP_PASS));
    assert_eq!(lb_inter_node_exporter(&frame, &t, &mut ring), XDP_PASS);
    assert_eq!(ring.len(), 0);
}

#[test]
fn every_frame_passes_an_empty_table() {
    let t = VipTable::new();
    let mut ring = EventRing::new(4);
    let frame = tcp_frame(CLIENT, VIP, 4321, 80, SYN);
    assert_eq!(lb_inter_node_exporter(&frame, &t, &mut ring), XDP_PASS);
    assert_eq!(ring.len(), 0);
}

#[test]
fn destination_is_looked_up_before_the_rest_is_read() {
    let t = table_with_vip();
    let full = tcp_frame(CLIENT, [8, 8, 8, 8], 4321, 80, SYN);
    assert_eq!(classify(&full[..40], &t), Verdict::Pass);
    assert_eq!(new_flow(&full[..40]), Err(()));
}

#[test]
fn syn_to_a_watched_address_queues_one_record() {
    let t = table_with_vip();
    let mut ring = EventRing::new(4);
    let frame = tcp_frame(CLIENT, VIP, 4321, 80, SYN);
    let flow = Ipv4Event { src_addr: 0x0a00_0005, dst_addr: VIP_NUM, src_port: 4321, dst_port: 80 };
    assert_eq!(new_flow(&frame), Ok(Some(flow)));
    assert_eq!(classify(&frame, &t), Verdict::Flow(flow));
    assert_eq!(try_lb_inter_node_exporter(&frame, &t, &mut ring), Ok(XDP_PASS));
    assert_eq!(ring.len(), 1);
    let record = ring.next().unwrap();
    assert_eq!(record, [10, 0, 0, 5, 10, 1, 168, 192, 0x10, 0xe1, 0, 80]);
    assert_eq!(Ipv4Event::from(&record), flow);
    assert_eq!(ring.next(), None);
}

#[test]
fn record_holds_the_bytes_of_the_headers() {
    let t = table_with_vip();
    let mut ring = EventRing::new(4);
    let frame = tcp_frame([172, 16, 254, 1], VIP, 0xabcd, 0x1f90, SYN);
    assert_eq!(lb_inter_node_exporter(&frame, &t, &mut ring), XDP_PASS);
    let record = ring.next().unwrap();
    assert_eq!(&record[0..4], &frame[26..30]);
    assert_eq!(&record[4..8], &[frame[33], frame[32], frame[31], frame[30]]);
    assert_eq!(&record[8..10], &frame[34..36]);
    assert_eq!(&record[10..12], &frame[36..38]);
}

#[test]
fn syn_with_other_flags_is_still_a_new_flow() {
    let t = table_with_vip();
    let frame = tcp_frame(CLIENT, VIP, 4321, 80, SYN | ACK);
    assert!(matches!(classify(&frame, &t), Verdict::Flow(_)));
    let all = tcp_frame(CLIENT, VIP, 4321, 80, 0xff);
    assert!(matches!(classify(&all, &t), Verdict::Flow(_)));
}

#[test]
fn segment_without_syn_queues_nothing() {
    let t = table_with_vip();
    let mut ring = EventRing::new(4);
    for flags in [0u8, ACK, FIN, RST, ACK | FIN, 0xfd] {
        let frame = tcp_frame(CLIENT, VIP, 4321, 80, flags);
        assert_eq!(new_flow(&frame), Ok(None));
        assert_eq!(classify(&frame, &t), Verdict::Pass);
        assert_eq!(lb_inter_node_exporter(&frame, &t, &mut ring), XDP_PASS);
    }
    assert_eq!(ring.len(), 0);
}

#[test]
fn other_upper_protocols_pass_without_a_record() {
    let t = table_with_vip();
    let mut ring = EventRing::new(4);
    for proto in [0u8, 1, 17, 47, 255] {
        let mut frame = eth_header(0x0800);
        frame.extend(ipv4_header(5, proto, CLIENT, VIP));
        frame.extend(tcp_header(4321, 80, SYN));
        assert_eq!(classify(&frame, &t), Verdict::Pass);
        assert_eq!(lb_inter_node_exporter(&frame, &t, &mut ring), XDP_PASS);
    }
    let mut bare = eth_header(0x0800);
    bare.extend(ipv4_header(5, 17, CLIENT, VIP));
    assert_eq!(classify(&bare, &t), Verdict::Pass);
    assert_eq!(ring.len(), 0);
}

#[test]
fn tcp_segment_with_a_cut_header_aborts() {
    let t = table_with_vip();
    let mut ring = EventRing::new(4);
    let full = tcp_frame(CLIENT, VIP, 4321, 80, SYN);
    assert_eq!(full.len(), 54);
    for len in 34..54 {
        assert_eq!(new_flow(&full[..len]), Err(()));
        assert_eq!(classify(&full[..len], &t), Verdict::Aborted);
        assert_eq!(try_lb_inter_node_exporter(&full[..len], &t, &mut ring), Err(()));
        assert_eq!(lb_inter_node_exporter(&full[..len], &t, &mut ring), XDP_ABORTED);
    }
    assert_eq!(ring.len(), 0);
}

#[test]
fn ip_options_move_the_tcp_header() {
    let t = table_with_vip();
    let mut frame = eth_header(0x0800);
    frame.extend(ipv4_header(7, 6, CLIENT, VIP));
    frame.extend(tcp_header(4321, 80, SYN));
    let flow = Ipv4Event { src_addr: 0x0a00_0005, dst_addr: VIP_NUM, src_port: 4321, dst_port: 80 };
    assert_eq!(classify(&frame, &t), Verdict::Flow(flow));
    let cut = &frame[..frame.len() - 1];
    assert_eq!(classify(cut, &t), Verdict::Aborted);
    let mut longest = eth_header(0x0800);
    longest.extend(ipv4_header(15, 6, CLIENT, VIP));
    longest.extend(tcp_header(1, 65535, SYN));
    assert_eq!(
        classify(&longest, &t),
        Verdict::Flow(Ipv4Event {
            src_addr: 0x0a00_0005,
            dst_addr: VIP_NUM,
            src_port: 1,
            dst_port: 65535
        })
    );
}

#[test]
fn header_length_field_is_taken_as_it_stands() {
    let t = table_with_vip();
    let mut frame = eth_header(0x0800);
    frame.extend(ipv4_header(5, 6, CLIENT, VIP));
    frame.extend(tcp_header(4321, 80, SYN));
    frame[14] = 0x40;
    // With a length of zero words the TCP header is read where the IPv4
    // header stands: its flags byte is the one at offset 13 of that header.
    let verdict = classify(&frame, &t);
    let flags = frame[14 + 13];
    if flags & 0x02 != 0 {
        assert!(matches!(verdict, Verdict::Flow(_)));
    } else {
        assert_eq!(verdict, Verdict::Pass);
    }
}

#[test]
fn full_ring_loses_the_record_and_the_frame_still_passes() {
    let t = table_with_vip();
    let mut ring = EventRing::new(1);
    let first = tcp_frame(CLIENT, VIP, 1000, 80, SYN);
    let second = tcp_frame(CLIENT, VIP, 1001, 80, SYN);
    assert_eq!(lb_inter_node_exporter(&first, &t, &mut ring), XDP_PASS);
    assert_eq!(try_lb_inter_node_exporter(&second, &t, &mut ring), Ok(XDP_PASS));
    assert_eq!(ring.len(), 1);
    let record = ring.next().unwrap();
    assert_eq!(Ipv4Event::from(&record).src_port, 1000);
    assert_eq!(ring.next(), None);
}

#[test]
fn each_syn_queues_its_own_record_in_order() {
    let t = table_with_vip();
    let mut ring = EventRing::new(8);
    for port in [1000u16, 1001, 1002] {
        let frame = tcp_frame(CLIENT, VIP, port, 443, SYN);
        assert_eq!(lb_inter_node_exporter(&frame, &t, &mut ring), XDP_PASS);
    }
    assert_eq!(ring.len(), 3);
    for port in [1000u16, 1001, 1002] {
        let e = Ipv4Event::from(&ring.next().unwrap());
        assert_eq!(e.src_port, port);
        assert_eq!(e.dst_port, 443);
    }
}

#[test]
fn frame_is_not_changed() {
    let t = table_with_vip();
    let mut ring = EventRing::new(4);
    let frame = tcp_frame(CLIENT, VIP, 4321, 80, SYN);
    let before = frame.clone();
    assert_eq!(lb_inter_node_exporter(&frame, &t, &mut ring), XDP_PASS);
    assert_eq!(frame, before);
}
