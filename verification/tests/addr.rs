use lb_inter_node_exporter::addr::ipv4_text;

#[test]
fn text_of_the_smallest_and_largest_address() {
    assert_eq!(ipv4_text(0), "0.0.0.0");
    assert_eq!(ipv4_text(u32::MAX), "255.255.255.255");
}

#[test]
fn text_has_the_most_significant_byte_first() {
    assert_eq!(ipv4_text(0x0a00_0005), "10.0.0.5");
    assert_eq!(ipv4_text(0xc0a8_010a), "192.168.1.10");
    assert_eq!(ipv4_text(0x0102_0304), "1.2.3.4");
}

#[test]
fn text_has_no_leading_zeros() {
    assert_eq!(ipv4_text(0x0109_6409), "1.9.100.9");
    assert_eq!(ipv4_text(0x0a63_64c7), "10.99.100.199");
    assert_eq!(ipv4_text(0x7f00_0001), "127.0.0.1");
    assert_eq!(ipv4_text(0x6500_6e00), "101.0.110.0");
}

#[test]
fn text_of_each_byte_boundary() {
    assert_eq!(ipv4_text(9), "0.0.0.9");
    assert_eq!(ipv4_text(10), "0.0.0.10");
    assert_eq!(ipv4_text(99), "0.0.0.99");
    assert_eq!(ipv4_text(100), "0.0.0.100");
    assert_eq!(ipv4_text(255), "0.0.0.255");
    assert_eq!(ipv4_text(256), "0.0.1.0");
    assert_eq!(ipv4_text(0xac10_fe01), "172.16.254.1");
    assert_eq!(ipv4_text(0xffff_ff00), "255.255.255.0");
}
