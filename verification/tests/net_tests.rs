use vibeos::net::arp::handle_arp;
use vibeos::net::ethernet::{self, EthernetHeader, ETHERTYPE_ARP, ETHERTYPE_IPV4};
use vibeos::net::{get_local_ip, get_local_mac, handle_ipv4, ipv4, process_frame, tcp, udp, Delivery, NetConfig};

fn ipv4_packet(proto: u8, dst: [u8; 4]) -> Vec<u8> {
    let mut p = vec![0x45, 0, 0, 28, 0x12, 0x34, 0, 0, 64, proto, 0xAB, 0xCD, 10, 0, 2, 2];
    p.extend_from_slice(&dst);
    p.extend_from_slice(&[1, 2, 3, 4, 5, 6, 7, 8]);
    p
}

fn frame(ethertype: [u8; 2], payload: &[u8]) -> Vec<u8> {
    let mut f = vec![0xff; 12];
    f.extend_from_slice(&ethertype);
    f.extend_from_slice(payload);
    f
}

#[test]
fn ethernet_header_keeps_network_order() {
    let h = EthernetHeader::new([1; 6], [2; 6], ETHERTYPE_IPV4);
    assert_eq!(h.ethertype, 0x0008);
    assert_eq!(h.ethertype(), 0x0800);
    assert_eq!(EthernetHeader::new([0; 6], [0; 6], 0x86DD).ethertype(), 0x86DD);
}

#[test]
fn ethernet_parse_splits_header_and_payload() {
    let f = frame([0x08, 0x06], &[9, 9, 9]);
    let (h, payload) = ethernet::parse(&f).unwrap();
    assert_eq!(h.dst_mac, [0xff; 6]);
    assert_eq!(h.ethertype(), ETHERTYPE_ARP);
    assert_eq!(payload, &[9, 9, 9]);
    assert!(ethernet::parse(&f[..13]).is_none());
    assert_eq!(ethernet::parse(&f[..14]).unwrap().1.len(), 0);
}

#[test]
fn ipv4_parse_uses_header_length() {
    let p = ipv4_packet(17, [10, 0, 2, 15]);
    let (h, payload) = ipv4::parse(&p).unwrap();
    assert_eq!((h.version_ihl, h.protocol, h.ttl), (0x45, 17, 64));
    assert_eq!(h.total_len, 0x1c00);
    assert_eq!(h.src_ip, [10, 0, 2, 2]);
    assert_eq!(h.dst_ip, [10, 0, 2, 15]);
    assert_eq!(payload, &[1, 2, 3, 4, 5, 6, 7, 8]);
    let mut long = p.clone();
    long[0] = 0x4F;
    assert!(ipv4::parse(&long).is_none());
    assert!(ipv4::parse(&p[..19]).is_none());
    let mut short_ihl = p.clone();
    short_ihl[0] = 0x40;
    assert_eq!(ipv4::parse(&short_ihl).unwrap().1.len(), p.len());
}

#[test]
fn tcp_parse_reads_data_offset_from_byte_12() {
    let mut seg = vec![0u8; 24];
    seg[0] = 0x1F;
    seg[1] = 0x90;
    seg[12] = 0x50;
    seg[13] = 0x18;
    let (h, payload) = tcp::parse(&seg).unwrap();
    assert_eq!(h.src_port, 0x901F);
    assert_eq!(h.data_offset_flags, 0x1850);
    assert_eq!(payload, &seg[20..]);
    let (_, empty) = tcp::parse(&seg[..20]).unwrap();
    assert_eq!(empty.len(), 0);
    seg[12] = 0x60;
    assert_eq!(tcp::parse(&seg).unwrap().1.len(), 0);
    seg[12] = 0x70;
    assert!(tcp::parse(&seg).is_none());
    assert!(tcp::parse(&seg[..19]).is_none());
}

#[test]
fn udp_parse_splits_eight_byte_header() {
    let d = [0, 53, 0x30, 0x39, 0, 12, 0xAA, 0xBB, 7, 7];
    let (h, payload) = udp::parse(&d).unwrap();
    assert_eq!((h.src_port, h.dst_port, h.len, h.checksum), (0x3500, 0x3930, 0x0c00, 0xBBAA));
    assert_eq!(payload, &[7, 7]);
    assert!(udp::parse(&d[..7]).is_none());
}

#[test]
fn arp_needs_a_full_header() {
    assert_eq!(handle_arp(&[0; 28]), Some(()));
    assert_eq!(handle_arp(&[0; 27]), None);
}

#[test]
fn frames_are_delivered_by_protocol_and_address() {
    let cfg = NetConfig::new();
    assert_eq!(get_local_ip(&cfg), [10, 0, 2, 15]);
    assert_eq!(get_local_mac(&cfg), [0x52, 0x54, 0x00, 0x12, 0x34, 0x56]);
    let udp_pkt = ipv4_packet(17, [10, 0, 2, 15]);
    let tcp_pkt = ipv4_packet(6, [10, 0, 2, 15]);
    let icmp_pkt = ipv4_packet(1, [10, 0, 2, 15]);
    let other = ipv4_packet(17, [10, 0, 2, 16]);
    assert_eq!(handle_ipv4(&cfg, &udp_pkt), Delivery::Udp);
    assert_eq!(handle_ipv4(&cfg, &icmp_pkt), Delivery::Ignored);
    assert_eq!(process_frame(&cfg, &frame([0x08, 0x00], &udp_pkt)), Delivery::Udp);
    assert_eq!(process_frame(&cfg, &frame([0x08, 0x00], &tcp_pkt)), Delivery::Tcp);
    assert_eq!(process_frame(&cfg, &frame([0x08, 0x00], &other)), Delivery::Ignored);
    assert_eq!(process_frame(&cfg, &frame([0x08, 0x06], &[0; 28])), Delivery::Arp);
    assert_eq!(process_frame(&cfg, &frame([0x08, 0x06], &[0; 10])), Delivery::Ignored);
    assert_eq!(process_frame(&cfg, &frame([0x86, 0xDD], &udp_pkt)), Delivery::Ignored);
    assert_eq!(process_frame(&cfg, &[0; 5]), Delivery::Ignored);
}
