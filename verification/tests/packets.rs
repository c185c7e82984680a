use mousevpn_client::ip::{IpAddr, Ipv4Addr, Ipv6Addr};
use mousevpn_client::packet::{Packet, PROTOCOL_TCP, PROTOCOL_UDP};

fn v4(a: u8, b: u8, c: u8, d: u8) -> IpAddr {
    IpAddr::V4(Ipv4Addr::new(a, b, c, d))
}

fn localhost_v6() -> [u8; 16] {
    1_u128.to_be_bytes()
}

/// A 20-byte IPv4 header followed by eight bytes of UDP.
fn ipv4_udp() -> Vec<u8> {
    let mut packet = vec![0_u8; 28];
    packet[0] = 0x45; // version 4, 5 words of header
    packet[9] = PROTOCOL_UDP;
    packet[12..16].copy_from_slice(&Ipv4Addr::new(10, 77, 0, 22).octets());
    packet[16..20].copy_from_slice(&Ipv4Addr::new(1, 1, 1, 1).octets());
    packet[20..22].copy_from_slice(&54_518_u16.to_be_bytes());
    packet[22..24].copy_from_slice(&53_u16.to_be_bytes());
    packet
}

fn ipv6_tcp() -> Vec<u8> {
    let mut packet = vec![0_u8; 60];
    packet[0] = 0x60;
    packet[6] = PROTOCOL_TCP;
    packet[8..24].copy_from_slice(&localhost_v6());
    packet[24..40].copy_from_slice(&localhost_v6());
    packet[40..42].copy_from_slice(&443_u16.to_be_bytes());
    packet[42..44].copy_from_slice(&51_000_u16.to_be_bytes());
    packet
}

#[test]
fn reads_an_ipv4_udp_packet() {
    let mut bytes = ipv4_udp();
    let packet = Packet::parse(&mut bytes).expect("parses");
    assert_eq!(packet.protocol(), PROTOCOL_UDP);
    assert_eq!(packet.source(), v4(10, 77, 0, 22));
    assert_eq!(packet.destination(), v4(1, 1, 1, 1));
    assert_eq!(packet.ports(), Some((54_518, 53)));
}

#[test]
fn rewrites_the_source_leaving_everything_else_alone() {
    let mut bytes = ipv4_udp();
    let original = bytes.clone();
    let mut packet = Packet::parse(&mut bytes).expect("parses");
    assert!(packet.set_source(v4(192, 168, 0, 189)));
    assert_eq!(packet.source(), v4(192, 168, 0, 189));
    assert_eq!(packet.destination(), v4(1, 1, 1, 1));
    assert_eq!(packet.ports(), Some((54_518, 53)));
    // Only the four source bytes may differ.
    assert_eq!(bytes[..12], original[..12]);
    assert_eq!(bytes[16..], original[16..]);
}

#[test]
fn refuses_to_write_an_address_of_the_wrong_family() {
    let mut bytes = ipv4_udp();
    let mut packet = Packet::parse(&mut bytes).expect("parses");
    assert!(!packet.set_source(IpAddr::V6(Ipv6Addr { bits: 1 })));
    // The refusal must leave the packet untouched, not half-written.
    assert_eq!(packet.source(), v4(10, 77, 0, 22));
}

#[test]
fn handles_ipv4_options_when_locating_the_ports() {
    let mut bytes = ipv4_udp();
    // Grow the header to six words and shift the transport header along.
    bytes.splice(20..20, [0_u8; 4]);
    bytes[0] = 0x46;
    let packet = Packet::parse(&mut bytes).expect("parses");
    assert_eq!(packet.ports(), Some((54_518, 53)));
}

#[test]
fn reports_no_ports_for_a_trailing_fragment() {
    let mut bytes = ipv4_udp();
    // A non-zero fragment offset means these bytes are payload, not ports.
    bytes[6..8].copy_from_slice(&185_u16.to_be_bytes());
    let packet = Packet::parse(&mut bytes).expect("parses");
    assert_eq!(packet.ports(), None);
    // The addresses are still rewritable, which is what keeps a fragmented
    // datagram intact end to end.
    assert_eq!(packet.source(), v4(10, 77, 0, 22));
}

#[test]
fn reports_no_ports_without_a_complete_transport_header() {
    let mut bytes = ipv4_udp();
    bytes.truncate(27);
    assert_eq!(Packet::parse(&mut bytes).expect("parses").ports(), None);
    let mut bytes = ipv6_tcp();
    bytes.truncate(59);
    assert_eq!(Packet::parse(&mut bytes).expect("parses").ports(), None);
}

#[test]
fn reads_an_ipv6_packet() {
    let mut bytes = ipv6_tcp();
    let mut packet = Packet::parse(&mut bytes).expect("parses");
    assert_eq!(packet.protocol(), PROTOCOL_TCP);
    assert_eq!(packet.ports(), Some((443, 51_000)));
    let replacement = Ipv6Addr::new(0xfe80, 0, 0, 0, 0x725c, 0xfc9c, 0xdce3, 0x314b);
    assert!(packet.set_destination(IpAddr::V6(replacement)));
    assert_eq!(packet.destination(), IpAddr::V6(replacement));
}

#[test]
fn rejects_packets_it_cannot_edit_safely() {
    // Not IP at all.
    assert!(Packet::parse(&mut [0x00_u8; 40]).is_none());
    // Header length below the IPv4 minimum.
    let mut short_header = ipv4_udp();
    short_header[0] = 0x44;
    assert!(Packet::parse(&mut short_header).is_none());
    // Declared header longer than the buffer.
    let mut truncated = ipv4_udp();
    truncated[0] = 0x4f;
    truncated.truncate(24);
    assert!(Packet::parse(&mut truncated).is_none());
    // IPv6 with a hop-by-hop extension header displacing the ports.
    let mut extended = ipv6_tcp();
    extended[6] = 0;
    assert!(Packet::parse(&mut extended).is_none());
    // Empty input.
    assert!(Packet::parse(&mut []).is_none());
}

#[test]
fn clamping_leaves_smaller_segments_and_other_packets_alone() {
    let mut bytes = ipv4_udp();
    let original = bytes.clone();
    Packet::parse(&mut bytes).expect("parses").clamp_mss(100);
    assert_eq!(bytes, original);

    let mut syn = vec![0_u8; 44];
    syn[0] = 0x45;
    syn[9] = PROTOCOL_TCP;
    syn[32] = 6 << 4;
    syn[33] = 0x02;
    syn[40] = 2;
    syn[41] = 4;
    syn[42..44].copy_from_slice(&1_000_u16.to_be_bytes());
    let small = syn.clone();
    Packet::parse(&mut syn).expect("parses").clamp_mss(1_240);
    assert_eq!(syn, small);
    Packet::parse(&mut syn).expect("parses").clamp_mss(536);
    assert_eq!(u16::from_be_bytes([syn[42], syn[43]]), 536);
}
