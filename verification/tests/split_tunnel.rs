use mousevpn_client::divert::{
    check_capture_filters, filter, prepare_inbound, prepare_outbound, Batch, Capture,
    CaptureAction, Outcome, Reinject, Stats, Translation, CAPTURE_BUFFER,
};
use mousevpn_client::flow::{
    decode_address, paths_equal, probe_line, Classifier, Disposition, FlowKey, FlowTable,
};
use mousevpn_client::geo::{
    normalize_domain, observe_dns_response, parse_cidr, parse_domain, read_dns_name, udp_payload,
    GeoRouter,
};
use mousevpn_client::ip::{IpAddr, Ipv4Addr, Ipv6Addr, SocketAddr};
use mousevpn_client::packet::PROTOCOL_UDP;
use mousevpn_client::trie::Ipv4Trie;
use mousevpn_client::windivert::{
    batch_lengths, check_library, first_packet_len, open_error, received_batch, Address, FlowData,
    BATCH_MAX, EVENT_FLOW_DELETED, EVENT_FLOW_ESTABLISHED, LAYER_FLOW, LAYER_NETWORK,
};
use mousevpn_client::{AppRoutingMode, AppRoutingPolicy};

fn v4(a: u8, b: u8, c: u8, d: u8) -> IpAddr {
    IpAddr::V4(Ipv4Addr::new(a, b, c, d))
}

fn physical() -> IpAddr {
    v4(192, 168, 0, 189)
}

fn tunnel() -> IpAddr {
    v4(10, 77, 0, 22)
}

fn remote() -> IpAddr {
    v4(1, 1, 1, 1)
}

fn resolver() -> IpAddr {
    v4(10, 77, 0, 1)
}

fn addresses() -> Translation {
    Translation::new(physical(), tunnel(), resolver(), 1280)
}

fn octets(address: IpAddr) -> [u8; 4] {
    match address {
        IpAddr::V4(address) => address.octets(),
        IpAddr::V6(_) => unreachable!("tests use IPv4"),
    }
}

fn udp_packet(source: IpAddr, destination: IpAddr) -> Vec<u8> {
    let mut packet = vec![0_u8; 28];
    packet[0] = 0x45;
    packet[9] = PROTOCOL_UDP;
    packet[12..16].copy_from_slice(&octets(source));
    packet[16..20].copy_from_slice(&octets(destination));
    packet[20..22].copy_from_slice(&54_518_u16.to_be_bytes());
    packet[22..24].copy_from_slice(&53_u16.to_be_bytes());
    packet
}

fn table_with(disposition: Disposition) -> FlowTable {
    let mut table = FlowTable::default();
    table.insert(
        FlowKey {
            protocol: PROTOCOL_UDP,
            local: physical(),
            local_port: 54_518,
            remote: remote(),
            remote_port: 53,
        },
        disposition,
    );
    table
}

fn server() -> SocketAddr {
    SocketAddr { ip: v4(203, 0, 113, 10), port: 51_820 }
}

#[test]
fn stages_pass_through_packets_end_to_end() {
    // The batch carries no framing, so the packets must land in the buffer
    // back to back and in the order they were captured. Anything else and
    // WinDivert injects the wrong bytes against the wrong address.
    let mut reinject = Reinject::new();
    reinject.push(&[1, 2, 3], Address::zeroed());
    reinject.push(&[4, 5], Address::zeroed());
    assert_eq!(reinject.packets(), [1, 2, 3, 4, 5]);
    assert_eq!(reinject.addresses().len(), 2);
}

#[test]
fn refuses_more_than_windivert_accepts_in_one_batch() {
    // Exceeding either limit is not a partial send: WinDivert rejects the
    // whole call, which would drop a full batch of excluded traffic.
    let mut reinject = Reinject::new();
    for _ in 0..BATCH_MAX {
        assert!(!reinject.is_full(64));
        reinject.push(&[0; 64], Address::zeroed());
    }
    assert!(reinject.is_full(64));
}

#[test]
fn refuses_a_packet_that_would_overrun_the_staging_buffer() {
    let mut reinject = Reinject::new();
    reinject.push(&vec![0; CAPTURE_BUFFER - 8], Address::zeroed());
    assert!(reinject.is_full(9));
    assert!(!reinject.is_full(8));
}

#[test]
fn rewrites_a_routed_packet_onto_the_tunnel_address() {
    let mut packet = udp_packet(physical(), remote());
    let table = table_with(Disposition::Tunnel);
    assert_eq!(prepare_outbound(&mut packet, &table, addresses(), None, 0), Outcome::Tunnel);
    assert_eq!(&packet[12..16], &[10, 77, 0, 22]);
    // The destination and ports must survive untouched.
    assert_eq!(&packet[16..20], &[1, 1, 1, 1]);
    assert_eq!(&packet[20..24], &[0xd4, 0xf6, 0x00, 0x35]);
}

#[test]
fn leaves_an_excluded_packet_byte_for_byte_alone() {
    let mut packet = udp_packet(physical(), remote());
    let original = packet.clone();
    let table = table_with(Disposition::Direct);
    assert_eq!(prepare_outbound(&mut packet, &table, addresses(), None, 0), Outcome::PassThrough);
    assert_eq!(packet, original);
}

#[test]
fn passes_through_a_flow_the_watcher_has_not_classified() {
    // Racing the flow layer must not swallow traffic: an unknown packet
    // keeps working on the physical link.
    let mut packet = udp_packet(physical(), remote());
    let original = packet.clone();
    assert_eq!(
        prepare_outbound(&mut packet, &FlowTable::default(), addresses(), None, 0),
        Outcome::PassThrough
    );
    assert_eq!(packet, original);
}

#[test]
fn restores_the_physical_address_on_the_way_back() {
    let mut packet = udp_packet(remote(), tunnel());
    assert!(prepare_inbound(&mut packet, addresses()));
    assert_eq!(&packet[16..20], &[192, 168, 0, 189]);
}

/// A SYN-ACK arriving from the tunnel, offering a segment size sized for a
/// physical link.
fn inbound_syn_ack(mss: u16) -> Vec<u8> {
    let mut packet = vec![0_u8; 20 + 24];
    packet[0] = 0x45;
    packet[9] = 6;
    packet[12..16].copy_from_slice(&octets(remote()));
    packet[16..20].copy_from_slice(&octets(tunnel()));
    packet[20..22].copy_from_slice(&443_u16.to_be_bytes());
    packet[22..24].copy_from_slice(&51_000_u16.to_be_bytes());
    // Six words of header, SYN and ACK set.
    packet[32] = 6 << 4;
    packet[33] = 0x12;
    packet[40] = 2;
    packet[41] = 4;
    packet[42..44].copy_from_slice(&mss.to_be_bytes());
    packet
}

#[test]
fn clamps_the_segment_size_the_peer_offers_us() {
    // Without this the peer's own limit governs what we send, and every
    // upload larger than the tunnel's MTU vanishes while downloads work.
    let mut packet = inbound_syn_ack(1460);
    assert!(prepare_inbound(&mut packet, addresses()));
    assert_eq!(u16::from_be_bytes([packet[42], packet[43]]), 1240);
    assert_eq!(&packet[16..20], &[192, 168, 0, 189]);
}

#[test]
fn refuses_inbound_packets_addressed_elsewhere() {
    let mut packet = udp_packet(remote(), physical());
    let original = packet.clone();
    assert!(!prepare_inbound(&mut packet, addresses()));
    assert_eq!(packet, original);
}

#[test]
fn excludes_our_own_tunnel_datagrams_from_capture() {
    let filter = filter(server());
    // Without this exclusion every datagram we send would be recaptured.
    assert!(filter.contains("203.0.113.10"));
    assert!(filter.contains("51820"));
    assert!(filter.contains("outbound"));
    assert!(filter.contains("!loopback"));
}

#[test]
fn derives_the_segment_limit_from_the_tunnel_mtu() {
    // 1280 less twenty bytes of IPv4 header and twenty of TCP.
    assert_eq!(addresses().max_segment_size, 1240);
    // A nonsensically small MTU must not wrap around into a huge limit.
    assert_eq!(Translation::new(physical(), tunnel(), resolver(), 8).max_segment_size, 0);
}

#[test]
fn tunnels_name_resolution_whatever_the_policy_says() {
    // Windows resolves through a shared service, so the query carries no
    // trace of which application wanted the name. An unclassified flow to
    // the session's resolver still has to take the tunnel: the resolver
    // exists nowhere else.
    let mut packet = udp_packet(physical(), resolver());
    packet[22..24].copy_from_slice(&53_u16.to_be_bytes());
    assert_eq!(
        prepare_outbound(&mut packet, &FlowTable::default(), addresses(), None, 0),
        Outcome::Tunnel
    );
    assert_eq!(&packet[12..16], &[10, 77, 0, 22]);
}

#[test]
fn leaves_other_traffic_to_the_resolver_alone() {
    // Only port 53 is name resolution. The resolver may run other services
    // and an unclassified flow to one of them is not ours to redirect.
    let mut packet = udp_packet(physical(), resolver());
    packet[22..24].copy_from_slice(&443_u16.to_be_bytes());
    assert_eq!(
        prepare_outbound(&mut packet, &FlowTable::default(), addresses(), None, 0),
        Outcome::PassThrough
    );
}

#[test]
fn discards_a_routed_flow_it_cannot_translate() {
    // An IPv6 flow of a routed application has no tunnel address to take.
    // Handing it back would put protected traffic on the physical link.
    let localhost = Ipv6Addr { bits: 1 };
    let mut packet = vec![0_u8; 60];
    packet[0] = 0x60;
    packet[6] = PROTOCOL_UDP;
    packet[8..24].copy_from_slice(&1_u128.to_be_bytes());
    packet[24..40].copy_from_slice(&1_u128.to_be_bytes());
    packet[40..42].copy_from_slice(&54_518_u16.to_be_bytes());
    packet[42..44].copy_from_slice(&53_u16.to_be_bytes());

    let mut table = FlowTable::default();
    table.insert(
        FlowKey {
            protocol: PROTOCOL_UDP,
            local: IpAddr::V6(localhost),
            local_port: 54_518,
            remote: IpAddr::V6(localhost),
            remote_port: 53,
        },
        Disposition::Tunnel,
    );
    assert_eq!(prepare_outbound(&mut packet, &table, addresses(), None, 0), Outcome::Discard);
}

#[test]
fn never_negates_a_parenthesised_group() {
    // WinDivert negates a single test, not a group, and reports the
    // difference only as ERROR_INVALID_PARAMETER from WinDivertOpen. Both
    // spellings of negation are checked so neither creeps back in.
    let servers = [
        server(),
        SocketAddr {
            ip: IpAddr::V6(Ipv6Addr::new(0x2001, 0xdb8, 0, 0, 0, 0, 0, 1)),
            port: 51_820,
        },
    ];
    for server in servers {
        let filter = filter(server);
        assert!(!filter.contains("not ("), "{filter}");
        assert!(!filter.contains("!("), "{filter}");
    }
}

#[test]
fn keeps_the_tunnel_exclusion_scoped_to_udp() {
    // Hoisting the address test out of the udp branch would exclude TCP to
    // the server as well, and silently stop tunnelling it.
    let filter = filter(server());
    let udp_branch = filter.split("tcp or ").nth(1).expect("udp branch");
    assert!(udp_branch.contains("203.0.113.10"));
}

#[test]
fn a_batch_is_split_into_its_packets() {
    let mut batch = Batch::new(100, 2);
    assert!(batch.pending());
    assert_eq!(batch.take(Some(60)), Some((0, 60)));
    assert_eq!(batch.take(Some(40)), Some((60, 100)));
    assert!(!batch.pending());
}

#[test]
fn a_captured_packet_is_counted_and_sorted() {
    let mut capture = Capture::new(0);
    let mut packet = udp_packet(physical(), remote());
    let (action, warning) = capture.packet_captured(
        &mut packet,
        &table_with(Disposition::Tunnel),
        addresses(),
        None,
        0,
    );
    assert!(matches!(action, CaptureAction::Encrypt));
    assert!(warning.is_none());
    assert_eq!(capture.stats.tunnelled, 1);
    capture.queue((0, 28));
    assert_eq!(capture.drain(), vec![(0, 28)]);
    assert!(capture.drain().is_empty());
}

#[test]
fn statistics_are_reported_now_and_then() {
    let mut stats = Stats::new(0);
    assert!(stats.report(9_999_999_999).is_none());
    stats.tunnelled = 7;
    stats.passed = 20;
    stats.discarded = 1;
    stats.batches = 8;
    assert_eq!(
        stats.report(10_000_000_000).as_deref(),
        Some(
            "MOUSEVPN_DIVERT_STATS=tunnelled=7 passed=20 discarded=1 batches=8 \
             packets_per_batch=3.5"
        )
    );
    assert!(stats.report(19_999_999_999).is_none());
}

#[test]
fn a_guess_does_not_overrule_a_classification() {
    let key = FlowKey {
        protocol: PROTOCOL_UDP,
        local: physical(),
        local_port: 54_518,
        remote: remote(),
        remote_port: 53,
    };
    let mut table = table_with(Disposition::Tunnel);
    table.apply_event(EVENT_FLOW_ESTABLISHED, key, (Disposition::Direct, false));
    assert_eq!(table.lookup(&key), Some(Disposition::Tunnel));
    table.apply_event(EVENT_FLOW_ESTABLISHED, key, (Disposition::Direct, true));
    assert_eq!(table.lookup(&key), Some(Disposition::Direct));
    table.apply_event(EVENT_FLOW_DELETED, key, (Disposition::Direct, true));
    assert_eq!(table.lookup(&key), None);
}

#[test]
fn rejected_filters_are_reported() {
    let candidates = vec!["udp".to_owned(), "tcp and".to_owned()];
    let report = check_capture_filters(&candidates, &vec![None, Some("position 7".to_owned())]);
    assert!(report.contains("position 7"));
}

// Flows

fn key() -> FlowKey {
    FlowKey {
        protocol: 6,
        local: v4(10, 0, 0, 2),
        local_port: 51_000,
        remote: v4(93, 184, 216, 34),
        remote_port: 443,
    }
}

#[test]
fn decodes_an_ipv4_mapped_flow_address() {
    // ::ffff:93.184.216.34 in WinDivert's host-order representation.
    let words = [Ipv4Addr::new(93, 184, 216, 34).bits, 0xffff, 0, 0];
    assert_eq!(decode_address(words, false), Some(v4(93, 184, 216, 34)));
}

#[test]
fn rejects_an_ipv4_address_without_the_mapping_prefix() {
    // Guards the host-order assumption: a network-order layout would put
    // the mapping prefix in a different word and must not decode silently.
    assert_eq!(decode_address([0, 0, 0xffff, 12345], false), None);
}

#[test]
fn an_unattributed_event_never_downgrades_a_classified_flow() {
    // The flow layer reports some flows twice, once for a process that
    // cannot be opened. Letting that second event win sends a routed
    // application out on the physical link.
    let mut table = FlowTable::default();
    table.insert(key(), Disposition::Tunnel);
    table.insert_unattributed(key(), Disposition::Direct);
    assert_eq!(table.lookup(&key()), Some(Disposition::Tunnel));
}

#[test]
fn an_unattributed_event_still_seeds_an_unknown_flow() {
    let mut table = FlowTable::default();
    table.insert_unattributed(key(), Disposition::Tunnel);
    assert_eq!(table.lookup(&key()), Some(Disposition::Tunnel));
}

#[test]
fn tracks_and_forgets_flows() {
    let mut table = FlowTable::default();
    assert_eq!(table.lookup(&key()), None);
    table.insert(key(), Disposition::Direct);
    assert_eq!(table.lookup(&key()), Some(Disposition::Direct));
    table.remove(&key());
    assert_eq!(table.len(), 0);
}

#[test]
fn compares_executable_paths_case_insensitively() {
    assert!(paths_equal(r"C:\Apps\Browser.exe", r"c:\apps\browser.EXE"));
}

#[test]
fn classifies_processes_by_the_listed_applications() {
    let listed = vec![r"C:\Apps\Browser.exe".to_owned()];
    let only = AppRoutingPolicy {
        mode: AppRoutingMode::Include,
        apps: listed.clone(),
        package_sids: Vec::new(),
    };
    let mut classifier = Classifier::new(&only);
    assert_eq!(classifier.known(7), None);
    assert_eq!(
        classifier.classify(7, Some(r"c:\apps\browser.exe")),
        (Disposition::Tunnel, true)
    );
    assert_eq!(classifier.known(7), Some((Disposition::Tunnel, true)));
    assert_eq!(
        classifier.classify(8, Some(r"C:\Apps\Other.exe")),
        (Disposition::Direct, true)
    );
    let but = AppRoutingPolicy {
        mode: AppRoutingMode::Exclude,
        apps: listed,
        package_sids: Vec::new(),
    };
    let mut classifier = Classifier::new(&but);
    assert_eq!(
        classifier.classify(7, Some(r"C:\Apps\Browser.exe")),
        (Disposition::Direct, true)
    );
    assert!(!classifier.classify(9, None).1);
}

#[test]
fn a_direct_address_expires() {
    let mut table = FlowTable::new();
    table.route_direct_ip(remote(), 100, 50);
    assert!(table.is_geo_direct_ip(remote(), 120));
    assert!(!table.is_geo_direct_ip(remote(), 151));
    assert!(!table.is_geo_direct_ip(resolver(), 120));
}

// The driver interface

#[test]
fn address_matches_the_windivert_abi() {
    // WINDIVERT_ADDRESS is a 64-bit timestamp, one packed word, one
    // reserved word and a 64-byte union.
    assert_eq!(std::mem::size_of::<Address>(), 80);
    assert_eq!(std::mem::align_of::<Address>(), 8);
    // WINDIVERT_DATA_FLOW has to fit the union it shares.
    assert!(std::mem::size_of::<FlowData>() <= 64);
}

#[test]
fn decodes_the_packed_layer_and_event_word() {
    let mut address = Address::zeroed();
    // Layer occupies the low byte and Event the next; bit 20 is IPv6.
    address.bitfield = LAYER_FLOW | (EVENT_FLOW_ESTABLISHED << 8) | (1 << 20);
    assert_eq!(address.layer(), LAYER_FLOW);
    assert_eq!(address.event(), EVENT_FLOW_ESTABLISHED);
    assert!(address.ipv6());
    assert!(address.flow().is_some());
}

#[test]
fn reads_the_union_only_for_the_matching_layer() {
    let mut address = Address::zeroed();
    address.bitfield = LAYER_NETWORK;
    assert!(address.flow().is_none());
}

#[test]
fn builds_an_inbound_address_carrying_the_interface() {
    let address = Address::for_inbound(17, 0);
    // Layer network, and the outbound bit clear is what marks it inbound.
    assert_eq!(address.layer(), LAYER_NETWORK);
    assert_eq!(address.bitfield >> 17 & 1, 0);
    assert_eq!(address.payload[..4], 17_u32.to_ne_bytes());
}

#[test]
fn explains_why_the_driver_cannot_be_opened() {
    assert_eq!(
        open_error(Some(5), "denied").message(),
        "MouseVPN must be started as Administrator to open WinDivert"
    );
    assert!(open_error(Some(577), "hash").message().contains("signature"));
    assert!(open_error(Some(1275), "blocked").message().contains("blocklist"));
    assert_eq!(
        open_error(Some(2), "not found").message(),
        "failed to open a WinDivert handle: not found"
    );
}

#[test]
fn batches_are_measured_in_whole_addresses() {
    assert_eq!(received_batch(1500, 160).unwrap(), (1500, 2));
    assert!(received_batch(1500, 79).is_err());
    assert_eq!(batch_lengths(0, 3).unwrap(), None);
    assert_eq!(batch_lengths(100, 3).unwrap(), Some((100, 240)));
    assert_eq!(first_packet_len(100, true, 40), Some(60));
    assert_eq!(first_packet_len(100, false, 0), None);
    assert_eq!(first_packet_len(100, true, 100), None);
}

#[test]
fn a_missing_library_is_named() {
    assert!(check_library("C:\\MouseVPN", true, true).is_ok());
    let library = check_library("C:\\MouseVPN", false, true).unwrap_err().message();
    assert!(library.starts_with("WinDivert.dll is missing from C:\\MouseVPN"));
    let driver = check_library("C:\\MouseVPN", true, false).unwrap_err().message();
    assert!(driver.starts_with("WinDivert64.sys is missing from C:\\MouseVPN"));
}

// Direct addresses and domains

#[test]
fn reads_networks_and_domains() {
    assert_eq!(parse_cidr("10.0.0.0/8"), Some((0x0a00_0000, 8)));
    assert_eq!(parse_cidr("10.0.0.0/33"), None);
    assert_eq!(parse_cidr("10.0.0.0"), None);
    assert_eq!(parse_domain("domain:Example.RU. # note"), Some("example.ru".to_owned()));
    assert_eq!(parse_domain("# note"), None);
    assert_eq!(parse_domain("two words"), None);
    assert_eq!(normalize_domain(" Example.COM. "), "example.com");
}

#[test]
fn a_prefix_covers_its_addresses() {
    let mut trie = Ipv4Trie::new();
    assert!(!trie.contains(0x0a01_0203));
    trie.insert(0x0a00_0000, 8);
    assert!(trie.contains(0x0a01_0203));
    assert!(!trie.contains(0x0b00_0000));
    trie.insert(0, 0);
    assert!(trie.contains(0x0b00_0000));
}

fn router() -> GeoRouter {
    GeoRouter::from_lists("77.88.0.0/16\n", "example.ru\n", "domain:bank.example\n").unwrap()
}

#[test]
fn subdomains_follow_their_domain() {
    let router = router();
    assert!(router.is_direct_domain("example.ru"));
    assert!(router.is_direct_domain("www.Example.ru."));
    assert!(!router.is_direct_domain("badexample.ru"));
    assert!(router.is_direct_domain("bank.example"));
    assert!(router.is_direct_ip(v4(77, 88, 8, 8)));
    assert!(!router.is_direct_ip(v4(77, 89, 8, 8)));
    assert!(!router.is_direct_ip(IpAddr::V6(Ipv6Addr { bits: 1 })));
}

#[test]
fn empty_lists_are_refused() {
    let message = match GeoRouter::from_lists("10.0.0.0/8", "", "# nothing") {
        Ok(_) => panic!("accepted"),
        Err(error) => error.message(),
    };
    assert_eq!(message, "embedded RoscomVPN geo-direct data is empty");
}

/// A response for `www.example.ru` with one address and the given lifetime.
fn dns_response(ttl: u32) -> Vec<u8> {
    let mut packet = vec![0_u8; 28];
    packet[0] = 0x45;
    packet[9] = 17;
    packet.extend_from_slice(&[0, 1, 0x81, 0x80, 0, 1, 0, 1, 0, 0, 0, 0]);
    packet.extend_from_slice(b"\x03www\x07example\x02ru\x00");
    packet.extend_from_slice(&[0, 1, 0, 1]);
    packet.extend_from_slice(&[0xc0, 12, 0, 1, 0, 1]);
    packet.extend_from_slice(&ttl.to_be_bytes());
    packet.extend_from_slice(&[0, 4, 93, 184, 216, 34]);
    packet
}

#[test]
fn learns_direct_addresses_from_name_resolution() {
    let second = 1_000_000_000_u128;
    let mut table = FlowTable::new();
    observe_dns_response(&dns_response(120), &router(), &mut table, 0);
    assert!(table.is_geo_direct_ip(v4(93, 184, 216, 34), 100 * second));
    assert!(!table.is_geo_direct_ip(v4(93, 184, 216, 34), 121 * second));
    // A lifetime of nothing still covers the connection that follows.
    let mut table = FlowTable::new();
    observe_dns_response(&dns_response(0), &router(), &mut table, 0);
    assert!(table.is_geo_direct_ip(v4(93, 184, 216, 34), 59 * second));
    // A query teaches nothing.
    let mut query = dns_response(120);
    query[30] = 0x01;
    let mut table = FlowTable::new();
    observe_dns_response(&query, &router(), &mut table, 0);
    assert!(!table.is_geo_direct_ip(v4(93, 184, 216, 34), 0));
}

#[test]
fn resolved_direct_addresses_bypass_the_tunnel() {
    let second = 1_000_000_000_u128;
    let mut table = FlowTable::new();
    table.insert(
        FlowKey {
            protocol: PROTOCOL_UDP,
            local: physical(),
            local_port: 54_518,
            remote: v4(93, 184, 216, 34),
            remote_port: 53,
        },
        Disposition::Tunnel,
    );
    observe_dns_response(&dns_response(120), &router(), &mut table, 0);
    let outcome = |now: u128| {
        let mut packet = udp_packet(physical(), v4(93, 184, 216, 34));
        prepare_outbound(&mut packet, &table, addresses(), Some(&router()), now)
    };
    assert_eq!(outcome(119 * second), Outcome::PassThrough);
    assert_eq!(outcome(120 * second), Outcome::Tunnel);
}

#[test]
fn names_are_read_through_pointers() {
    let packet = dns_response(60);
    assert_eq!(udp_payload(&packet), Some(28));
    let payload = &packet[28..];
    let mut offset = 12;
    assert_eq!(read_dns_name(payload, &mut offset), Some("www.example.ru".to_owned()));
    assert_eq!(offset, 28);
    let mut offset = 32;
    assert_eq!(read_dns_name(payload, &mut offset), Some("www.example.ru".to_owned()));
    assert_eq!(offset, 34);
    // A pointer to itself never ends, and is given up.
    let mut offset = 0;
    assert_eq!(read_dns_name(&[0xc0, 0], &mut offset), None);
    assert_eq!(offset, 2);
    // What a pointer leads to may be no name: reading goes on behind the pointer.
    let mut offset = 0;
    assert_eq!(read_dns_name(&[0xc0, 2, 0x40], &mut offset), None);
    assert_eq!(offset, 2);
    // A pointer out of the packet is not followed.
    let mut offset = 0;
    assert_eq!(read_dns_name(&[1, b'a', 0xc0, 9], &mut offset), None);
    assert_eq!(offset, 0);
    // There is no name behind the end.
    let mut offset = 7;
    assert_eq!(read_dns_name(&[0], &mut offset), None);
    assert_eq!(offset, 7);
}

#[test]
fn a_probe_line_holds_the_tuple_and_the_raw_words() {
    let mut flow = FlowData {
        endpoint_id: 0,
        parent_endpoint_id: 0,
        process_id: 42,
        local_addr: [0xc0a8_0067, 0xffff, 0, 0],
        remote_addr: [0x0101_0101, 0xffff, 0, 0],
        local_port: 50_000,
        remote_port: 443,
        protocol: 6,
    };
    assert_eq!(
        probe_line((Disposition::Tunnel, true), &flow, false, Some("curl.exe")),
        "TUNNEL established pid=42     proto=6   192.168.0.103:50000 -> 1.1.1.1:443 \
         local=[c0a80067, 0000ffff, 00000000, 00000000] \
         remote=[01010101, 0000ffff, 00000000, 00000000]  curl.exe"
    );
    flow.local_addr = [1, 2, 3, 4];
    assert_eq!(
        probe_line((Disposition::Direct, false), &flow, false, None),
        "direct? established pid=42     proto=6   UNDECODED ipv6=false \
         local=[00000001, 00000002, 00000003, 00000004] \
         remote=[01010101, 0000ffff, 00000000, 00000000]  <unknown>"
    );
}
