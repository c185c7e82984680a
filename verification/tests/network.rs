use mousevpn_client::ip::{IpAddr, Ipv4Addr, Ipv6Addr};
use mousevpn_client::netcfg::{
    check_status, interface_addresses, ipv4_from_sockaddr, ipv6_from_sockaddr, is_link_local_v6,
    physical_default_route, sockaddr_v4, sockaddr_v6, win32_error, AddressRow, DefaultRoute,
    OwnedRoute, PhysicalAddresses, RouteRow,
};
use mousevpn_client::network::{
    blocked_ipv4_prefixes, cleanup_result, collect, powershell_path, recover_stale_state,
    repair_routes, server_route_is_stale,
};
use mousevpn_client::script::{
    encoded_script, firewall_script, install_script, script_result,
};
use mousevpn_client::{AppRoutingMode, AppRoutingPolicy, ClientError};

fn server() -> Ipv4Addr {
    Ipv4Addr::new(203, 0, 113, 10)
}

fn gateway() -> Ipv4Addr {
    Ipv4Addr::new(192, 168, 1, 1)
}

fn server_route(interface_index: u32, next_hop: Ipv4Addr) -> OwnedRoute {
    OwnedRoute { destination: server(), prefix_len: 32, interface_index, next_hop }
}

fn contains_any(prefixes: &[String], address: Ipv4Addr) -> bool {
    prefixes.iter().any(|prefix| contains(prefix, address))
}

fn contains(prefix: &str, address: Ipv4Addr) -> bool {
    let (network, length) = prefix.split_once('/').expect("CIDR prefix");
    let network = Ipv4Addr::parse(network).expect("IPv4 network").bits;
    let length = length.parse::<u32>().expect("prefix length");
    let mask = u32::MAX << (32 - length);
    address.bits & mask == network
}

#[test]
fn round_trips_an_ipv4_sockaddr() {
    let address = Ipv4Addr::new(10, 8, 0, 7);
    assert_eq!(ipv4_from_sockaddr(sockaddr_v4(address)), address);
}

#[test]
fn round_trips_an_ipv6_sockaddr() {
    let address = Ipv6Addr::new(0x2001, 0xdb8, 0, 0, 0, 0, 0, 1);
    assert_eq!(ipv6_from_sockaddr(&sockaddr_v6(address)), address);
}

#[test]
fn recognizes_link_local_ipv6_addresses() {
    assert!(is_link_local_v6(Ipv6Addr::new(0xfe80, 0, 0, 0, 0, 0, 0, 1)));
    assert!(!is_link_local_v6(Ipv6Addr::new(0x2001, 0xdb8, 0, 0, 0, 0, 0, 1)));
}

#[test]
fn emits_valid_cidr_prefixes_that_exclude_the_server() {
    let prefixes = blocked_ipv4_prefixes(server());
    assert_eq!(prefixes.len(), 32);
    assert!(prefixes.iter().all(|prefix| !contains(prefix, server())));
    assert!(contains_any(&prefixes, Ipv4Addr::new(0, 0, 0, 0)));
    assert!(contains_any(&prefixes, Ipv4Addr::new(255, 255, 255, 255)));
    assert!(contains_any(&prefixes, Ipv4Addr::new(203, 0, 113, 9)));
    assert!(contains_any(&prefixes, Ipv4Addr::new(203, 0, 113, 11)));
}

#[test]
fn handles_ipv4_boundaries() {
    for server in [Ipv4Addr::new(0, 0, 0, 0), Ipv4Addr::new(255, 255, 255, 255)] {
        let prefixes = blocked_ipv4_prefixes(server);
        assert_eq!(prefixes.len(), 32);
        assert!(prefixes.iter().all(|prefix| !contains(prefix, server)));
    }
}

#[test]
fn keeps_a_matching_endpoint_route() {
    assert!(!server_route_is_stale(&[server_route(7, gateway())], server(), 7, gateway()));
}

#[test]
fn replaces_an_endpoint_route_left_on_the_previous_network() {
    assert!(server_route_is_stale(
        &[server_route(7, Ipv4Addr::new(10, 0, 0, 1))],
        server(),
        7,
        gateway()
    ));
    assert!(server_route_is_stale(&[server_route(9, gateway())], server(), 7, gateway()));
}

#[test]
fn replaces_a_missing_or_duplicated_endpoint_route() {
    assert!(server_route_is_stale(&[], server(), 7, gateway()));
    assert!(server_route_is_stale(
        &[server_route(7, gateway()), server_route(9, gateway())],
        server(),
        7,
        gateway()
    ));
}

#[test]
fn install_only_configures_the_kill_switch() {
    let script = install_script(server(), &AppRoutingPolicy::default());
    assert!(script.contains("MouseVPN-KS-v4-"));
    // Addresses, DNS, the interface metric and routes are applied through
    // iphlpapi, so none of them may appear in the script.
    assert!(!script.contains("New-NetIPAddress"));
    assert!(!script.contains("New-NetRoute"));
    assert!(!script.contains("Set-DnsClientServerAddress"));
    assert!(!script.contains("Set-NetIPInterface"));
}

#[test]
fn allowlist_firewall_targets_only_selected_programs() {
    let script = firewall_script(
        &AppRoutingPolicy {
            mode: AppRoutingMode::Include,
            apps: vec![r"C:\Apps\Mouse's Browser.exe".to_owned()],
            package_sids: Vec::new(),
        },
        false,
    );
    assert!(script.contains("-Program $app"));
    assert!(script.contains("Mouse''s Browser.exe"));
}

#[test]
fn allowlist_firewall_keeps_dns_client_on_the_tunnel() {
    let script = firewall_script(
        &AppRoutingPolicy {
            mode: AppRoutingMode::Include,
            apps: Vec::new(),
            package_sids: Vec::new(),
        },
        false,
    );
    assert!(script.contains("-Service Dnscache"));
    assert!(script.contains("-dnscache"));
    assert!(!script.contains("-Program 'C:\\Windows\\System32\\svchost.exe'"));
}

#[test]
fn allowlist_firewall_uses_regular_windows_paths() {
    let script = firewall_script(
        &AppRoutingPolicy {
            mode: AppRoutingMode::Include,
            apps: vec![r"\\?\C:\Program Files\Browser\browser.exe".to_owned()],
            package_sids: Vec::new(),
        },
        false,
    );
    assert!(script.contains(r"'C:\Program Files\Browser\browser.exe'"));
    assert!(!script.contains(r"\\?\"));
}

#[test]
fn denylist_firewall_remains_global() {
    let script = firewall_script(&AppRoutingPolicy::default(), false);
    assert!(!script.contains("-Program"));
    assert!(script.contains("MouseVPN-KS-v4-"));
}

#[test]
fn denylist_firewall_ignores_what_is_listed() {
    let policy = AppRoutingPolicy {
        mode: AppRoutingMode::Exclude,
        apps: vec![r"C:\Apps\Browser.exe".to_owned()],
        package_sids: vec!["S-1-15-2-123".to_owned()],
    };
    for only_missing in [false, true] {
        let script = firewall_script(&policy, only_missing);
        assert_eq!(script, firewall_script(&AppRoutingPolicy::default(), only_missing));
        assert!(!script.contains("-Program"));
        assert!(script.contains("MouseVPN-KS-v4-"));
        assert!(script.contains("MouseVPN-KS-v6-"));
    }
}

#[test]
fn allowlist_firewall_targets_selected_store_packages() {
    let script = firewall_script(
        &AppRoutingPolicy {
            mode: AppRoutingMode::Include,
            apps: Vec::new(),
            package_sids: vec!["S-1-15-2-123".to_owned()],
        },
        false,
    );
    assert!(script.contains("-Package $package"));
    assert!(script.contains("'S-1-15-2-123'"));
}

fn route_row(luid: u64, prefix_len: u8, metric: u32, interface_metric: Option<u32>) -> RouteRow {
    let interface_index = u32::try_from(luid).unwrap();
    RouteRow {
        prefix_len,
        route: DefaultRoute { interface_luid: luid, interface_index, next_hop: gateway() },
        metric,
        interface_metric,
    }
}

#[test]
fn the_physical_default_route_has_the_least_metric() {
    let rows = vec![
        route_row(1, 24, 0, Some(0)),
        route_row(2, 0, 0, None),
        route_row(3, 0, 0, Some(1)),
        route_row(4, 0, 20, Some(30)),
        route_row(5, 0, 10, Some(25)),
        route_row(6, 0, 25, Some(10)),
        route_row(7, 0, u32::MAX, Some(25)),
    ];
    assert_eq!(physical_default_route(&rows, Some(3)).unwrap(), rows[4].route);
    assert_eq!(physical_default_route(&rows, None).unwrap(), rows[2].route);
    let error = physical_default_route(&rows[..2].to_vec(), None).unwrap_err();
    assert_eq!(error.message(), "no physical IPv4 default route is available");
}

#[test]
fn the_first_usable_addresses_of_the_interface_are_taken() {
    let row = |interface_luid, preferred, address| AddressRow { interface_luid, preferred, address };
    let v4 = |last| IpAddr::V4(Ipv4Addr::new(192, 168, 0, last));
    let v6 = |first| Ipv6Addr::new(first, 0, 0, 0, 0, 0, 0, 7);
    let mut rows = vec![
        row(8, true, v4(1)),
        row(9, false, v4(2)),
        row(9, true, IpAddr::V6(v6(0xfe80))),
        row(9, true, v4(3)),
        row(9, true, v4(4)),
    ];
    let ipv4 = Ipv4Addr::new(192, 168, 0, 3);
    assert_eq!(interface_addresses(&rows, 9).unwrap(), PhysicalAddresses { ipv4, ipv6: None });
    rows.push(row(9, true, IpAddr::V6(v6(0x2001))));
    rows.push(row(9, true, IpAddr::V6(v6(0x2002))));
    assert_eq!(
        interface_addresses(&rows, 9).unwrap(),
        PhysicalAddresses { ipv4, ipv6: Some(v6(0x2001)) }
    );
    assert_eq!(
        interface_addresses(&rows, 10).unwrap_err().message(),
        "the physical interface has no IPv4 address"
    );
}

#[test]
fn a_socket_address_keeps_the_octets_in_network_order() {
    assert_eq!(sockaddr_v4(Ipv4Addr::new(10, 8, 0, 7)).to_le_bytes(), [10, 8, 0, 7]);
    let octets = sockaddr_v6(Ipv6Addr::new(0x2001, 0xdb8, 0, 0, 0, 0, 0, 1));
    assert_eq!(&octets[..4], &[0x20, 0x01, 0x0d, 0xb8]);
    assert_eq!(octets[15], 1);
}

#[test]
fn a_windows_status_names_the_operation() {
    assert_eq!(
        win32_error("add a route", 5).message(),
        "failed to add a route: Windows error 5"
    );
    assert!(check_status(0, "add a route").is_ok());
    assert_eq!(
        check_status(87, "add a route").unwrap_err().message(),
        "failed to add a route: Windows error 87"
    );
}

#[test]
fn repairs_only_the_routes_that_are_missing() {
    let default = DefaultRoute { interface_luid: 1, interface_index: 7, next_hop: gateway() };
    let repair = repair_routes(&[server_route(7, gateway())], server(), &default, 20);
    assert!(!repair.replace_server_route);
    assert!(repair.add_lower_half);
    assert!(repair.add_upper_half);
}

#[test]
fn recovery_cleans_up_only_what_was_left() {
    assert!(!recover_stale_state(false, false).cleanup);
    assert!(recover_stale_state(true, true).cleanup);
}

#[test]
fn cleanup_reports_every_failure() {
    let mut failures = Vec::new();
    collect(&mut failures, Ok(()));
    assert!(cleanup_result(&failures).is_ok());
    collect(&mut failures, Err(ClientError::platform("routes are stuck")));
    collect(&mut failures, Err(ClientError::platform("rules are stuck")));
    let message = cleanup_result(&failures).unwrap_err().message();
    assert!(message.contains("routes are stuck"));
    assert!(message.contains("rules are stuck"));
}

#[test]
fn quotes_are_paired_in_paths() {
    assert_eq!(powershell_path(r"C:\Apps\Mouse's.exe"), r"C:\Apps\Mouse''s.exe");
}

#[test]
fn scripts_answer_in_utf8() {
    assert_eq!(
        encoded_script("Get-NetRoute"),
        "[Console]::OutputEncoding=[System.Text.Encoding]::UTF8; \
         $OutputEncoding=[Console]::OutputEncoding; Get-NetRoute"
    );
}

#[test]
fn a_failed_script_reports_its_errors() {
    assert_eq!(script_result(true, "done", "", "0", "install").unwrap(), "done");
    let message = script_result(false, "", "denied", "1", "install").unwrap_err().message();
    assert!(message.contains("denied"));
}
