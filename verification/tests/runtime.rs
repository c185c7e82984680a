use mousevpn_client::app_bypass::{self, RedirectContext};
use mousevpn_client::clock::SECOND;
use mousevpn_client::error::{IoError, IoErrorKind};
use mousevpn_client::ip::{IpAddr, Ipv4Addr, Ipv6Addr, SocketAddr};
use mousevpn_client::killswitch;
use mousevpn_client::liveness::{Action, Liveness};
use mousevpn_client::netcfg::PhysicalAddresses;
use mousevpn_client::network_events::EventContext;
use mousevpn_client::package_sid::{derivation_failure, formatting_failure, sid_length};
use mousevpn_client::packet_loop::{
    adapter_length, after_receive, is_peer_unavailable, is_timeout, is_transient_io,
    is_wintun_send_queue_full, note_packet_drop, Received,
};
use mousevpn_client::platform_stub::{
    diagnose, install_app_bypass, repair_network, run_with_stop,
};
use mousevpn_client::runtime::{
    ipv4_endpoint, next_startup_step, Command, Event, StartupStep, Supervisor,
};
use mousevpn_client::session::SessionParameters;
use mousevpn_client::split_tunnel::{check_probe_apps, probe_arguments, probe_seconds};
use mousevpn_client::wfp::{Condition, FilterAction, Layer, TransactionCall};
use mousevpn_client::{
    app_container_sid_string, normalize_windows_path, AppRoutingMode, AppRoutingPolicy,
    ClientError,
};

#[test]
fn removes_extended_drive_path_prefix() {
    assert_eq!(
        normalize_windows_path(r"\\?\C:\Apps\Browser.exe"),
        r"C:\Apps\Browser.exe"
    );
}

#[test]
fn converts_extended_unc_path() {
    assert_eq!(
        normalize_windows_path(r"\\?\UNC\server\share\Browser.exe"),
        r"\\server\share\Browser.exe"
    );
}

#[test]
fn redirect_context_matches_the_driver_abi() {
    assert_eq!(
        RedirectContext::ipv4(Ipv4Addr::new(192, 168, 1, 7)),
        [2, 0, 0, 0, 192, 168, 1, 7, 0, 0, 0, 0, 0, 0, 0, 0, 0, 0, 0, 0]
    );
}

#[test]
fn ipv6_redirect_context_matches_the_driver_abi() {
    let address = Ipv6Addr::new(0x2001, 0xdb8, 0, 0, 0, 0, 0, 7);
    let context = RedirectContext::ipv6(address);
    assert_eq!(&context[..4], &[23, 0, 0, 0]);
    assert_eq!(&context[4..], &address.bits.to_be_bytes());
}

#[test]
fn physical_address_conditions_are_exact_host_addresses() {
    let policy = AppRoutingPolicy {
        mode: AppRoutingMode::Include,
        apps: vec![r"C:\Apps\Browser.exe".to_owned()],
        package_sids: Vec::new(),
    };
    let addresses = PhysicalAddresses {
        ipv4: Ipv4Addr::new(192, 168, 0, 103),
        ipv6: Some(Ipv6Addr::new(0x2001, 0xdb8, 0, 0, 0, 0, 0, 7)),
    };
    let mut exact_v4 = 0;
    let mut exact_v6 = 0;
    for filter in app_bypass::filters(&policy, addresses) {
        for condition in &filter.conditions {
            match condition {
                Condition::LocalV4 { address, mask } => {
                    assert_eq!((*address, *mask), (0xc0a8_0067, u32::MAX));
                    exact_v4 += 1;
                }
                Condition::LocalV6 { network, prefix } => {
                    assert_eq!(
                        (*network, *prefix),
                        (0x2001_0db8_0000_0000_0000_0000_0000_0007, 128)
                    );
                    exact_v6 += 1;
                }
                _ => {}
            }
        }
    }
    assert!(exact_v4 > 0);
    assert!(exact_v6 > 0);
}

#[test]
fn selected_applications_and_packages_are_blocked_on_both_physical_addresses() {
    let policy = AppRoutingPolicy {
        mode: AppRoutingMode::Include,
        apps: vec![r"C:\Apps\Browser.exe".to_owned()],
        package_sids: vec!["S-1-15-2-123".to_owned()],
    };
    let addresses = PhysicalAddresses {
        ipv4: Ipv4Addr::new(192, 168, 0, 103),
        ipv6: Some(Ipv6Addr::new(0x2001, 0xdb8, 0, 0, 0, 0, 0, 7)),
    };
    let filters = app_bypass::filters(&policy, addresses);
    for identity in [Condition::Application(0), Condition::Package(0)] {
        for (layer, local) in [
            (Layer::ConnectV4, Condition::LocalV4 { address: 0xc0a8_0067, mask: u32::MAX }),
            (
                Layer::ConnectV6,
                Condition::LocalV6 {
                    network: 0x2001_0db8_0000_0000_0000_0000_0000_0007,
                    prefix: 128,
                },
            ),
        ] {
            let block = filters
                .iter()
                .find(|filter| filter.layer == layer && filter.conditions == [identity, local])
                .expect("the identity is blocked");
            assert_eq!(block.action, FilterAction::Block);
            assert!(filters
                .iter()
                .filter(|filter| filter.action == FilterAction::Permit)
                .all(|filter| filter.weight < block.weight));
        }
    }
}

#[test]
fn recognizes_a_full_wintun_send_ring_as_transient() {
    assert!(is_wintun_send_queue_full(Some(111)));
    assert!(!is_wintun_send_queue_full(Some(6)));
    assert!(!is_wintun_send_queue_full(None));
}

#[test]
fn packet_drop_counter_saturates() {
    let mut counter = u64::MAX;
    note_packet_drop(&mut counter, "test");
    assert_eq!(counter, u64::MAX);
}

#[test]
fn dropped_packets_are_reported_at_powers_of_two() {
    let mut counter = 0;
    assert_eq!(
        note_packet_drop(&mut counter, "full").as_deref(),
        Some("MOUSEVPN_PACKET_WARNING=full; dropped packets=1")
    );
    assert!(note_packet_drop(&mut counter, "full").is_some());
    assert_eq!(note_packet_drop(&mut counter, "full"), None);
    assert!(note_packet_drop(&mut counter, "full").is_some());
}

#[test]
fn reports_non_windows_runtime() {
    let diagnostics = diagnose("linux");
    assert!(!diagnostics.wintun_available);
    assert!(!diagnostics.elevated);
}

#[test]
fn nothing_runs_outside_windows() {
    assert!(matches!(run_with_stop(), Err(ClientError::Platform(_))));
    assert!(matches!(repair_network(), Err(ClientError::Platform(_))));
    assert_eq!(
        app_container_sid_string("App_publisher").unwrap_err().message(),
        "Windows application package identities are unavailable on this platform"
    );
}

#[test]
fn errors_are_worded_by_their_kind() {
    assert_eq!(
        ClientError::Crypto("bad key".to_owned()).message(),
        "cryptographic operation failed: bad key"
    );
    assert_eq!(
        ClientError::DataPlane("bad packet".to_owned()).message(),
        "packet processing failed: bad packet"
    );
    assert_eq!(ClientError::HandshakeTimeout.message(), "server handshake timed out");
    assert_eq!(
        ClientError::Io(IoError { kind: IoErrorKind::Other, detail: "down".to_owned() }).message(),
        "network I/O failed: down"
    );
    assert_eq!(
        ClientError::Protocol("mtu".to_owned()).message(),
        "invalid server parameters: mtu"
    );
    assert_eq!(ClientError::Wire("short".to_owned()).message(), "wire protocol failed: short");
    assert_eq!(ClientError::platform_code("code ", 7).message(), "code 7");
}

#[test]
fn a_failing_random_source_is_named() {
    let message = ClientError::from_random_source(&getrandom::Error::UNSUPPORTED).message();
    assert_eq!(
        message,
        format!("secure random generator failed: {}", getrandom::Error::UNSUPPORTED)
    );
}

#[test]
fn tells_transient_network_failures_apart() {
    assert!(is_timeout(IoErrorKind::WouldBlock));
    assert!(is_timeout(IoErrorKind::TimedOut));
    assert!(is_peer_unavailable(IoErrorKind::ConnectionRefused));
    assert!(!is_transient_io(IoErrorKind::Other));
}

#[test]
fn undecodable_datagrams_prove_nothing() {
    let start = 1_000 * SECOND;
    let mut liveness = Liveness::new(start);
    assert!(!after_receive(&mut liveness, Received::Undecodable, start + 8 * SECOND));
    assert_eq!(liveness.action(start + 9 * SECOND), Action::Reconnect);
}

#[test]
fn the_adapter_takes_packets_of_sixteen_bits() {
    assert_eq!(adapter_length(1500).unwrap(), 1500);
    assert_eq!(
        adapter_length(65_536).unwrap_err().message(),
        "received IP packet is too large"
    );
}

#[test]
fn a_burst_of_network_events_asks_once() {
    let mut events = EventContext::new(7);
    events.request_reconnect(0);
    assert!(events.take_request());
    assert!(!events.take_request());
    events.request_reconnect(1);
    assert!(!events.take_request());
}

#[test]
fn the_kill_switch_blocks_by_default() {
    let filters = killswitch::filters(Ipv4Addr::new(203, 0, 113, 10), 42);
    assert!(filters.iter().any(|filter| {
        matches!(filter.layer, Layer::ConnectV4)
            && matches!(filter.action, FilterAction::Block)
            && filter.conditions.is_empty()
    }));
    assert!(filters.iter().any(|filter| {
        matches!(filter.layer, Layer::ConnectV6) && matches!(filter.action, FilterAction::Block)
    }));
}

#[test]
fn startup_recovers_before_it_installs() {
    let mut steps = vec![StartupStep::EnsureRuntime];
    while let Some(next) = next_startup_step(*steps.last().unwrap()) {
        steps.push(next);
    }
    let recovery = steps.iter().position(|s| *s == StartupStep::RecoverStaleState).unwrap();
    let install = steps.iter().position(|s| *s == StartupStep::InstallNetwork).unwrap();
    assert!(recovery < install);
    assert_eq!(steps.len(), 11);
}

#[test]
fn only_ipv4_servers_are_supported() {
    let v4 = Ipv4Addr::new(203, 0, 113, 10);
    let accepted = ipv4_endpoint(SocketAddr { ip: IpAddr::V4(v4), port: 51_820 });
    assert_eq!(accepted.unwrap(), v4);
    let refused = ipv4_endpoint(SocketAddr { ip: IpAddr::V6(Ipv6Addr { bits: 1 }), port: 1 });
    assert!(refused.is_err());
}

#[test]
fn a_failed_session_is_started_again_after_a_wait() {
    let parameters = SessionParameters {
        client_address: Ipv4Addr::new(10, 77, 0, 22),
        prefix_len: 24,
        dns: Ipv4Addr::new(10, 77, 0, 1),
        mtu: 1280,
    };
    let mut supervisor = Supervisor::new(parameters, 0);
    let (command, lines) = supervisor.advance(
        Event::LoopEnded { result: Err(ClientError::HandshakeTimeout), stopping: false },
        SECOND,
    );
    assert!(matches!(command, Command::Wait(_)));
    assert!(!lines.is_empty());
    let (command, _) = supervisor.advance(Event::WaitEnded { stopping: true }, 2 * SECOND);
    assert!(matches!(command, Command::Finish));
}

#[test]
fn probe_options_are_read_in_pairs() {
    let values = |list: &[&str]| list.iter().map(|v| (*v).to_owned()).collect::<Vec<_>>();
    let arguments =
        probe_arguments(&values(&["--config", "a.toml", "--include", "x.exe", "--include", "y.exe"]))
            .unwrap();
    assert_eq!(arguments.config, "a.toml");
    assert_eq!(arguments.mode, AppRoutingMode::Include);
    assert_eq!(arguments.apps, ["x.exe", "y.exe"]);
    assert_eq!(
        probe_arguments(&values(&["--what", "a"])).unwrap_err(),
        "unexpected argument --what"
    );
    assert!(probe_arguments(&values(&["--config", "a.toml"])).unwrap_err().starts_with("usage:"));
    for mixed in [
        ["--config", "a.toml", "--include", "x.exe", "--exclude", "y.exe"],
        ["--exclude", "x.exe", "--include", "y.exe", "--config", "a.toml"],
    ] {
        assert!(probe_arguments(&values(&mixed)).unwrap_err().starts_with("usage:"));
    }
    assert_eq!(probe_seconds(Some("5")), 5);
    assert_eq!(probe_seconds(Some("five")), 30);
    assert!(check_probe_apps(&vec![true, false]).is_err());
}

#[test]
fn package_identities_end_at_a_zero() {
    let units: Vec<u16> = "S-1-15-2".encode_utf16().chain([0, 7]).collect();
    assert_eq!(sid_length(&units).unwrap(), 8);
    assert!(sid_length(&[1, 2, 3]).is_err());
    assert!(sid_length(&vec![1; 300]).is_err());
    assert_eq!(
        derivation_failure(0x8007_0057).message(),
        "failed to derive the package SID (HRESULT 0x80070057)"
    );
    assert_eq!(
        formatting_failure("no memory").message(),
        "failed to format the package SID: no memory"
    );
}

#[test]
fn addresses_are_written_in_canonical_form() {
    assert_eq!(Ipv4Addr::new(10, 0, 0, 1).text(), "10.0.0.1");
    assert_eq!(Ipv4Addr::parse("010.0.0.1"), None);
    assert_eq!(Ipv6Addr::new(0x2001, 0xdb8, 0, 0, 0, 0, 0, 1).text(), "2001:db8::1");
    assert_eq!(Ipv6Addr { bits: 0 }.text(), "::");
    assert_eq!(Ipv6Addr::new(0, 0, 0, 0, 0, 0xffff, 0x0a00, 1).text(), "::ffff:10.0.0.1");
}

#[test]
fn applications_are_only_bypassed_on_windows() {
    assert!(install_app_bypass(&AppRoutingPolicy::default()).is_ok());
    let selective =
        AppRoutingPolicy { mode: AppRoutingMode::Include, ..AppRoutingPolicy::default() };
    assert_eq!(
        install_app_bypass(&selective).unwrap_err().message(),
        "application bypass is only available on Windows"
    );
}

#[test]
fn the_calls_of_an_installation_are_worded() {
    let filters = killswitch::filters(Ipv4Addr::new(203, 0, 113, 10), 7);
    let words = |call: TransactionCall| killswitch::call_operation(call, &filters);
    assert_eq!(words(TransactionCall::OpenEngine), "open the kill switch WFP engine");
    assert_eq!(words(TransactionCall::Add(0)), "add the MouseVPN kill switch provider");
    assert_eq!(
        words(TransactionCall::Add(2)),
        "add the 'MouseVPN kill switch IPv4 block' filter"
    );
    let addresses = PhysicalAddresses { ipv4: Ipv4Addr::new(192, 168, 1, 7), ipv6: None };
    let objects = app_bypass::configure_transaction(&AppRoutingPolicy::default(), addresses);
    assert_eq!(
        app_bypass::call_operation(TransactionCall::Add(1), &objects),
        "add the MouseVPN WFP sublayer"
    );
    assert_eq!(
        app_bypass::call_operation(TransactionCall::Commit, &objects),
        "commit the WFP transaction"
    );
}
