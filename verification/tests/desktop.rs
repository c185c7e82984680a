use mousevpn_client::clock::SECOND;
use mousevpn_client::commands::{
    autostart_command, autostart_result, diagnosis_lines, disable_autostart_arguments,
    enable_autostart_arguments, helper_command, linux_helper_config, parse_watchdog,
    should_reveal_existing_instance, watchdog_arguments, windows_command, HelperCommand, Watchdog,
    WindowsCommand,
};
use mousevpn_client::connection::{
    after_session, check_idle, check_stoppable, exit_step, handshake_line, next_backoff,
    profile_to_connect, wait_for_stop, ConnectionSnapshot, Desktop, ExitStep, HelperNext,
    ToggleAction, WaitStep, HELPER_BACKOFF_MIN,
};
use mousevpn_client::error::{IoError, IoErrorKind};
use mousevpn_client::helper_log::{rotates_on_open, LogMeter, MAX_LOG_BYTES};
use mousevpn_client::helper_runtime::{
    keeps_watching, lock_step, process_identity, server_address, take_over, LockStep, TakeOver,
};
use mousevpn_client::ip::{IpAddr, Ipv4Addr, Ipv6Addr, SocketAddr};
use mousevpn_client::platform_stub::diagnose;
use mousevpn_client::profiles::{
    drawn_identifier, identifier_of, import, is_profile_file, normalized_id, profile_file_name,
    sort_by_name, temporary_extension, ClientProtocol, PortableProfile, ProfileSummary,
};
use mousevpn_client::reliability::{
    protocol_key, protocol_label, recommend, ModeEntry, ModeTotals, ReliabilityMonitor,
    RuntimeMetrics,
};
use mousevpn_client::session::SessionParameters;
use mousevpn_client::tray::{icon, icon_of_pixels, menu_action, title, MenuAction};

fn owned(list: &[&str]) -> Vec<String> {
    list.iter().map(|item| (*item).to_owned()).collect()
}

fn snapshot(state: &str, message: &str, profile: Option<&str>) -> ConnectionSnapshot {
    ConnectionSnapshot {
        state: state.to_owned(),
        message: message.to_owned(),
        profile_id: profile.map(str::to_owned),
    }
}

#[test]
fn duplicate_manual_launch_reveals_the_existing_window() {
    assert!(should_reveal_existing_instance(&[
        r"C:\Program Files\MouseVPN\MouseVPN.exe".to_owned()
    ]));
    assert!(!should_reveal_existing_instance(&[
        r"C:\Program Files\MouseVPN\MouseVPN.exe".to_owned(),
        "--minimized".to_owned(),
    ]));
}

#[test]
fn autostart_quotes_the_executable_and_starts_minimized() {
    assert_eq!(
        autostart_command(r"C:\Program Files\MouseVPN\MouseVPN.exe"),
        r#""C:\Program Files\MouseVPN\MouseVPN.exe" --minimized --autoconnect"#
    );
}

#[test]
fn stale_helper_cannot_overwrite_a_new_connection() {
    let mut snapshot = snapshot("connected", "new connection", Some("new"));
    snapshot.read_helper_status("MOUSEVPN_STATE=restarting", 2, 1, None);
    assert_eq!(snapshot.state, "connected");
    assert_eq!(snapshot.message, "new connection");
}

#[test]
fn restart_state_preserves_the_specific_runtime_error() {
    let mut snapshot = ConnectionSnapshot::default();
    for line in [
        "MOUSEVPN_RUNTIME_WARNING=network cleanup failed",
        "MOUSEVPN_STATE=restarting",
    ] {
        snapshot.read_helper_status(line, 1, 1, None);
    }
    assert_eq!(snapshot.state, "connecting");
    assert_eq!(snapshot.message, "Восстанавливаем VPN: network cleanup failed");
}

#[test]
fn the_helper_tells_what_is_shown() {
    let mut snapshot = ConnectionSnapshot::connecting(Desktop::Windows, "id");
    assert_eq!(snapshot.state, "connecting");
    assert_eq!(snapshot.message, "Настраиваем Wintun и маршруты…");
    let lines = [
        ("MOUSEVPN_STATE=connected", "connected", "Защищённое соединение установлено"),
        ("MOUSEVPN_STATE=reconnecting", "connecting", "Связь потеряна, переподключаемся…"),
        ("MOUSEVPN_STATE=reconnected", "connected", "Соединение восстановлено"),
        (
            "MOUSEVPN_STATE=failed_closed",
            "connecting",
            "Перезапускаем сетевой туннель без утечки трафика…",
        ),
        ("something else", "connecting", "Перезапускаем сетевой туннель без утечки трафика…"),
        ("MOUSEVPN_ERROR=no route", "error", "no route\nЖурнал: helper.log"),
    ];
    for (line, state, message) in lines {
        snapshot.read_helper_status(line, 3, 3, Some("helper.log"));
        assert_eq!(snapshot.state, state);
        assert_eq!(snapshot.message, message);
        assert_eq!(snapshot.profile_id.as_deref(), Some("id"));
    }
    snapshot.helper_exited(false);
    assert_eq!(snapshot.message, "no route\nЖурнал: helper.log");
    snapshot.helper_exited(true);
    assert_eq!(snapshot.state, "disconnected");
    assert_eq!(snapshot.profile_id, None);
}

#[test]
fn the_linux_helper_tells_what_is_shown() {
    let mut snapshot = ConnectionSnapshot::connecting(Desktop::Linux, "id");
    assert_eq!(snapshot.message, "Ожидание разрешения PolicyKit…");
    snapshot.read_linux_helper_status("12:00 MouseVPN connected to server");
    assert_eq!(snapshot.state, "connected");
    snapshot.disconnecting(Desktop::Linux);
    assert_eq!(snapshot.message, "Безопасно отключаем VPN…");
    snapshot.read_linux_helper_status("MOUSEVPN_ERROR=lost");
    assert_eq!((snapshot.state.as_str(), snapshot.message.as_str()), ("error", "lost"));
}

#[test]
fn an_unexpected_exit_is_an_error() {
    let mut connected = snapshot("connected", "ok", Some("id"));
    connected.helper_exited(false);
    assert_eq!(connected.state, "error");
    assert_eq!(connected.message, "VPN-процесс неожиданно завершился");
    let mut stopping = snapshot("connected", "ok", Some("id"));
    stopping.disconnecting(Desktop::Windows);
    assert_eq!(stopping.message, "Восстанавливаем маршруты и DNS…");
    stopping.helper_exited(false);
    assert_eq!(stopping.state, "disconnected");
    stopping.failed("no profile");
    assert_eq!((stopping.state.as_str(), stopping.message.as_str()), ("error", "no profile"));
}

#[test]
fn a_profile_in_use_is_protected() {
    let error = snapshot("error", "x", Some("id"));
    assert!(error.check_protocol_change("id").is_ok());
    assert_eq!(error.check_deletion("id").unwrap_err(), "Сначала отключите активный профиль");
    let connected = snapshot("connected", "x", Some("id"));
    assert!(connected.check_protocol_change("id").is_err());
    assert!(connected.check_protocol_change("other").is_ok());
    assert!(connected.check_deletion("other").is_ok());
    assert!(ConnectionSnapshot::default().check_deletion("id").is_ok());
}

#[test]
fn the_tray_switches_the_connection() {
    assert_eq!(snapshot("error", "", None).toggle_action(), ToggleAction::Connect);
    assert_eq!(snapshot("connecting", "", None).toggle_action(), ToggleAction::Disconnect);
    assert_eq!(snapshot("connected", "", None).toggle_action(), ToggleAction::Disconnect);
    assert_eq!(snapshot("disconnecting", "", None).toggle_action(), ToggleAction::Wait);
    let id = |text: &str| Some(text.to_owned());
    assert_eq!(profile_to_connect(id("last"), true, id("first")).unwrap(), "last");
    assert_eq!(profile_to_connect(id("last"), false, id("first")).unwrap(), "first");
    assert_eq!(
        profile_to_connect(None, false, None).unwrap_err(),
        "Сначала добавьте профиль в окне MouseVPN"
    );
    assert_eq!(check_idle(true).unwrap_err(), "VPN уже запущен");
    assert_eq!(check_stoppable(false, false).unwrap_err(), "VPN уже выключен");
    assert_eq!(check_stoppable(true, false).unwrap_err(), "Канал управления VPN закрыт");
    assert_eq!(exit_step(1, false), ExitStep::Wait);
    assert_eq!(exit_step(99, false), ExitStep::Wait);
    assert_eq!(exit_step(100, false), ExitStep::WaitAndKill);
    assert_eq!(exit_step(100, true), ExitStep::Finished);
}

#[test]
fn the_helper_restarts_with_growing_waits() {
    assert!(matches!(after_session(Ok(()), false), HelperNext::Finish));
    assert!(matches!(after_session(Err("x".to_owned()), true), HelperNext::Finish));
    match after_session(Err("x".to_owned()), false) {
        HelperNext::Restart { lines } => {
            assert_eq!(lines, ["MOUSEVPN_RUNTIME_WARNING=x", "MOUSEVPN_STATE=restarting"]);
        }
        HelperNext::Finish => panic!("finished"),
    }
    let mut waits = vec![HELPER_BACKOFF_MIN];
    for _ in 0..5 {
        waits.push(next_backoff(*waits.last().unwrap()));
    }
    let seconds: Vec<u128> = waits.iter().map(|wait| wait / SECOND).collect();
    assert_eq!(seconds, [1, 2, 4, 8, 16, 16]);
    assert_eq!(wait_for_stop(true, 0, 5), WaitStep::Stopped);
    assert_eq!(wait_for_stop(false, 5, 5), WaitStep::Expired);
    assert_eq!(wait_for_stop(false, 0, 5), WaitStep::Sleep(5));
    assert_eq!(wait_for_stop(false, 0, SECOND), WaitStep::Sleep(100_000_000));
}

#[test]
fn a_handshake_is_reported_with_its_parameters() {
    let parameters = SessionParameters {
        client_address: Ipv4Addr::new(10, 77, 0, 22),
        prefix_len: 24,
        dns: Ipv4Addr::new(10, 77, 0, 1),
        mtu: 1280,
    };
    assert_eq!(
        handshake_line(&parameters),
        "MouseVPN handshake succeeded: address=10.77.0.22/24 mtu=1280 dns=10.77.0.1"
    );
}

#[test]
fn the_command_line_chooses_the_command() {
    let command = |list: &[&str]| windows_command(&owned(list));
    assert!(matches!(command(&["vpn", "--diagnose"]), WindowsCommand::Diagnose));
    assert!(matches!(command(&["vpn", "--repair-network"]), WindowsCommand::RepairNetwork));
    assert!(matches!(command(&["vpn", "--network-report"]), WindowsCommand::NetworkReport));
    assert!(matches!(
        command(&["vpn", "--helper", "--config", "p.toml"]),
        WindowsCommand::Helper(path) if path == "p.toml"
    ));
    assert!(matches!(
        command(&["vpn", "--probe", "--config", "p.toml"]),
        WindowsCommand::Probe(path) if path == "p.toml"
    ));
    assert!(matches!(
        command(&["vpn", "--minimized", "--autoconnect"]),
        WindowsCommand::Gui { minimized: true, autoconnect: true }
    ));
    assert!(matches!(
        command(&["vpn", "--minimized"]),
        WindowsCommand::Gui { minimized: true, autoconnect: false }
    ));
    assert!(matches!(
        command(&["vpn", "--helper"]),
        WindowsCommand::Gui { minimized: false, autoconnect: false }
    ));
    let config = linux_helper_config(&owned(&["vpn", "--helper", "--config", "p.toml"]));
    assert_eq!(config.as_deref(), Some("p.toml"));
    assert_eq!(linux_helper_config(&owned(&["vpn"])), None);
    assert!(matches!(
        helper_command(&owned(&["helper", "--config", "p.toml"])),
        HelperCommand::Run(path) if path == "p.toml"
    ));
    assert!(matches!(helper_command(&owned(&["helper"])), HelperCommand::Usage));
}

#[test]
fn a_watchdog_reads_its_own_options() {
    let watchdog =
        Watchdog { parent: 4_242, started: 99_887_766, server: Ipv4Addr::new(203, 0, 113, 10) };
    let mut arguments = vec!["helper".to_owned()];
    arguments.extend(watchdog_arguments(&watchdog));
    match helper_command(&arguments) {
        HelperCommand::Watch { parent, started, server } => {
            assert_eq!(parse_watchdog(&parent, &started, &server).unwrap(), watchdog);
        }
        _ => panic!("not a watchdog"),
    }
    assert_eq!(parse_watchdog("x", "1", "10.0.0.1").unwrap_err(), "Неверный PID watchdog");
    assert_eq!(
        parse_watchdog("1", "x", "10.0.0.1").unwrap_err(),
        "Неверное время старта watchdog"
    );
    assert_eq!(parse_watchdog("1", "1", "::1").unwrap_err(), "Неверный адрес сервера watchdog");
}

#[test]
fn the_task_scheduler_is_asked_to_start_the_client() {
    let arguments = enable_autostart_arguments("vpn.exe");
    assert_eq!(arguments[0], "/Create");
    assert_eq!(arguments[10], "\"vpn.exe\" --minimized --autoconnect");
    assert_eq!(arguments.len(), 12);
    assert_eq!(disable_autostart_arguments(), ["/Delete", "/TN", "MouseVPN", "/F"]);
    assert!(autostart_result(true, true, "", "0").unwrap());
    assert_eq!(autostart_result(true, false, " denied\n", "1").unwrap_err(), "denied");
    assert_eq!(
        autostart_result(true, false, " ", "exit code: 1").unwrap_err(),
        "Task Scheduler завершился с кодом exit code: 1"
    );
    let lines = diagnosis_lines(&diagnose("linux"));
    assert_eq!(lines[0], "platform=linux");
    assert_eq!(lines[2], "wintun_available=false");
}

// Profiles

#[test]
fn profile_identifiers_have_one_form() {
    let canonical = "936da01f-9abd-4d9d-80c7-02af85c822a8";
    for form in [
        "936DA01F9ABD4D9D80C702AF85C822A8",
        "936da01f-9abd-4d9d-80c7-02af85c822a8",
        "{936DA01F-9abd-4d9d-80c7-02af85c822a8}",
        "urn:uuid:936da01f-9abd-4d9d-80c7-02af85c822a8",
        "URN:UUID:936da01f-9abd-4d9d-80c7-02af85c822a8",
    ] {
        assert_eq!(normalized_id(form).unwrap(), canonical);
    }
    for wrong in [
        "",
        "936da01f",
        "936da01f-9abd-4d9d-80c7-02af85c822ag",
        "936da01f_9abd-4d9d-80c7-02af85c822a8",
        "(936da01f-9abd-4d9d-80c7-02af85c822a8)",
        "../../../../../../../../etc/passwd/x",
    ] {
        assert_eq!(normalized_id(wrong).unwrap_err(), "Неверный идентификатор профиля");
    }
    assert_eq!(profile_file_name(canonical).unwrap(), format!("{canonical}.toml"));
    assert!(profile_file_name("nope").is_err());
}

#[test]
fn temporary_files_have_random_extensions() {
    let first = temporary_extension().unwrap();
    let second = temporary_extension().unwrap();
    assert_ne!(first, second);
    let id = first.strip_prefix("tmp-").unwrap();
    assert_eq!(normalized_id(id).unwrap(), id);
    assert_eq!(id.as_bytes()[14], b'4');
}

#[test]
fn random_octets_make_an_identifier_of_version_four() {
    assert_eq!(identifier_of([0; 16]), "00000000-0000-4000-8000-000000000000");
    assert_eq!(identifier_of([0xff; 16]), "ffffffff-ffff-4fff-bfff-ffffffffffff");
    assert_eq!(
        identifier_of([
            70, 235, 208, 238, 14, 109, 67, 201, 185, 13, 204, 195, 90, 145, 63, 62,
        ]),
        "46ebd0ee-0e6d-43c9-b90d-ccc35a913f3e"
    );
    assert_ne!(drawn_identifier().unwrap(), drawn_identifier().unwrap());
}

fn portable(id: &str, name: &str) -> PortableProfile {
    PortableProfile {
        id: id.to_owned(),
        name: name.to_owned(),
        endpoint: " 203.0.113.10:51820 ".to_owned(),
        server_public_key: "public".to_owned(),
        client_private_key: "private".to_owned(),
    }
}

#[test]
fn importing_erases_the_password() {
    let mut password = "secret".to_owned();
    let profile = import(
        Ok(portable("936DA01F9ABD4D9D80C702AF85C822A8", " Home ")),
        &mut password,
        Desktop::Windows,
    )
    .unwrap();
    assert_eq!(password, "");
    assert_eq!(profile.id, "936da01f-9abd-4d9d-80c7-02af85c822a8");
    assert_eq!(profile.name, "Home");
    assert_eq!(profile.server, "203.0.113.10:51820");
    assert_eq!(profile.tun_name, "MouseVPN");
    assert_eq!(profile.protocol, ClientProtocol::Legacy);
    let summary = profile.summary();
    assert_eq!(summary.endpoint, "203.0.113.10:51820");
    let server = SocketAddr { ip: IpAddr::V4(Ipv4Addr::new(203, 0, 113, 10)), port: 51820 };
    let config = profile.client_config(Ok(server)).unwrap();
    assert_eq!(config.server, server);
    assert_eq!(config.server_public_key, "public");
    assert_eq!(config.client_private_key, "private");
    assert_eq!(config.tun_name, "MouseVPN");
    assert_eq!(config.protocol, ClientProtocol::Legacy);
    assert_eq!(
        profile.client_config(Err("no port".to_owned())).unwrap_err(),
        "Неверный адрес сервера: no port"
    );

    let mut password = "secret".to_owned();
    let profile = import(Ok(portable("none", "Home")), &mut password, Desktop::Linux).unwrap();
    assert_eq!(normalized_id(&profile.id).unwrap(), profile.id);
    assert_eq!(profile.tun_name, "mousevpn0");

    let mut password = "secret".to_owned();
    let refused = import(Ok(portable("none", "  ")), &mut password, Desktop::Linux);
    assert_eq!(refused.unwrap_err(), "В конфигурации отсутствует название");
    let mut password = "secret".to_owned();
    let refused = import(Err("wrong password".to_owned()), &mut password, Desktop::Linux);
    assert_eq!(refused.unwrap_err(), "wrong password");
    assert_eq!(password, "");
}

#[test]
fn profiles_are_listed_by_name() {
    let profile = |id: &str, name: &str| ProfileSummary {
        id: id.to_owned(),
        name: name.to_owned(),
        endpoint: String::new(),
        protocol: ClientProtocol::Legacy,
    };
    let sorted = sort_by_name(vec![
        profile("1", "работа"),
        profile("2", "Дом"),
        profile("3", "дом"),
        profile("4", "Alpha"),
    ]);
    let ids: Vec<&str> = sorted.iter().map(|profile| profile.id.as_str()).collect();
    assert_eq!(ids, ["4", "2", "3", "1"]);
    assert!(is_profile_file(Some("toml")));
    assert!(!is_profile_file(Some("bak")));
    assert!(!is_profile_file(None));
}

// The helper on Linux

#[test]
fn reads_the_current_process_identity() {
    let stat = "4242 (mouse (vpn) helper) S 1 4242 4242 0 -1 4194560 1 2 3 4 5 6 7 8 20 0 1 0 \
                99887766 1000";
    let (state, started) = process_identity(stat).unwrap();
    assert_ne!(state, 'Z');
    assert!(started > 0);
    assert_eq!((state, started), ('S', 99_887_766));
    assert!(keeps_watching(Some((state, started)), started));
    assert!(!keeps_watching(Some(('Z', started)), started));
    assert!(!keeps_watching(Some((state, started)), 1));
    assert!(!keeps_watching(None, started));
}

#[test]
fn a_damaged_process_line_is_explained() {
    assert_eq!(process_identity("1 nothing").unwrap_err(), "invalid /proc process stat");
    assert_eq!(process_identity("1 (x) ").unwrap_err(), "process state is unavailable");
    assert_eq!(process_identity("1 (x) S 1 2").unwrap_err(), "process start time is unavailable");
    let line = |start: &str| format!("1 (x) S 1 2 3 4 5 6 7 8 9 10 11 12 13 14 15 16 17 18 {start}");
    assert_eq!(process_identity(&line("7")).unwrap(), ('S', 7));
    assert_eq!(
        process_identity(&line("7x")).unwrap_err(),
        "invalid process start time: invalid digit found in string"
    );
    assert_eq!(
        process_identity(&line("99999999999999999999x")).unwrap_err(),
        "invalid process start time: number too large to fit in target type"
    );
}

#[test]
fn helpers_wait_for_each_other() {
    let busy = || Err(IoError { kind: IoErrorKind::WouldBlock, detail: "busy".to_owned() });
    let broken = || Err(IoError { kind: IoErrorKind::Other, detail: "broken".to_owned() });
    assert!(matches!(lock_step(Ok(()), 5, 0), LockStep::Acquired));
    assert!(matches!(lock_step(busy(), 1, 2), LockStep::Retry));
    assert!(matches!(
        lock_step(busy(), 2, 2),
        LockStep::Fail(message) if message == "Другой процесс MouseVPN уже подключается или работает"
    ));
    assert!(matches!(lock_step(broken(), 0, 2), LockStep::Fail(message) if message == "broken"));
    assert!(matches!(take_over(Ok(())), TakeOver::RepairNetwork));
    assert!(matches!(take_over(busy()), TakeOver::Leave));
    assert!(matches!(take_over(broken()), TakeOver::Fail(message) if message == "broken"));
    let v4 = Ipv4Addr::new(203, 0, 113, 10);
    assert_eq!(server_address(IpAddr::V4(v4)).unwrap(), v4);
    assert_eq!(
        server_address(IpAddr::V6(Ipv6Addr { bits: 1 })).unwrap_err(),
        "Адрес VPN-сервера IPv6 пока не поддерживается"
    );
}

#[test]
fn the_log_is_started_anew_at_its_limit() {
    assert!(rotates_on_open(MAX_LOG_BYTES));
    assert!(!rotates_on_open(MAX_LOG_BYTES - 1));
    let mut meter = LogMeter::new(MAX_LOG_BYTES - 1);
    let write = meter.write(17, "мышь");
    assert!(!write.roll);
    assert_eq!(write.line, "17 мышь\n");
    assert!(meter.write(18, "x").roll);
    assert!(!meter.write(19, "x").roll);
}

// The tray

#[test]
fn the_tray_names_the_state() {
    assert_eq!(title(None), "MouseVPN — состояние неизвестно");
    assert_eq!(title(Some("connected")), "MouseVPN — подключено");
    assert_eq!(title(Some("connecting")), "MouseVPN — подключение");
    assert_eq!(title(Some("disconnecting")), "MouseVPN — отключение");
    assert_eq!(title(Some("error")), "MouseVPN — ошибка");
    assert_eq!(title(Some("disconnected")), "MouseVPN — отключено");
    assert_eq!(menu_action("show"), Some(MenuAction::Show));
    assert_eq!(menu_action("toggle"), Some(MenuAction::Toggle));
    assert_eq!(menu_action("quit"), Some(MenuAction::Quit));
    assert_eq!(menu_action("other"), None);
}

#[test]
fn pixels_are_handed_over_alpha_first() {
    let icon = icon_of_pixels(1, 2, vec![1, 2, 3, 4, 5, 6, 7, 8, 9]);
    assert_eq!(icon.data, [4, 1, 2, 3, 8, 5, 6, 7, 9]);
    assert_eq!((icon.width, icon.height), (1, 2));
}

/// A PNG file with one pixel: red 10, green 20, blue 30, alpha 40.
const PIXEL: [u8; 70] = [
    137, 80, 78, 71, 13, 10, 26, 10, 0, 0, 0, 13, 73, 72, 68, 82,
    0, 0, 0, 1, 0, 0, 0, 1, 8, 6, 0, 0, 0, 31, 21, 196,
    137, 0, 0, 0, 13, 73, 68, 65, 84, 120, 218, 99, 224, 18, 145, 211,
    0, 0, 0, 205, 0, 101, 181, 199, 150, 82, 0, 0, 0, 0, 73, 69,
    78, 68, 174, 66, 96, 130,
];

#[test]
fn a_png_file_becomes_an_icon() {
    let icon = icon(&PIXEL).expect("an icon");
    assert_eq!((icon.width, icon.height), (1, 1));
    assert_eq!(icon.data, [40, 10, 20, 30]);
}

#[test]
fn what_is_no_png_file_becomes_no_icon() {
    assert!(icon(b"not a picture").is_none());
    assert!(icon(&[]).is_none());
}

// Reliability

#[test]
fn accumulates_deltas_without_counting_snapshots_twice() {
    let mut monitor = ReliabilityMonitor::new();
    monitor.begin("profile", ClientProtocol::MorphBalanced);
    monitor.observe(
        "profile",
        ClientProtocol::MorphBalanced,
        RuntimeMetrics {
            uptime_seconds: 300,
            keepalives_sent: 30,
            keepalive_responses: 29,
            keepalive_timeouts: 1,
            keepalive_rtt_total_ms: 4_350,
            keepalive_rtt_samples: 29,
            max_keepalive_rtt_ms: 210,
            ..RuntimeMetrics::default()
        },
        1,
    );
    monitor.observe(
        "profile",
        ClientProtocol::MorphBalanced,
        RuntimeMetrics {
            uptime_seconds: 305,
            keepalives_sent: 30,
            keepalive_responses: 29,
            keepalive_timeouts: 1,
            keepalive_rtt_total_ms: 4_350,
            keepalive_rtt_samples: 29,
            max_keepalive_rtt_ms: 210,
            ..RuntimeMetrics::default()
        },
        2,
    );
    let mode = &monitor.summary("profile")[2];
    assert_eq!(mode.totals.sessions, 1);
    assert_eq!(mode.totals.observed_seconds, 305);
    assert_eq!(mode.totals.keepalives_sent, 30);
    assert_eq!(mode.totals.keepalive_timeouts, 1);
    assert_eq!(mode.average_rtt_ms, 150);
    assert!(mode.enough_data);
    assert_eq!(mode.completed_keepalives, 30);
    assert_eq!(mode.totals.updated_at, 2);
}

/// The stability of a mode, one hundred less a penalty for what went wrong.
fn stability(totals: &ModeTotals, completed: u64) -> f64 {
    let loss = if completed == 0 {
        0.0
    } else {
        totals.keepalive_timeouts as f64 * 100.0 / completed as f64
    };
    (100.0 - loss * 3.5).clamp(0.0, 100.0)
}

#[test]
fn recommends_only_after_two_modes_have_enough_data() {
    let mut monitor = ReliabilityMonitor::new();
    let recommendation = |monitor: &ReliabilityMonitor| {
        let modes = monitor.summary("profile");
        let scores: Vec<u64> = modes
            .iter()
            .map(|mode| stability(&mode.totals, mode.completed_keepalives).to_bits())
            .collect();
        let chosen = recommend(&modes, &scores);
        (
            chosen.eligible_modes,
            chosen.best.map(|best| protocol_key(modes[best].protocol)),
        )
    };
    for (protocol, losses) in [
        (ClientProtocol::MorphBalanced, 0),
        (ClientProtocol::MorphParanoid, 3),
    ] {
        monitor.begin("profile", protocol);
        monitor.observe(
            "profile",
            protocol,
            RuntimeMetrics {
                uptime_seconds: 600,
                keepalives_sent: 60,
                keepalive_responses: 60 - losses,
                keepalive_timeouts: losses,
                keepalive_rtt_total_ms: 9_000,
                keepalive_rtt_samples: 60 - losses,
                ..RuntimeMetrics::default()
            },
            1,
        );
        if protocol == ClientProtocol::MorphBalanced {
            assert_eq!(recommendation(&monitor), (1, None));
        }
    }
    let (eligible_modes, best_protocol) = recommendation(&monitor);
    assert_eq!(eligible_modes, 2);
    assert_eq!(best_protocol, Some("morph_balanced"));
}

#[test]
fn a_cleared_profile_starts_over() {
    let metrics = |seconds: u64| RuntimeMetrics {
        uptime_seconds: seconds,
        ..RuntimeMetrics::default()
    };
    let mut monitor = ReliabilityMonitor::new();
    monitor.observe("a", ClientProtocol::Legacy, metrics(100), 1);
    monitor.observe("b", ClientProtocol::Legacy, metrics(10), 2);
    monitor.observe("a", ClientProtocol::Legacy, metrics(50), 3);
    assert_eq!(monitor.recorded("a", "legacy").observed_seconds, 150);
    assert_eq!(monitor.recorded("a", "legacy").sessions, 2);
    monitor.clear_profile("a");
    assert_eq!(monitor.recorded("a", "legacy"), ModeTotals::default());
    assert_eq!(monitor.recorded("b", "legacy").observed_seconds, 10);
    monitor.observe("a", ClientProtocol::Legacy, metrics(60), 4);
    assert_eq!(monitor.recorded("a", "legacy").observed_seconds, 10);
    assert_eq!(monitor.recorded("a", "legacy").sessions, 1);
}

#[test]
fn stored_totals_of_another_form_are_dropped() {
    let entry = || ModeEntry {
        profile: "a".to_owned(),
        mode: "legacy".to_owned(),
        totals: ModeTotals { sessions: 3, ..ModeTotals::default() },
    };
    assert_eq!(ReliabilityMonitor::load(1, vec![entry()]).recorded("a", "legacy").sessions, 3);
    assert_eq!(ReliabilityMonitor::load(2, vec![entry()]).entries().len(), 0);
    let full = ModeEntry {
        totals: ModeTotals { observed_seconds: u64::MAX, ..ModeTotals::default() },
        ..entry()
    };
    let monitor = ReliabilityMonitor::load(1, vec![full]);
    let metrics = RuntimeMetrics { uptime_seconds: 1, ..RuntimeMetrics::default() };
    assert!(!monitor.can_observe("a", ClientProtocol::Legacy, metrics));
    assert!(monitor.can_observe("a", ClientProtocol::MorphQuiet, metrics));
    assert_eq!(protocol_label(ClientProtocol::MorphQuiet), "Morph Quiet");
}
