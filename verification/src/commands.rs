//! What the programs are asked to do on the command line, and how Windows is
//! asked to start them.

use vstd::prelude::*;

use crate::ip::Ipv4Addr;
use crate::platform::RuntimeDiagnostics;
use crate::{ip, text};

verus! {

/// What the Windows program is asked to do.
#[derive(Debug)]
pub enum WindowsCommand {
    Diagnose,
    RepairNetwork,
    NetworkReport,
    Helper(String),
    Probe(String),
    Gui { minimized: bool, autoconnect: bool },
}

/// Whether the program was given exactly these options.
pub open spec fn given(arguments: Seq<String>, options: Seq<Seq<char>>) -> bool {
    arguments.len() == options.len() + 1 && forall|i: int|
        0 <= i < options.len() ==> arguments[i + 1]@ == #[trigger] options[i]
}

/// Whether the program was given these options and one argument more.
pub open spec fn given_with_path(arguments: Seq<String>, options: Seq<Seq<char>>) -> bool {
    arguments.len() == options.len() + 2 && forall|i: int|
        0 <= i < options.len() ==> arguments[i + 1]@ == #[trigger] options[i]
}

fn one_option(arguments: &Vec<String>, option: &str) -> (yes: bool)
    ensures
        yes == given(arguments@, seq![option@]),
{
    let yes = arguments.len() == 2 && text::same(arguments[1].as_str(), option);
    assert(seq![option@][0] == option@);
    yes
}

fn two_options(arguments: &Vec<String>, first: &str, second: &str) -> (yes: bool)
    ensures
        yes == given(arguments@, seq![first@, second@]),
{
    let yes = arguments.len() == 3 && text::same(arguments[1].as_str(), first) && text::same(
        arguments[2].as_str(),
        second,
    );
    proof {
        assert(seq![first@, second@][0] == first@ && seq![first@, second@][1] == second@);
    }
    yes
}

fn two_options_and_path(arguments: &Vec<String>, first: &str, second: &str) -> (yes: bool)
    ensures
        yes == given_with_path(arguments@, seq![first@, second@]),
{
    let yes = arguments.len() == 4 && text::same(arguments[1].as_str(), first) && text::same(
        arguments[2].as_str(),
        second,
    );
    proof {
        assert(seq![first@, second@][0] == first@ && seq![first@, second@][1] == second@);
    }
    yes
}

/// What the Windows program is asked to do. Without options that it knows, it
/// shows its window.
pub fn windows_command(arguments: &Vec<String>) -> (command: WindowsCommand)
    ensures
        ({
            let args = arguments@;
            if given(args, seq!["--diagnose"@]) {
                command is Diagnose
            } else if given(args, seq!["--repair-network"@]) {
                command is RepairNetwork
            } else if given(args, seq!["--network-report"@]) {
                command is NetworkReport
            } else if given_with_path(args, seq!["--helper"@, "--config"@]) {
                command matches WindowsCommand::Helper(path) && path@ == args[3]@
            } else if given_with_path(args, seq!["--probe"@, "--config"@]) {
                command matches WindowsCommand::Probe(path) && path@ == args[3]@
            } else {
                command matches WindowsCommand::Gui { minimized, autoconnect } && autoconnect
                    == given(args, seq!["--minimized"@, "--autoconnect"@]) && minimized == (
                autoconnect || given(args, seq!["--minimized"@]))
            }
        }),
{
    if one_option(arguments, "--diagnose") {
        WindowsCommand::Diagnose
    } else if one_option(arguments, "--repair-network") {
        WindowsCommand::RepairNetwork
    } else if one_option(arguments, "--network-report") {
        WindowsCommand::NetworkReport
    } else if two_options_and_path(arguments, "--helper", "--config") {
        WindowsCommand::Helper(arguments[3].clone())
    } else if two_options_and_path(arguments, "--probe", "--config") {
        WindowsCommand::Probe(arguments[3].clone())
    } else {
        let autoconnect = two_options(arguments, "--minimized", "--autoconnect");
        let minimized = autoconnect || one_option(arguments, "--minimized");
        WindowsCommand::Gui { minimized, autoconnect }
    }
}

/// The configuration that the Linux program is to run the helper with; it
/// shows its window where there is none.
pub fn linux_helper_config(arguments: &Vec<String>) -> (path: Option<String>)
    ensures
        path is Some <==> given_with_path(arguments@, seq!["--helper"@, "--config"@]),
        path matches Some(p) ==> p@ == arguments@[3]@,
{
    if two_options_and_path(arguments, "--helper", "--config") {
        Some(arguments[3].clone())
    } else {
        None
    }
}

/// What the Linux helper is asked to do.
#[derive(Debug)]
pub enum HelperCommand {
    Run(String),
    Watch { parent: String, started: String, server: String },
    /// The options are not understood.
    Usage,
}

/// Whether the helper was asked to watch over another.
pub open spec fn asks_to_watch(arguments: Seq<String>) -> bool {
    &&& arguments.len() == 8
    &&& arguments[1]@ == "--network-watchdog"@
    &&& arguments[2]@ == "--parent"@
    &&& arguments[4]@ == "--started"@
    &&& arguments[6]@ == "--server"@
}

/// What the Linux helper is asked to do.
pub fn helper_command(arguments: &Vec<String>) -> (command: HelperCommand)
    ensures
        ({
            let args = arguments@;
            if args.len() == 3 && args[1]@ == "--config"@ {
                command matches HelperCommand::Run(path) && path@ == args[2]@
            } else if asks_to_watch(args) {
                command matches HelperCommand::Watch { parent, started, server } && parent@
                    == args[3]@ && started@ == args[5]@ && server@ == args[7]@
            } else {
                command is Usage
            }
        }),
{
    if arguments.len() == 3 && text::same(arguments[1].as_str(), "--config") {
        HelperCommand::Run(arguments[2].clone())
    } else if arguments.len() == 8 && text::same(arguments[1].as_str(), "--network-watchdog")
        && text::same(arguments[2].as_str(), "--parent") && text::same(
        arguments[4].as_str(),
        "--started",
    ) && text::same(arguments[6].as_str(), "--server") {
        HelperCommand::Watch {
            parent: arguments[3].clone(),
            started: arguments[5].clone(),
            server: arguments[7].clone(),
        }
    } else {
        HelperCommand::Usage
    }
}

/// What a watchdog watches and what it repairs.
#[derive(Clone, Copy, Debug, PartialEq, Eq, Structural)]
pub struct Watchdog {
    pub parent: u32,
    /// When the parent was started, which tells it from a later process with
    /// its number.
    pub started: u64,
    pub server: Ipv4Addr,
}

/// The options that start a watchdog.
pub open spec fn watchdog_options(watchdog: Watchdog) -> Seq<Seq<char>> {
    seq![
        "--network-watchdog"@,
        "--parent"@,
        text::decimal(watchdog.parent as nat),
        "--started"@,
        text::decimal(watchdog.started as nat),
        "--server"@,
        ip::ipv4_text(watchdog.server),
    ]
}

/// The options that start a watchdog.
pub fn watchdog_arguments(watchdog: &Watchdog) -> (arguments: Vec<String>)
    ensures
        text::texts(arguments@) == watchdog_options(*watchdog),
{
    let mut arguments: Vec<String> = Vec::new();
    arguments.push(text::owned("--network-watchdog"));
    arguments.push(text::owned("--parent"));
    arguments.push(text::decimal_text(watchdog.parent as u128));
    arguments.push(text::owned("--started"));
    arguments.push(text::decimal_text(watchdog.started as u128));
    arguments.push(text::owned("--server"));
    arguments.push(watchdog.server.text());
    assert(text::texts(arguments@) =~= watchdog_options(*watchdog));
    arguments
}

/// The watchdog that the options describe, or what is wrong with them.
pub open spec fn watchdog_of(
    parent: Seq<char>,
    started: Seq<char>,
    server: Seq<char>,
) -> Result<Watchdog, Seq<char>> {
    match text::unsigned_value(parent, u32::MAX as nat) {
        None => Err("Неверный PID watchdog"@),
        Some(parent) => match text::unsigned_value(started, u64::MAX as nat) {
            None => Err("Неверное время старта watchdog"@),
            Some(started) => match ip::ipv4_parsed(server) {
                None => Err("Неверный адрес сервера watchdog"@),
                Some(server) => Ok(
                    Watchdog { parent: parent as u32, started: started as u64, server },
                ),
            },
        },
    }
}

/// Reads the options of a watchdog.
///
/// # Errors
///
/// Returns an error that names the option which cannot be read.
pub fn parse_watchdog(parent: &str, started: &str, server: &str) -> (result: Result<
    Watchdog,
    String,
>)
    ensures
        match watchdog_of(parent@, started@, server@) {
            Ok(watchdog) => result matches Ok(w) && w == watchdog,
            Err(message) => result matches Err(m) && m@ == message,
        },
{
    let parent = match text::parse_unsigned(parent, u32::MAX as u64) {
        Some(parent) => parent as u32,
        None => {
            return Err(text::owned("Неверный PID watchdog"));
        },
    };
    let started = match text::parse_unsigned(started, u64::MAX) {
        Some(started) => started,
        None => {
            return Err(text::owned("Неверное время старта watchdog"));
        },
    };
    match Ipv4Addr::parse(server) {
        Some(server) => Ok(Watchdog { parent, started, server }),
        None => Err(text::owned("Неверный адрес сервера watchdog")),
    }
}

proof fn lemma_decimal_read(n: nat, limit: nat)
    requires
        n <= limit,
    ensures
        text::unsigned_value(text::decimal(n), limit) == Some(n),
{
    text::lemma_decimal_digits(n);
    let digits = text::decimal(n);
    assert(text::is_digit(digits[0]));
}

/// A watchdog reads the options it is started with as what it was to watch.
pub proof fn watchdog_options_round_trip(watchdog: Watchdog)
    ensures
        ({
            let options = watchdog_options(watchdog);
            watchdog_of(options[2], options[4], options[6]) == Ok::<Watchdog, Seq<char>>(watchdog)
        }),
{
    lemma_decimal_read(watchdog.parent as nat, u32::MAX as nat);
    lemma_decimal_read(watchdog.started as nat, u64::MAX as nat);
    let text = ip::ipv4_text(watchdog.server);
    ip::ipv4_text_is_injective(
        watchdog.server,
        choose|a: Ipv4Addr| ip::ipv4_text(a) == text,
    );
}

/// The lines of the diagnosis.
pub fn diagnosis_lines(report: &RuntimeDiagnostics) -> (lines: Vec<String>)
    ensures
        text::texts(lines@) == seq![
            "platform="@ + report.platform@,
            "running_under_wine="@ + truth(report.running_under_wine),
            "wintun_available="@ + truth(report.wintun_available),
            "elevated="@ + truth(report.elevated),
            "message="@ + report.message@,
        ],
{
    let mut lines: Vec<String> = Vec::new();
    lines.push(entry("platform=", report.platform));
    lines.push(entry("running_under_wine=", truth_text(report.running_under_wine)));
    lines.push(entry("wintun_available=", truth_text(report.wintun_available)));
    lines.push(entry("elevated=", truth_text(report.elevated)));
    lines.push(entry("message=", report.message.as_str()));
    assert(text::texts(lines@) =~= seq![
        "platform="@ + report.platform@,
        "running_under_wine="@ + truth(report.running_under_wine),
        "wintun_available="@ + truth(report.wintun_available),
        "elevated="@ + truth(report.elevated),
        "message="@ + report.message@,
    ]);
    lines
}

pub open spec fn truth(value: bool) -> Seq<char> {
    if value {
        "true"@
    } else {
        "false"@
    }
}

fn truth_text(value: bool) -> (text: &'static str)
    ensures
        text@ == truth(value),
{
    if value {
        "true"
    } else {
        "false"
    }
}

fn entry(label: &str, value: &str) -> (line: String)
    ensures
        line@ == label@ + value@,
{
    let mut line = text::owned(label);
    line.append(value);
    line
}

// Starting with Windows

/// The command that Windows runs when the user logs on.
pub fn autostart_command(executable: &str) -> (command: String)
    ensures
        command@ == "\""@ + executable@ + "\" --minimized --autoconnect"@,
{
    let mut command = text::owned("\"");
    command.append(executable);
    command.append("\" --minimized --autoconnect");
    command
}

/// Whether a second start brings the window of the first to the front. One that
/// Windows makes at logon does not.
pub fn should_reveal_existing_instance(arguments: &[String]) -> (reveal: bool)
    ensures
        reveal == !text::texts(arguments@).contains("--minimized"@),
{
    let mut i: usize = 0;
    while i < arguments.len()
        invariant
            i <= arguments.len(),
            forall|j: int| 0 <= j < i ==> text::texts(arguments@)[j] != "--minimized"@,
        decreases arguments.len() - i,
    {
        assert(text::texts(arguments@)[i as int] == arguments@[i as int]@);
        if text::same(arguments[i].as_str(), "--minimized") {
            return false;
        }
        i = i + 1;
    }
    true
}

/// The options with which the task scheduler makes the client start at logon.
pub open spec fn autostart_options(executable: Seq<char>) -> Seq<Seq<char>> {
    seq![
        "/Create"@,
        "/TN"@,
        "MouseVPN"@,
        "/SC"@,
        "ONLOGON"@,
        "/RL"@,
        "HIGHEST"@,
        "/DELAY"@,
        "0000:10"@,
        "/TR"@,
        "\""@ + executable + "\" --minimized --autoconnect"@,
        "/F"@,
    ]
}

/// The options with which the task scheduler makes the client start at logon.
pub fn enable_autostart_arguments(executable: &str) -> (arguments: Vec<String>)
    ensures
        text::texts(arguments@) == autostart_options(executable@),
{
    let mut arguments: Vec<String> = Vec::new();
    arguments.push(text::owned("/Create"));
    arguments.push(text::owned("/TN"));
    arguments.push(text::owned("MouseVPN"));
    arguments.push(text::owned("/SC"));
    arguments.push(text::owned("ONLOGON"));
    arguments.push(text::owned("/RL"));
    arguments.push(text::owned("HIGHEST"));
    arguments.push(text::owned("/DELAY"));
    arguments.push(text::owned("0000:10"));
    arguments.push(text::owned("/TR"));
    arguments.push(autostart_command(executable));
    arguments.push(text::owned("/F"));
    assert(text::texts(arguments@) =~= autostart_options(executable@));
    arguments
}

/// The options with which the task scheduler forgets the client.
pub fn disable_autostart_arguments() -> (arguments: Vec<String>)
    ensures
        text::texts(arguments@) == seq!["/Delete"@, "/TN"@, "MouseVPN"@, "/F"@],
{
    let mut arguments: Vec<String> = Vec::new();
    arguments.push(text::owned("/Delete"));
    arguments.push(text::owned("/TN"));
    arguments.push(text::owned("MouseVPN"));
    arguments.push(text::owned("/F"));
    assert(text::texts(arguments@) =~= seq!["/Delete"@, "/TN"@, "MouseVPN"@, "/F"@]);
    arguments
}

/// The outcome of a call of the task scheduler, which was to leave the
/// autostart as `enabled` says.
pub fn autostart_result(enabled: bool, success: bool, stderr: &str, status: &str) -> (result:
    Result<bool, String>)
    ensures
        if success {
            result matches Ok(e) && e == enabled
        } else {
            result matches Err(message) && message@ == (if text::trim(stderr@).len() == 0 {
                "Task Scheduler завершился с кодом "@ + status@
            } else {
                text::trim(stderr@)
            })
        },
{
    if success {
        return Ok(enabled);
    }
    let details = text::trimmed(stderr);
    if details.unicode_len() == 0 {
        Err(entry("Task Scheduler завершился с кодом ", status))
    } else {
        Err(details)
    }
}

/// The program does what its only option says, and shows its window where there
/// is none.
pub proof fn single_options_are_understood(arguments: &Vec<String>, command: WindowsCommand)
    requires
        call_ensures(windows_command, (arguments,), command),
    ensures
        arguments@.len() == 1 ==> command == (WindowsCommand::Gui {
            minimized: false,
            autoconnect: false,
        }),
        arguments@.len() == 2 && arguments@[1]@ == "--diagnose"@ ==> command is Diagnose,
        arguments@.len() == 2 && arguments@[1]@ == "--repair-network"@ ==> command
            is RepairNetwork,
        arguments@.len() == 2 && arguments@[1]@ == "--network-report"@ ==> command
            is NetworkReport,
        arguments@.len() == 2 && arguments@[1]@ == "--minimized"@ ==> command
            == (WindowsCommand::Gui { minimized: true, autoconnect: false }),
{
    reveal_strlit("--diagnose");
    reveal_strlit("--repair-network");
    reveal_strlit("--network-report");
    reveal_strlit("--minimized");
    assert("--diagnose"@.len() == 10);
    assert("--minimized"@.len() == 11);
    assert("--repair-network"@.len() == 16);
    assert("--network-report"@.len() == 16);
    assert("--repair-network"@[2] == 'r');
    assert("--network-report"@[2] == 'n');
    let args = arguments@;
    let one = seq!["--diagnose"@];
    let two = seq!["--repair-network"@];
    let three = seq!["--network-report"@];
    let four = seq!["--minimized"@];
    if args.len() == 2 {
        assert(given(args, one) <==> args[1]@ == one[0]);
        assert(given(args, two) <==> args[1]@ == two[0]);
        assert(given(args, three) <==> args[1]@ == three[0]);
        assert(given(args, four) <==> args[1]@ == four[0]);
    }
}

/// The helper and the probe take the path that stands behind `--config`, and a
/// start at logon is minimized and connects.
pub proof fn longer_options_are_understood(arguments: &Vec<String>, command: WindowsCommand)
    requires
        call_ensures(windows_command, (arguments,), command),
    ensures
        arguments@.len() == 4 && arguments@[1]@ == "--helper"@ && arguments@[2]@ == "--config"@
            ==> (command matches WindowsCommand::Helper(path) && path@ == arguments@[3]@),
        arguments@.len() == 4 && arguments@[1]@ == "--probe"@ && arguments@[2]@ == "--config"@
            ==> (command matches WindowsCommand::Probe(path) && path@ == arguments@[3]@),
        arguments@.len() == 3 && arguments@[1]@ == "--minimized"@ && arguments@[2]@
            == "--autoconnect"@ ==> command == (WindowsCommand::Gui {
            minimized: true,
            autoconnect: true,
        }),
{
    reveal_strlit("--helper");
    reveal_strlit("--probe");
    assert("--helper"@.len() == 8);
    assert("--probe"@.len() == 7);
    let args = arguments@;
    let helper = seq!["--helper"@, "--config"@];
    let probe = seq!["--probe"@, "--config"@];
    let logon = seq!["--minimized"@, "--autoconnect"@];
    if args.len() == 4 {
        if args[1]@ == "--helper"@ && args[2]@ == "--config"@ {
            assert(given_with_path(args, helper)) by {
                assert forall|i: int| 0 <= i < helper.len() implies args[i + 1]@
                    == #[trigger] helper[i] by {}
            }
        }
        if args[1]@ == "--probe"@ && args[2]@ == "--config"@ {
            assert(!given_with_path(args, helper)) by {
                assert(helper[0] == "--helper"@);
            }
            assert(given_with_path(args, probe)) by {
                assert forall|i: int| 0 <= i < probe.len() implies args[i + 1]@
                    == #[trigger] probe[i] by {}
            }
        }
    }
    if args.len() == 3 && args[1]@ == "--minimized"@ && args[2]@ == "--autoconnect"@ {
        assert(given(args, logon)) by {
            assert forall|i: int| 0 <= i < logon.len() implies args[i + 1]@ == #[trigger] logon[i]
                by {}
        }
    }
}

/// The helper understands the options that it starts a watchdog with, and
/// hands on the parent, the time and the server that they name.
pub proof fn watchdogs_are_started_with_what_is_understood(
    arguments: &Vec<String>,
    watchdog: Watchdog,
    command: HelperCommand,
)
    requires
        arguments@.len() == 8,
        forall|i: int|
            0 <= i < 7 ==> #[trigger] watchdog_options(watchdog)[i] == arguments@[i + 1]@,
        call_ensures(helper_command, (arguments,), command),
    ensures
        command matches HelperCommand::Watch { parent, started, server } && watchdog_of(
            parent@,
            started@,
            server@,
        ) == Ok::<Watchdog, Seq<char>>(watchdog),
{
    watchdog_options_round_trip(watchdog);
    let options = watchdog_options(watchdog);
    assert(options[0] == arguments@[1]@);
    assert(options[1] == arguments@[2]@);
    assert(options[2] == arguments@[3]@);
    assert(options[3] == arguments@[4]@);
    assert(options[4] == arguments@[5]@);
    assert(options[5] == arguments@[6]@);
    assert(options[6] == arguments@[7]@);
}

/// The task starts the client at logon, ten seconds late and with the highest
/// rights, minimized and connecting, and replaces a task of the same name.
pub proof fn the_task_starts_the_client_at_logon(executable: Seq<char>)
    ensures
        ({
            let options = autostart_options(executable);
            &&& options.len() == 12
            &&& options[0] == "/Create"@
            &&& options[1] == "/TN"@ && options[2] == "MouseVPN"@
            &&& options[3] == "/SC"@ && options[4] == "ONLOGON"@
            &&& options[5] == "/RL"@ && options[6] == "HIGHEST"@
            &&& options[7] == "/DELAY"@ && options[8] == "0000:10"@
            &&& options[9] == "/TR"@ && options[10] == "\""@ + executable
                + "\" --minimized --autoconnect"@
            &&& options[11] == "/F"@
        }),
        truth(true) == "true"@,
        truth(false) == "false"@,
{
}

} // verus!
