//! A per-application tunnel that needs no adapter and no routes.
//!
//! Traffic reaches the tunnel because the driver lifts it out of the stack,
//! not because a route sent it somewhere. That is what keeps excluded
//! applications working exactly as they did before.

use vstd::prelude::*;

use crate::divert::Translation;
use crate::error::IoErrorKind;
use crate::ip::{IpAddr, Ipv4Addr};
use crate::packet_loop::EncodeFailure;
use crate::session::SessionParameters;
use crate::{counter, packet_loop, text, AppRoutingMode, ClientError};

verus! {

/// The steps that bring a split tunnel up, in order.
#[derive(Clone, Copy, Debug, PartialEq, Eq, Structural)]
pub enum SplitStep {
    EnsureRuntime,
    AcquireLock,
    PrepareWire,
    Connect,
    ConfigureTransport,
    PhysicalAddress,
    DefaultRoute,
    LoadLibrary,
    StartWatcher,
    OpenDiverter,
    Announce,
    StartSender,
    Receive,
}

/// The place of a step in the order of startup.
pub open spec fn split_rank(step: SplitStep) -> int {
    match step {
        SplitStep::EnsureRuntime => 0,
        SplitStep::AcquireLock => 1,
        SplitStep::PrepareWire => 2,
        SplitStep::Connect => 3,
        SplitStep::ConfigureTransport => 4,
        SplitStep::PhysicalAddress => 5,
        SplitStep::DefaultRoute => 6,
        SplitStep::LoadLibrary => 7,
        SplitStep::StartWatcher => 8,
        SplitStep::OpenDiverter => 9,
        SplitStep::Announce => 10,
        SplitStep::StartSender => 11,
        SplitStep::Receive => 12,
    }
}

/// The step that follows `step`.
pub fn next_split_step(step: SplitStep) -> (next: Option<SplitStep>)
    ensures
        match next {
            Some(n) => split_rank(n) == split_rank(step) + 1,
            None => split_rank(step) == 12,
        },
{
    match step {
        SplitStep::EnsureRuntime => Some(SplitStep::AcquireLock),
        SplitStep::AcquireLock => Some(SplitStep::PrepareWire),
        SplitStep::PrepareWire => Some(SplitStep::Connect),
        SplitStep::Connect => Some(SplitStep::ConfigureTransport),
        SplitStep::ConfigureTransport => Some(SplitStep::PhysicalAddress),
        SplitStep::PhysicalAddress => Some(SplitStep::DefaultRoute),
        SplitStep::DefaultRoute => Some(SplitStep::LoadLibrary),
        SplitStep::LoadLibrary => Some(SplitStep::StartWatcher),
        SplitStep::StartWatcher => Some(SplitStep::OpenDiverter),
        SplitStep::OpenDiverter => Some(SplitStep::Announce),
        SplitStep::Announce => Some(SplitStep::StartSender),
        SplitStep::StartSender => Some(SplitStep::Receive),
        SplitStep::Receive => None,
    }
}

/// The watcher runs before the diverter captures anything: packets of a flow
/// it has not classified yet pass through untranslated.
pub proof fn the_watcher_precedes_the_diverter()
    ensures
        split_rank(SplitStep::StartWatcher) < split_rank(SplitStep::OpenDiverter),
        split_rank(SplitStep::OpenDiverter) < split_rank(SplitStep::StartSender),
{
}

/// The lines that announce a running split tunnel.
pub fn announcement() -> (lines: Vec<String>)
    ensures
        text::texts(lines@) == seq!["MOUSEVPN_STATE=connected"@, "MOUSEVPN_MODE=split_tunnel"@],
{
    let lines = vec![
        text::owned("MOUSEVPN_STATE=connected"),
        text::owned("MOUSEVPN_MODE=split_tunnel"),
    ];
    assert(text::texts(lines@) =~= seq![
        "MOUSEVPN_STATE=connected"@,
        "MOUSEVPN_MODE=split_tunnel"@,
    ]);
    lines
}

/// How a session translates. Both addresses are fixed for its life, which is
/// what makes the translation stateless.
pub fn session_translation(physical: Ipv4Addr, parameters: SessionParameters) -> (translation:
    Translation)
    ensures
        translation == (Translation {
            physical: IpAddr::V4(physical),
            tunnel: IpAddr::V4(parameters.client_address),
            resolver: IpAddr::V4(parameters.dns),
            max_segment_size: if parameters.mtu >= 40 {
                (parameters.mtu - 40) as u16
            } else {
                0
            },
        }),
{
    Translation::new(
        IpAddr::V4(physical),
        IpAddr::V4(parameters.client_address),
        IpAddr::V4(parameters.dns),
        parameters.mtu,
    )
}

/// What the sending side does about a packet that could not be encrypted.
#[derive(Debug)]
pub enum SendFailure {
    /// Let the packet go and print the warning, where one is due. Dropping one
    /// packet is recoverable; stopping is not.
    Skip(Option<String>),
    /// Print the failure.
    Report,
}

/// The warning for `n` oversized packets.
pub open spec fn oversized_warning(n: u64) -> Seq<char> {
    "MOUSEVPN_SPLIT_WARNING=dropped "@ + text::decimal(n as nat)
        + " packet(s) larger than the tunnel MTU"@
}

/// Decides what to do about a packet that could not be encrypted.
///
/// Clamping the segment size keeps TCP within the tunnel, so anything still
/// arriving oversized is a datagram protocol probing upwards. Counting it is
/// what turns a silent black hole into evidence.
pub fn after_encode_failure(oversized: &mut u64, failure: EncodeFailure) -> (outcome: SendFailure)
    ensures
        match failure {
            EncodeFailure::Other => outcome is Report && *final(oversized) == *old(oversized),
            _ => {
                &&& *final(oversized) == counter::capped(*old(oversized) + 1)
                &&& outcome matches SendFailure::Skip(warning)
                &&& match warning {
                    Some(line) => counter::is_power_of_two(*final(oversized) as nat) && line@
                        == oversized_warning(*final(oversized)),
                    None => !counter::is_power_of_two(*final(oversized) as nat),
                }
            },
        },
{
    match failure {
        EncodeFailure::Other => SendFailure::Report,
        EncodeFailure::ExceedsMtu | EncodeFailure::InvalidIp => {
            *oversized = counter::sum(*oversized, 1);
            if !counter::power_of_two(*oversized) {
                return SendFailure::Skip(None);
            }
            let mut line = text::owned("MOUSEVPN_SPLIT_WARNING=dropped ");
            text::push_decimal(&mut line, *oversized as u128);
            line.append(" packet(s) larger than the tunnel MTU");
            SendFailure::Skip(Some(line))
        },
    }
}

/// Whether a failed receive is tried again.
pub fn receive_again(kind: IoErrorKind) -> (again: bool)
    ensures
        again == packet_loop::transient_kind(kind),
{
    packet_loop::is_transient_io(kind)
}

/// How the sending side ended.
#[derive(Debug)]
pub enum SenderEnd {
    Returned(Result<(), ClientError>),
    Panicked,
}

/// What the session came to, given how its two sides ended, and the line to
/// print. A failure of the sending side is reported over that of the other.
pub fn session_result(sender: SenderEnd, receiver: Result<(), ClientError>) -> (outcome: (
    Result<(), ClientError>,
    Option<&'static str>,
))
    ensures
        match sender {
            SenderEnd::Returned(Err(e)) => outcome.0 == Err::<(), ClientError>(e) && outcome.1
                is None,
            SenderEnd::Returned(Ok(_)) => outcome.0 == receiver && outcome.1 is None,
            SenderEnd::Panicked => outcome.0 == receiver && outcome.1 is Some && (outcome.1->0)@
                == "MOUSEVPN_SPLIT_WARNING=the split tunnel sender panicked"@,
        },
{
    match sender {
        SenderEnd::Returned(Err(e)) => (Err(e), None),
        SenderEnd::Returned(Ok(_)) => (receiver, None),
        SenderEnd::Panicked => (
            receiver,
            Some("MOUSEVPN_SPLIT_WARNING=the split tunnel sender panicked"),
        ),
    }
}

// The command line of the probes

/// How long the flow probe watches, given its argument.
pub fn probe_seconds(argument: Option<&str>) -> (seconds: u64)
    ensures
        seconds == (match argument {
            Some(a) => match text::unsigned_value(a@, u64::MAX as nat) {
                Some(n) => n as u64,
                None => 30,
            },
            None => 30,
        }),
{
    match argument {
        Some(value) => match text::parse_unsigned(value, u64::MAX) {
            Some(n) => n,
            None => 30,
        },
        None => 30,
    }
}

/// What the session probe was asked to do.
#[derive(Debug)]
pub struct ProbeArguments {
    pub config: String,
    pub mode: AppRoutingMode,
    pub apps: Vec<String>,
}

/// The arguments read so far.
pub struct ArgumentModel {
    pub config: Option<Seq<char>>,
    pub mode: Option<AppRoutingMode>,
    /// Whether both `--include` and `--exclude` were given.
    pub mixed: bool,
    pub apps: Seq<Seq<char>>,
}

/// `read` with one more application under `mode`.
pub open spec fn with_app(
    read: ArgumentModel,
    mode: AppRoutingMode,
    app: Seq<char>,
) -> ArgumentModel {
    ArgumentModel {
        mode: Some(mode),
        mixed: read.mixed || (read.mode is Some && read.mode != Some(mode)),
        apps: read.apps.push(app),
        ..read
    }
}

/// What the pairs of arguments up to `n` say; an argument that is none of the
/// options is returned as the error.
pub open spec fn arguments_read(values: Seq<Seq<char>>, n: int) -> Result<ArgumentModel, Seq<char>>
    decreases n,
{
    if n <= 1 {
        Ok(
            ArgumentModel {
                config: None,
                mode: None,
                mixed: false,
                apps: Seq::<Seq<char>>::empty(),
            },
        )
    } else {
        match arguments_read(values, n - 2) {
            Err(other) => Err(other),
            Ok(read) => {
                let option = values[n - 2];
                let value = values[n - 1];
                if option == "--config"@ {
                    Ok(ArgumentModel { config: Some(value), ..read })
                } else if option == "--include"@ {
                    Ok(with_app(read, AppRoutingMode::Include, value))
                } else if option == "--exclude"@ {
                    Ok(with_app(read, AppRoutingMode::Exclude, value))
                } else {
                    Err(option)
                }
            },
        }
    }
}

/// The number of values that stand in pairs.
pub open spec fn paired(n: int) -> int {
    n - n % 2
}

/// How the session probe is used.
pub open spec fn usage_text() -> Seq<char> {
    "usage: split_probe --config <profile.toml> (--include | --exclude) <app.exe> ..."@
}

/// Reads `--config` plus exactly one of `--include` or `--exclude`, which may be
/// repeated. Where `--config` is repeated, its last value decides.
pub fn probe_arguments(values: &Vec<String>) -> (arguments: Result<ProbeArguments, String>)
    ensures
        match arguments_read(text::texts(values@), paired(values@.len() as int)) {
            Err(other) => arguments matches Err(e) && e@ == "unexpected argument "@ + other,
            Ok(read) => if read.config is Some && read.mode is Some && !read.mixed {
                &&& arguments matches Ok(a)
                &&& a.config@ == read.config->0
                &&& a.mode == read.mode->0
                &&& text::texts(a.apps@) == read.apps
            } else {
                arguments matches Err(e) && e@ == usage_text()
            },
        },
{
    let ghost all = text::texts(values@);
    let mut config: Option<String> = None;
    let mut mode: Option<AppRoutingMode> = None;
    let mut mixed: bool = false;
    let mut apps: Vec<String> = Vec::new();
    let mut index: usize = 0;
    assert(text::texts(apps@) =~= Seq::<Seq<char>>::empty());
    while index < values.len() && values.len() - index >= 2
        invariant
            index <= values@.len(),
            index % 2 == 0,
            all == text::texts(values@),
            ({
                let read = arguments_read(all, index as int);
                &&& read is Ok
                &&& match config {
                    Some(c) => read->Ok_0.config == Some(c@),
                    None => read->Ok_0.config is None,
                }
                &&& read->Ok_0.mode == mode
                &&& read->Ok_0.mixed == mixed
                &&& read->Ok_0.apps == text::texts(apps@)
            }),
        decreases values@.len() - index,
    {
        let option = values[index].as_str();
        let value = values[index + 1].as_str();
        let ghost before = text::texts(apps@);
        assert(all[index as int] == values@[index as int]@);
        assert(all[index + 1] == values@[index + 1]@);
        if text::same(option, "--config") {
            config = Some(text::owned(value));
        } else if text::same(option, "--include") {
            mixed = mixed || matches!(mode, Some(AppRoutingMode::Exclude));
            mode = Some(AppRoutingMode::Include);
            apps.push(text::owned(value));
            assert(text::texts(apps@) =~= before.push(value@));
        } else if text::same(option, "--exclude") {
            mixed = mixed || matches!(mode, Some(AppRoutingMode::Include));
            mode = Some(AppRoutingMode::Exclude);
            apps.push(text::owned(value));
            assert(text::texts(apps@) =~= before.push(value@));
        } else {
            proof {
                assert(arguments_read(all, index + 2) == Err::<ArgumentModel, Seq<char>>(option@));
                lemma_arguments_error(all, index + 2, paired(all.len() as int));
            }
            return Err(String::from_str("unexpected argument ").concat(option));
        }
        index = index + 2;
    }
    assert(index == paired(values@.len() as int));
    match (config, mode) {
        (Some(config), Some(mode)) if !mixed => Ok(ProbeArguments { config, mode, apps }),
        _ => Err(
            text::owned(
                "usage: split_probe --config <profile.toml> (--include | --exclude) <app.exe> ...",
            ),
        ),
    }
}

proof fn lemma_arguments_error(values: Seq<Seq<char>>, m: int, n: int)
    requires
        0 < m <= n,
        m % 2 == 0,
        n % 2 == 0,
        arguments_read(values, m) is Err,
    ensures
        arguments_read(values, n) == arguments_read(values, m),
    decreases n,
{
    if m < n {
        lemma_arguments_error(values, m, n - 2);
    }
}

/// Refuses a list in which a path names no existing file.
pub fn check_probe_apps(existing: &Vec<bool>) -> (result: Result<(), String>)
    ensures
        result is Ok <==> forall|i: int| 0 <= i < existing@.len() ==> #[trigger] existing@[i],
        result matches Err(e) ==> e@ == "every application path must name an existing file"@,
{
    let mut i: usize = 0;
    while i < existing.len()
        invariant
            i <= existing@.len(),
            forall|j: int| 0 <= j < i ==> #[trigger] existing@[j],
        decreases existing@.len() - i,
    {
        if !existing[i] {
            return Err(text::owned("every application path must name an existing file"));
        }
        i = i + 1;
    }
    Ok(())
}

/// The driver is loaded only once the session stands, the sender starts only
/// once everything is announced, and packets are received last.
pub proof fn the_session_precedes_the_driver(step: SplitStep)
    ensures
        split_rank(SplitStep::EnsureRuntime) == 0,
        split_rank(SplitStep::EnsureRuntime) < split_rank(SplitStep::AcquireLock),
        split_rank(SplitStep::AcquireLock) < split_rank(SplitStep::PrepareWire),
        split_rank(SplitStep::PrepareWire) < split_rank(SplitStep::Connect),
        split_rank(SplitStep::Connect) < split_rank(SplitStep::ConfigureTransport),
        split_rank(SplitStep::ConfigureTransport) < split_rank(SplitStep::PhysicalAddress),
        split_rank(SplitStep::PhysicalAddress) < split_rank(SplitStep::DefaultRoute),
        split_rank(SplitStep::DefaultRoute) < split_rank(SplitStep::LoadLibrary),
        split_rank(SplitStep::LoadLibrary) < split_rank(SplitStep::StartWatcher),
        split_rank(SplitStep::OpenDiverter) < split_rank(SplitStep::Announce),
        split_rank(SplitStep::Announce) < split_rank(SplitStep::StartSender),
        split_rank(SplitStep::StartSender) < split_rank(SplitStep::Receive),
        split_rank(step) <= 12,
{
}

/// Segments leave room for an IPv4 and a TCP header of twenty bytes each, and
/// the addresses are those that the machine and the server assigned.
pub proof fn segments_leave_room_for_the_headers(
    physical: Ipv4Addr,
    parameters: SessionParameters,
    translation: Translation,
)
    requires
        call_ensures(session_translation, (physical, parameters), translation),
    ensures
        parameters.mtu >= 40 ==> translation.max_segment_size + 20 + 20 == parameters.mtu,
        parameters.mtu < 40 ==> translation.max_segment_size == 0,
        translation.physical == IpAddr::V4(physical),
        translation.tunnel == IpAddr::V4(parameters.client_address),
        translation.resolver == IpAddr::V4(parameters.dns),
{
}

/// One more option and its value change only what they say: a configuration
/// replaces the one before, an application is added under its mode, and
/// anything else is refused whatever follows it.
pub proof fn options_say_one_thing_each(
    values: Seq<Seq<char>>,
    option: Seq<char>,
    value: Seq<char>,
)
    requires
        values.len() % 2 == 0,
        arguments_read(values, values.len() as int) is Ok,
    ensures
        ({
            let longer = values.push(option).push(value);
            let before = arguments_read(values, values.len() as int)->Ok_0;
            let after = arguments_read(longer, longer.len() as int);
            &&& option == "--config"@ ==> (after matches Ok(a) && a.config == Some(value) && a.mode
                == before.mode && a.apps == before.apps && a.mixed == before.mixed)
            &&& option == "--include"@ ==> (after matches Ok(a) && a.config == before.config
                && a.mode == Some(AppRoutingMode::Include) && a.apps == before.apps.push(value)
                && (a.mixed <==> before.mixed || before.mode == Some(AppRoutingMode::Exclude)))
            &&& option == "--exclude"@ ==> (after matches Ok(a) && a.config == before.config
                && a.mode == Some(AppRoutingMode::Exclude) && a.apps == before.apps.push(value)
                && (a.mixed <==> before.mixed || before.mode == Some(AppRoutingMode::Include)))
            &&& option != "--config"@ && option != "--include"@ && option != "--exclude"@
                ==> after == Err::<ArgumentModel, Seq<char>>(option)
        }),
{
    let longer = values.push(option).push(value);
    lemma_same_arguments(values, longer, values.len() as int);
    let n = longer.len() as int;
    assert(n - 2 == values.len());
    assert(longer[n - 2] == option);
    assert(longer[n - 1] == value);
    assert(arguments_read(longer, n - 2) == arguments_read(values, values.len() as int));
    reveal_strlit("--config");
    reveal_strlit("--include");
    reveal_strlit("--exclude");
    assert("--config"@.len() == 8);
    assert("--include"@[2] == 'i');
    assert("--exclude"@[2] == 'e');
    assert("--include"@.len() == 9);
    assert("--exclude"@.len() == 9);
    match arguments_read(values, values.len() as int)->Ok_0.mode {
        Some(AppRoutingMode::Include) => {},
        Some(AppRoutingMode::Exclude) => {},
        None => {},
    }
}

proof fn lemma_same_arguments(a: Seq<Seq<char>>, b: Seq<Seq<char>>, n: int)
    requires
        n <= a.len(),
        n <= b.len(),
        forall|i: int| 0 <= i < n ==> #[trigger] a[i] == b[i],
    ensures
        arguments_read(a, n) == arguments_read(b, n),
    decreases n,
{
    if n > 1 {
        lemma_same_arguments(a, b, n - 2);
        assert(a[n - 2] == b[n - 2]);
        assert(a[n - 1] == b[n - 1]);
    }
}

/// A value without its partner is left out.
pub proof fn arguments_come_in_pairs(n: int)
    requires
        n >= 0,
    ensures
        paired(2 * n) == 2 * n,
        paired(2 * n + 1) == 2 * n,
{
}

/// The probe watches for half a minute unless it is told how long.
pub proof fn the_probe_watches_for_half_a_minute(
    argument: &str,
    default_seconds: u64,
    seconds: u64,
    n: u64,
)
    requires
        call_ensures(probe_seconds, (None::<&str>,), default_seconds),
        call_ensures(probe_seconds, (Some(argument),), seconds),
        argument@ == text::decimal(n as nat),
    ensures
        default_seconds == 30,
        seconds == n,
{
    text::numbers_read_back(n as nat, u64::MAX as nat, argument@, 0);
}

/// A failure of the sending side is what the session came to, whatever became
/// of the other side.
pub proof fn the_sender_is_heard_first(
    failure: ClientError,
    receiver: Result<(), ClientError>,
    failed: (Result<(), ClientError>, Option<&'static str>),
    returned: (Result<(), ClientError>, Option<&'static str>),
)
    requires
        call_ensures(
            session_result,
            (SenderEnd::Returned(Err::<(), ClientError>(failure)), receiver),
            failed,
        ),
        call_ensures(
            session_result,
            (SenderEnd::Returned(Ok::<(), ClientError>(())), receiver),
            returned,
        ),
    ensures
        failed.0 == Err::<(), ClientError>(failure),
        returned.0 == receiver,
        returned.1 is None,
{
}

} // verus!
