//! Supervises a full tunnel: starts it, restarts it when it fails, and stops
//! it when asked.

use vstd::prelude::*;

use crate::error::is_platform;
use crate::ip::{IpAddr, Ipv4Addr, SocketAddr};
use crate::platform;
use crate::session::SessionParameters;
use crate::{clock, error, text, ClientError};

verus! {

pub const RESTART_BACKOFF_MIN: u128 = 1_000_000_000;

pub const RESTART_BACKOFF_MAX: u128 = 16_000_000_000;

/// A session that ran this long was a success.
pub const STABLE_RUNTIME: u128 = 60_000_000_000;

/// How often a wait looks for the request to stop.
pub const STOP_POLL: u128 = 100_000_000;

/// The steps that bring a tunnel up, in order.
#[derive(Clone, Copy, Debug, PartialEq, Eq, Structural)]
pub enum StartupStep {
    EnsureRuntime,
    AcquireLock,
    RecoverStaleState,
    CheckEndpoint,
    PrepareWire,
    /// The handshake runs beside the creation of the adapter, which takes a
    /// second or more and does not depend on the session.
    HandshakeAndAdapter,
    ConfigureTransport,
    SetMtu,
    StartSession,
    InstallBypass,
    InstallNetwork,
}

/// The place of a step in the order of startup.
pub open spec fn startup_rank(step: StartupStep) -> int {
    match step {
        StartupStep::EnsureRuntime => 0,
        StartupStep::AcquireLock => 1,
        StartupStep::RecoverStaleState => 2,
        StartupStep::CheckEndpoint => 3,
        StartupStep::PrepareWire => 4,
        StartupStep::HandshakeAndAdapter => 5,
        StartupStep::ConfigureTransport => 6,
        StartupStep::SetMtu => 7,
        StartupStep::StartSession => 8,
        StartupStep::InstallBypass => 9,
        StartupStep::InstallNetwork => 10,
    }
}

/// The step that follows `step`.
pub fn next_startup_step(step: StartupStep) -> (next: Option<StartupStep>)
    ensures
        match next {
            Some(n) => startup_rank(n) == startup_rank(step) + 1,
            None => startup_rank(step) == 10,
        },
{
    match step {
        StartupStep::EnsureRuntime => Some(StartupStep::AcquireLock),
        StartupStep::AcquireLock => Some(StartupStep::RecoverStaleState),
        StartupStep::RecoverStaleState => Some(StartupStep::CheckEndpoint),
        StartupStep::CheckEndpoint => Some(StartupStep::PrepareWire),
        StartupStep::PrepareWire => Some(StartupStep::HandshakeAndAdapter),
        StartupStep::HandshakeAndAdapter => Some(StartupStep::ConfigureTransport),
        StartupStep::ConfigureTransport => Some(StartupStep::SetMtu),
        StartupStep::SetMtu => Some(StartupStep::StartSession),
        StartupStep::StartSession => Some(StartupStep::InstallBypass),
        StartupStep::InstallBypass => Some(StartupStep::InstallNetwork),
        StartupStep::InstallNetwork => None,
    }
}

/// What an earlier session left is cleaned up under the lock, and before
/// anything of the new one is installed.
pub proof fn recovery_precedes_installation()
    ensures
        startup_rank(StartupStep::AcquireLock) < startup_rank(StartupStep::RecoverStaleState),
        startup_rank(StartupStep::RecoverStaleState) < startup_rank(StartupStep::InstallBypass),
        startup_rank(StartupStep::InstallBypass) < startup_rank(StartupStep::InstallNetwork),
{
}

/// The address of the server, which has to be an IPv4 one.
pub fn ipv4_endpoint(server: SocketAddr) -> (address: Result<Ipv4Addr, ClientError>)
    ensures
        match server.ip {
            IpAddr::V4(a) => address == Ok::<Ipv4Addr, ClientError>(a),
            IpAddr::V6(_) => address matches Err(e) && is_platform(
                e,
                "IPv6 server endpoints are not supported by the Windows client"@,
            ),
        },
{
    match server.ip {
        IpAddr::V4(address) => Ok(address),
        IpAddr::V6(_) => Err(
            ClientError::platform("IPv6 server endpoints are not supported by the Windows client"),
        ),
    }
}

/// The calls to the adapter driver.
#[derive(Clone, Copy, Debug, PartialEq, Eq, Structural)]
pub enum AdapterCall {
    LoadLibrary,
    CreateAdapter,
    SetMtu,
    StartSession,
    RestoreMtu,
    RestartSession,
    ReceivePacket,
}

pub open spec fn adapter_failure_text(call: AdapterCall) -> Seq<char> {
    match call {
        AdapterCall::LoadLibrary => "failed to load wintun.dll: "@,
        AdapterCall::CreateAdapter => "failed to create Wintun adapter: "@,
        AdapterCall::SetMtu => "failed to set Wintun MTU: "@,
        AdapterCall::StartSession => "failed to start Wintun: "@,
        AdapterCall::RestoreMtu => "failed to restore Wintun MTU: "@,
        AdapterCall::RestartSession => "failed to restart Wintun: "@,
        AdapterCall::ReceivePacket => "failed to receive a Wintun packet: "@,
    }
}

/// The error of a failed call to the adapter driver.
pub fn adapter_failure(call: AdapterCall, detail: &str) -> (error: ClientError)
    ensures
        is_platform(error, adapter_failure_text(call) + detail@),
{
    let prefix: &'static str = match call {
        AdapterCall::LoadLibrary => "failed to load wintun.dll: ",
        AdapterCall::CreateAdapter => "failed to create Wintun adapter: ",
        AdapterCall::SetMtu => "failed to set Wintun MTU: ",
        AdapterCall::StartSession => "failed to start Wintun: ",
        AdapterCall::RestoreMtu => "failed to restore Wintun MTU: ",
        AdapterCall::RestartSession => "failed to restart Wintun: ",
        AdapterCall::ReceivePacket => "failed to receive a Wintun packet: ",
    };
    ClientError::platform_with(prefix, detail)
}

/// Where the supervision of a tunnel stands.
#[derive(Clone, Copy, Debug, PartialEq, Eq, Structural)]
pub enum Phase {
    /// Packets are carried.
    Running,
    /// A wait is under way.
    Waiting,
    /// The network policy is being restored.
    Refreshing,
    /// A new session is being set up.
    Connecting,
    /// The network is being changed to these parameters.
    Updating(SessionParameters),
    /// The tunnel is down for good.
    Stopped,
}

/// The state of the supervision.
#[derive(Clone, Copy, Debug, PartialEq, Eq, Structural)]
pub struct Supervisor {
    pub phase: Phase,
    pub parameters: SessionParameters,
    /// How long the next wait takes.
    pub backoff: u128,
    /// When packets were first carried in this run.
    pub started: u128,
}

/// What happened.
#[derive(Debug)]
pub enum Event {
    /// The packet loop ended. `stopping` says that it was asked to.
    LoopEnded { result: Result<(), ClientError>, stopping: bool },
    /// The wait ended, or was cut short by a request to stop.
    WaitEnded { stopping: bool },
    PolicyRefreshed(Result<(), ClientError>),
    Connected(Result<SessionParameters, ClientError>),
    ParametersUpdated(Result<(), ClientError>),
}

/// What the supervision wants done.
#[derive(Clone, Copy, Debug, PartialEq, Eq, Structural)]
pub enum Command {
    /// Carry packets over the session that was set up.
    Run,
    /// Wait this long, then go on.
    Wait(u128),
    RefreshPolicy,
    Connect,
    UpdateParameters(SessionParameters),
    /// Give the adapter back its old MTU, then wait.
    RestoreMtuAndWait { mtu: u16, wait: u128 },
    /// Return.
    Finish,
    /// The event does not belong to the phase.
    Ignore,
}

/// Twice the wait, up to the longest.
pub open spec fn doubled(backoff: u128) -> u128 {
    if backoff * 2 > RESTART_BACKOFF_MAX {
        RESTART_BACKOFF_MAX
    } else {
        (backoff * 2) as u128
    }
}

/// How the end of a packet loop is worded.
pub open spec fn loop_end_text(result: Result<(), ClientError>) -> Seq<char> {
    match result {
        Ok(_) => "packet loop stopped unexpectedly"@,
        Err(e) => error::error_text(e),
    }
}

/// The wait that follows a run that ended at `now`.
pub open spec fn wait_after_run(state: Supervisor, now: u128) -> u128 {
    if clock::span(now, state.started) >= STABLE_RUNTIME {
        RESTART_BACKOFF_MIN
    } else {
        state.backoff
    }
}

/// The state and the command that follow an event.
pub open spec fn next_state(state: Supervisor, event: Event, now: u128) -> (Supervisor, Command) {
    match (state.phase, event) {
        (Phase::Running, Event::LoopEnded { result: _, stopping }) => if stopping {
            (Supervisor { phase: Phase::Stopped, ..state }, Command::Finish)
        } else {
            let wait = wait_after_run(state, now);
            (
                Supervisor { phase: Phase::Waiting, backoff: wait, ..state },
                Command::Wait(wait),
            )
        },
        (Phase::Waiting, Event::WaitEnded { stopping }) => if stopping {
            (Supervisor { phase: Phase::Stopped, ..state }, Command::Finish)
        } else {
            (Supervisor { phase: Phase::Refreshing, ..state }, Command::RefreshPolicy)
        },
        (Phase::Refreshing, Event::PolicyRefreshed(Ok(_))) => (
            Supervisor { phase: Phase::Connecting, ..state },
            Command::Connect,
        ),
        (Phase::Refreshing, Event::PolicyRefreshed(Err(_))) => (
            Supervisor { phase: Phase::Waiting, backoff: doubled(state.backoff), ..state },
            Command::Wait(doubled(state.backoff)),
        ),
        (Phase::Connecting, Event::Connected(Ok(parameters))) => if parameters
            == state.parameters {
            (
                Supervisor {
                    phase: Phase::Running,
                    backoff: RESTART_BACKOFF_MIN,
                    started: now,
                    ..state
                },
                Command::Run,
            )
        } else {
            (
                Supervisor { phase: Phase::Updating(parameters), ..state },
                Command::UpdateParameters(parameters),
            )
        },
        (Phase::Connecting, Event::Connected(Err(_))) => (
            Supervisor { phase: Phase::Waiting, backoff: doubled(state.backoff), ..state },
            Command::Wait(doubled(state.backoff)),
        ),
        (Phase::Updating(parameters), Event::ParametersUpdated(Ok(_))) => (
            Supervisor {
                phase: Phase::Running,
                parameters,
                backoff: RESTART_BACKOFF_MIN,
                started: now,
            },
            Command::Run,
        ),
        (Phase::Updating(_), Event::ParametersUpdated(Err(_))) => (
            Supervisor { phase: Phase::Waiting, backoff: doubled(state.backoff), ..state },
            Command::RestoreMtuAndWait {
                mtu: state.parameters.mtu,
                wait: doubled(state.backoff),
            },
        ),
        _ => (state, Command::Ignore),
    }
}

/// The lines that go out with an event.
pub open spec fn event_lines(state: Supervisor, event: Event) -> Seq<Seq<char>> {
    match (state.phase, event) {
        (Phase::Running, Event::LoopEnded { result, stopping: false }) => seq![
            "MOUSEVPN_RUNTIME_WARNING="@ + loop_end_text(result),
            "MOUSEVPN_STATE=failed_closed"@,
            "MOUSEVPN_STATE=restarting"@,
        ],
        (Phase::Refreshing, Event::PolicyRefreshed(Err(e))) => seq![
            "MOUSEVPN_POLICY_WARNING="@ + error::error_text(e),
        ],
        (Phase::Connecting, Event::Connected(Err(e))) => seq![
            "MOUSEVPN_RUNTIME_WARNING="@ + error::error_text(e),
        ],
        (Phase::Updating(_), Event::ParametersUpdated(Ok(_))) => seq![
            "MOUSEVPN_STATE=parameters_updated"@,
        ],
        (Phase::Updating(_), Event::ParametersUpdated(Err(e))) => seq![
            "MOUSEVPN_RUNTIME_WARNING="@ + error::error_text(e),
        ],
        _ => Seq::<Seq<char>>::empty(),
    }
}

fn prefixed(prefix: &str, detail: &str) -> (line: String)
    ensures
        line@ == prefix@ + detail@,
{
    String::from_str(prefix).concat(detail)
}

fn one_line(line: String) -> (lines: Vec<String>)
    ensures
        text::texts(lines@) == seq![line@],
{
    let lines = vec![line];
    assert(text::texts(lines@) =~= seq![line@]);
    lines
}

fn no_lines() -> (lines: Vec<String>)
    ensures
        text::texts(lines@) == Seq::<Seq<char>>::empty(),
{
    let lines: Vec<String> = Vec::new();
    assert(text::texts(lines@) =~= Seq::<Seq<char>>::empty());
    lines
}

impl Supervisor {
    pub open spec fn well_formed(&self) -> bool {
        RESTART_BACKOFF_MIN <= self.backoff <= RESTART_BACKOFF_MAX
    }

    /// Supervises a session that has just been set up.
    pub fn new(parameters: SessionParameters, now: u128) -> (supervisor: Supervisor)
        ensures
            supervisor == (Supervisor {
                phase: Phase::Running,
                parameters,
                backoff: RESTART_BACKOFF_MIN,
                started: now,
            }),
            supervisor.well_formed(),
    {
        Supervisor { phase: Phase::Running, parameters, backoff: RESTART_BACKOFF_MIN, started: now }
    }

    fn double_backoff(&mut self) -> (wait: u128)
        requires
            old(self).well_formed(),
        ensures
            wait == doubled(old(self).backoff),
            *final(self) == (Supervisor {
                phase: Phase::Waiting,
                backoff: doubled(old(self).backoff),
                ..*old(self)
            }),
    {
        let wait: u128 = if self.backoff * 2 > RESTART_BACKOFF_MAX {
            RESTART_BACKOFF_MAX
        } else {
            self.backoff * 2
        };
        self.backoff = wait;
        self.phase = Phase::Waiting;
        wait
    }

    /// Takes an event and says what to do next, and what to print.
    ///
    /// A tunnel that fails stays closed while it is restarted: nothing here
    /// ever takes the network policy down. Waits grow from one second to
    /// sixteen and start over once a session held.
    pub fn advance(&mut self, event: Event, now: u128) -> (step: (Command, Vec<String>))
        requires
            old(self).well_formed(),
        ensures
            final(self).well_formed(),
            (*final(self), step.0) == next_state(*old(self), event, now),
            text::texts(step.1@) == event_lines(*old(self), event),
    {
        match (self.phase, event) {
            (Phase::Running, Event::LoopEnded { result, stopping }) => {
                if stopping {
                    self.phase = Phase::Stopped;
                    return (Command::Finish, no_lines());
                }
                let message = match result {
                    Ok(_) => text::owned("packet loop stopped unexpectedly"),
                    Err(e) => e.message(),
                };
                let lines = vec![
                    prefixed("MOUSEVPN_RUNTIME_WARNING=", message.as_str()),
                    text::owned("MOUSEVPN_STATE=failed_closed"),
                    text::owned("MOUSEVPN_STATE=restarting"),
                ];
                assert(text::texts(lines@) =~= event_lines(*old(self), event));
                if clock::elapsed(now, self.started) >= STABLE_RUNTIME {
                    self.backoff = RESTART_BACKOFF_MIN;
                }
                self.phase = Phase::Waiting;
                (Command::Wait(self.backoff), lines)
            },
            (Phase::Waiting, Event::WaitEnded { stopping }) => {
                if stopping {
                    self.phase = Phase::Stopped;
                    (Command::Finish, no_lines())
                } else {
                    self.phase = Phase::Refreshing;
                    (Command::RefreshPolicy, no_lines())
                }
            },
            (Phase::Refreshing, Event::PolicyRefreshed(Ok(_))) => {
                self.phase = Phase::Connecting;
                (Command::Connect, no_lines())
            },
            (Phase::Refreshing, Event::PolicyRefreshed(Err(e))) => {
                let wait = self.double_backoff();
                let line = prefixed("MOUSEVPN_POLICY_WARNING=", e.message().as_str());
                (Command::Wait(wait), one_line(line))
            },
            (Phase::Connecting, Event::Connected(Ok(parameters))) => {
                if parameters == self.parameters {
                    self.phase = Phase::Running;
                    self.backoff = RESTART_BACKOFF_MIN;
                    self.started = now;
                    (Command::Run, no_lines())
                } else {
                    self.phase = Phase::Updating(parameters);
                    (Command::UpdateParameters(parameters), no_lines())
                }
            },
            (Phase::Connecting, Event::Connected(Err(e))) => {
                let wait = self.double_backoff();
                let line = prefixed("MOUSEVPN_RUNTIME_WARNING=", e.message().as_str());
                (Command::Wait(wait), one_line(line))
            },
            (Phase::Updating(parameters), Event::ParametersUpdated(Ok(_))) => {
                self.phase = Phase::Running;
                self.parameters = parameters;
                self.backoff = RESTART_BACKOFF_MIN;
                self.started = now;
                (Command::Run, one_line(text::owned("MOUSEVPN_STATE=parameters_updated")))
            },
            (Phase::Updating(_), Event::ParametersUpdated(Err(e))) => {
                let wait = self.double_backoff();
                let line = prefixed("MOUSEVPN_RUNTIME_WARNING=", e.message().as_str());
                (
                    Command::RestoreMtuAndWait { mtu: self.parameters.mtu, wait },
                    one_line(line),
                )
            },
            _ => (Command::Ignore, no_lines()),
        }
    }
}

/// Every wait takes between one and sixteen seconds.
pub proof fn waits_are_bounded(state: Supervisor, event: Event, now: u128)
    requires
        state.well_formed(),
    ensures
        next_state(state, event, now).0.well_formed(),
        next_state(state, event, now).1 matches Command::Wait(wait) ==> RESTART_BACKOFF_MIN <= wait
            <= RESTART_BACKOFF_MAX,
        next_state(state, event, now).1 matches Command::RestoreMtuAndWait { wait, .. } ==> RESTART_BACKOFF_MIN
            <= wait <= RESTART_BACKOFF_MAX,
{
}

/// The tunnel only ever finishes because it was asked to: no failure ends it.
pub proof fn only_a_request_stops_the_tunnel(state: Supervisor, event: Event, now: u128)
    requires
        next_state(state, event, now).1 is Finish,
    ensures
        event matches Event::LoopEnded { stopping, .. } ==> stopping,
        event matches Event::WaitEnded { stopping } ==> stopping,
        event is LoopEnded || event is WaitEnded,
{
}

/// Packets are only carried under the parameters that the network was set up
/// with.
pub proof fn sessions_run_with_installed_parameters(state: Supervisor, event: Event, now: u128)
    requires
        next_state(state, event, now).1 is Run,
    ensures
        match event {
            Event::Connected(Ok(parameters)) => parameters == state.parameters
                && next_state(state, event, now).0.parameters == parameters,
            Event::ParametersUpdated(Ok(_)) => state.phase == Phase::Updating(
                next_state(state, event, now).0.parameters,
            ),
            _ => false,
        },
{
}

/// How long to sleep on the way to `deadline` before looking again for a
/// request to stop; `None` once it has passed.
pub fn next_sleep(now: u128, deadline: u128) -> (sleep: Option<u128>)
    ensures
        sleep is None <==> clock::span(deadline, now) == 0,
        sleep matches Some(s) ==> s == (if clock::span(deadline, now) < STOP_POLL {
            clock::span(deadline, now)
        } else {
            STOP_POLL
        }),
{
    let remaining = clock::elapsed(deadline, now);
    if remaining == 0 {
        None
    } else if remaining < STOP_POLL {
        Some(remaining)
    } else {
        Some(STOP_POLL)
    }
}

/// Removes stale routes, name servers and firewall rules.
///
/// `lock` takes the runtime lock and `repair` cleans up; the first is only
/// called on a machine that can run the tunnel, and the second only under the
/// lock.
///
/// # Errors
///
/// Returns an error when elevation, locking or the cleanup fails.
pub fn repair_network<L, R>(running_under_wine: bool, elevated: bool, lock: L, repair: R) -> (result:
    Result<(), ClientError>) where
    L: FnOnce() -> Result<(), ClientError>,
    R: FnOnce() -> Result<(), ClientError>,

    requires
        lock.requires(()),
        repair.requires(()),
    ensures
        if running_under_wine || !elevated {
            result matches Err(e) && is_platform(e, platform::unsupported_text(running_under_wine))
        } else {
            exists|locked: Result<(), ClientError>|
                lock.ensures((), locked) && (match locked {
                    Ok(_) => repair.ensures((), result),
                    Err(e) => result == Err::<(), ClientError>(e),
                })
        },
{
    match platform::ensure_supported_runtime(running_under_wine, elevated) {
        Err(e) => Err(e),
        Ok(_) => {
            let locked = lock();
            match locked {
                Err(e) => Err(e),
                Ok(_) => repair(),
            }
        },
    }
}

/// Returns a compact snapshot of the active network policy, which `report`
/// collects on a machine that can run the tunnel.
///
/// # Errors
///
/// Returns an error if the state of the network cannot be queried.
pub fn network_report<R>(running_under_wine: bool, elevated: bool, report: R) -> (result: Result<
    String,
    ClientError,
>) where R: FnOnce() -> Result<String, ClientError>,
    requires
        report.requires(()),
    ensures
        if running_under_wine || !elevated {
            result matches Err(e) && is_platform(e, platform::unsupported_text(running_under_wine))
        } else {
            report.ensures((), result)
        },
{
    match platform::ensure_supported_runtime(running_under_wine, elevated) {
        Err(e) => Err(e),
        Ok(_) => report(),
    }
}

/// A tunnel that keeps failing waits twice as long each time, from one second
/// up to sixteen.
pub proof fn waits_double_up_to_sixteen_seconds(
    state: Supervisor,
    event: Event,
    error: ClientError,
    now: u128,
)
    requires
        state.well_formed(),
        match state.phase {
            Phase::Refreshing => event == Event::PolicyRefreshed(Err(error)),
            Phase::Connecting => event == Event::Connected(Err(error)),
            Phase::Updating(_) => event == Event::ParametersUpdated(Err(error)),
            _ => false,
        },
    ensures
        1_000_000_000 <= state.backoff <= 16_000_000_000,
        state.backoff <= 8_000_000_000 ==> next_state(state, event, now).0.backoff == 2
            * state.backoff,
        state.backoff >= 8_000_000_000 ==> next_state(state, event, now).0.backoff
            == 16_000_000_000,
        next_state(state, event, now).0.phase is Waiting,
        next_state(state, event, now).0.parameters == state.parameters,
        next_state(state, event, now).1 == (if state.phase is Updating {
            Command::RestoreMtuAndWait {
                mtu: state.parameters.mtu,
                wait: next_state(state, event, now).0.backoff,
            }
        } else {
            Command::Wait(next_state(state, event, now).0.backoff)
        }),
{
}

/// A session that held for a minute is followed by the shortest wait, and one
/// that broke sooner by the wait it was reached with.
pub proof fn lasting_sessions_start_over(
    state: Supervisor,
    result: Result<(), ClientError>,
    now: u128,
)
    requires
        state.phase is Running,
        state.started <= now,
    ensures
        ({
            let ended = next_state(state, Event::LoopEnded { result, stopping: false }, now);
            &&& now - state.started >= 60_000_000_000 ==> ended.1 == Command::Wait(1_000_000_000)
            &&& now - state.started < 60_000_000_000 ==> ended.1 == Command::Wait(state.backoff)
            &&& ended.0.phase is Waiting
            &&& ended.0.parameters == state.parameters
            &&& next_state(state, Event::LoopEnded { result, stopping: true }, now).1 is Finish
        }),
{
}

/// After a wait the network policy is restored before anything is connected,
/// and a session whose parameters changed runs only once the network was
/// changed to them. Packets flow with the shortest wait ahead.
pub proof fn a_restart_runs_through_its_steps(
    state: Supervisor,
    parameters: SessionParameters,
    now: u128,
)
    requires
        state.phase is Waiting,
    ensures
        ({
            let first = next_state(state, Event::WaitEnded { stopping: false }, now);
            let second = next_state(first.0, Event::PolicyRefreshed(Ok(())), now);
            let third = next_state(second.0, Event::Connected(Ok(parameters)), now);
            let last = next_state(third.0, Event::ParametersUpdated(Ok(())), now);
            &&& first.1 is RefreshPolicy
            &&& second.1 is Connect
            &&& parameters == state.parameters ==> third.1 is Run && third.0.backoff
                == 1_000_000_000 && third.0.started == now
            &&& parameters != state.parameters ==> {
                &&& third.1 == Command::UpdateParameters(parameters)
                &&& last.1 is Run
                &&& last.0.parameters == parameters
                &&& last.0.backoff == 1_000_000_000
                &&& last.0.started == now
            }
            &&& next_state(state, Event::WaitEnded { stopping: true }, now).1 is Finish
        }),
{
}

/// A tunnel that fails says so in its first line, and every failed attempt to
/// bring it back gives its reason.
pub proof fn failures_are_announced(state: Supervisor, error: ClientError)
    ensures
        state.phase is Running ==> event_lines(
            state,
            Event::LoopEnded { result: Err(error), stopping: false },
        ) == seq![
            "MOUSEVPN_RUNTIME_WARNING="@ + error::error_text(error),
            "MOUSEVPN_STATE=failed_closed"@,
            "MOUSEVPN_STATE=restarting"@,
        ],
        state.phase is Running ==> event_lines(
            state,
            Event::LoopEnded { result: Ok(()), stopping: false },
        )[0] == "MOUSEVPN_RUNTIME_WARNING="@ + "packet loop stopped unexpectedly"@,
        state.phase is Running ==> event_lines(
            state,
            Event::LoopEnded { result: Err(error), stopping: true },
        ).len() == 0,
        state.phase is Refreshing ==> event_lines(state, Event::PolicyRefreshed(Err(error)))
            == seq!["MOUSEVPN_POLICY_WARNING="@ + error::error_text(error)],
        state.phase is Connecting ==> event_lines(state, Event::Connected(Err(error)))
            == seq!["MOUSEVPN_RUNTIME_WARNING="@ + error::error_text(error)],
        STOP_POLL * 10 == 1_000_000_000,
{
}

/// A tunnel comes up in one order: the lock before the cleanup, the server
/// before the handshake, the transport and the adapter before the policy.
pub proof fn startup_follows_one_order(step: StartupStep)
    ensures
        startup_rank(StartupStep::EnsureRuntime) == 0,
        startup_rank(StartupStep::EnsureRuntime) < startup_rank(StartupStep::AcquireLock),
        startup_rank(StartupStep::RecoverStaleState) < startup_rank(StartupStep::CheckEndpoint),
        startup_rank(StartupStep::CheckEndpoint) < startup_rank(StartupStep::PrepareWire),
        startup_rank(StartupStep::PrepareWire) < startup_rank(StartupStep::HandshakeAndAdapter),
        startup_rank(StartupStep::HandshakeAndAdapter) < startup_rank(
            StartupStep::ConfigureTransport,
        ),
        startup_rank(StartupStep::ConfigureTransport) < startup_rank(StartupStep::SetMtu),
        startup_rank(StartupStep::SetMtu) < startup_rank(StartupStep::StartSession),
        startup_rank(StartupStep::StartSession) < startup_rank(StartupStep::InstallBypass),
        startup_rank(step) <= 10,
{
}

/// A wait sleeps until its end, but never longer than a tenth of a second, and
/// sleeps no more once it has passed.
pub proof fn waits_look_for_the_request_to_stop(now: u128, deadline: u128, sleep: Option<u128>)
    requires
        call_ensures(next_sleep, (now, deadline), sleep),
    ensures
        sleep is None <==> now >= deadline,
        sleep matches Some(s) ==> 0 < s <= 100_000_000 && now + s <= deadline && (s
            == 100_000_000 || now + s == deadline),
{
}

/// The server has to have an IPv4 address.
pub proof fn only_ipv4_servers_are_supported(
    server: SocketAddr,
    address: Result<Ipv4Addr, ClientError>,
)
    requires
        call_ensures(ipv4_endpoint, (server,), address),
    ensures
        address is Ok <==> server.ip is V4,
        address matches Ok(a) ==> server.ip == IpAddr::V4(a),
{
}

/// A failed call to the adapter driver says which it was.
pub proof fn adapter_failures_name_the_call(call: AdapterCall)
    ensures
        adapter_failure_text(AdapterCall::LoadLibrary) == "failed to load wintun.dll: "@,
        adapter_failure_text(AdapterCall::CreateAdapter) == "failed to create Wintun adapter: "@,
        adapter_failure_text(AdapterCall::SetMtu) == "failed to set Wintun MTU: "@,
        adapter_failure_text(AdapterCall::StartSession) == "failed to start Wintun: "@,
        adapter_failure_text(AdapterCall::RestoreMtu) == "failed to restore Wintun MTU: "@,
        adapter_failure_text(AdapterCall::RestartSession) == "failed to restart Wintun: "@,
        adapter_failure_text(AdapterCall::ReceivePacket) == "failed to receive a Wintun packet: "@,
{
}

} // verus!
