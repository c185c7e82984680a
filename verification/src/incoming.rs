//! The receiving side of a full tunnel, and what keeps its session alive.
//!
//! The loop only decides: the program around it receives, delivers and sends,
//! and hands back what came of it.

use vstd::prelude::*;

use crate::error::{is_platform, IoError};
use crate::liveness::{self, Action, Liveness};
use crate::packet_loop::{
    self, after_keepalive, after_receive, check_worker, note_packet_drop, PacketDisposition,
    Received, WorkerStatus,
};
use crate::session::SessionParameters;
use crate::{counter, error, text, ClientError};

verus! {

/// Where the loop stands.
#[derive(Clone, Copy, Debug, PartialEq, Eq, Structural)]
pub enum Phase {
    /// A turn is about to begin.
    Starting,
    Receiving,
    /// A packet is being handed to the adapter.
    Delivering,
    /// Requests of the other threads are being collected.
    Collecting,
    /// A keepalive that was due at this moment is being sent.
    Probing(u128),
    /// The network policy is being restored before a reconnect.
    Refreshing,
    Negotiating,
    /// The new keys are being put in place.
    Rekeying,
    Ended,
}

/// The receiving side of a session.
#[derive(Clone, Copy, Debug, PartialEq, Eq, Structural)]
pub struct IncomingLoop {
    pub phase: Phase,
    pub liveness: Liveness,
    /// What the server assigned to the session.
    pub parameters: SessionParameters,
    /// Packets that the adapter had no room for.
    pub send_drops: u64,
}

/// What a receive came to.
#[derive(Debug)]
pub enum Reception {
    /// An IP packet for this machine.
    Packet,
    Keepalive,
    /// Something that does not decode or authenticate.
    Undecodable,
    Failed(IoError),
}

/// How sending a keepalive went.
#[derive(Debug)]
pub enum KeepaliveOutcome {
    Sent,
    NotEncoded(ClientError),
    NotSent(IoError),
}

/// What happened.
#[derive(Debug)]
pub enum Event {
    /// A turn begins: whether the session was asked to stop, and what its
    /// sending side has reported.
    Turn { stopping: bool, worker: WorkerStatus },
    Received(Reception),
    Delivered(Result<PacketDisposition, ClientError>),
    /// Whether another thread has asked for a reconnect.
    Collected { reconnect: bool },
    KeepaliveSent(KeepaliveOutcome),
    PolicyRefreshed(Result<(), ClientError>),
    /// The parameters of the new session, or why there is none, and why the
    /// receive timeout could not be restored, where it could not.
    Negotiated { result: Result<SessionParameters, ClientError>, timeout: Option<IoError> },
    KeysInstalled(Result<(), ClientError>),
}

/// What the loop wants done.
#[derive(Clone, Copy, Debug, PartialEq, Eq, Structural)]
pub enum Command {
    BeginTurn,
    Receive,
    Deliver,
    Collect,
    SendKeepalive,
    RefreshPolicy,
    Negotiate,
    InstallKeys,
    /// Return, with the failure where there is one.
    Finish,
    /// The event does not belong to the phase.
    Ignore,
}

/// What the loop answers to an event.
#[derive(Debug)]
pub struct Step {
    pub command: Command,
    pub lines: Vec<String>,
    pub failure: Option<ClientError>,
}

/// What a reception means for the session.
pub open spec fn reception_kind(reception: Reception) -> Received {
    match reception {
        Reception::Packet => Received::Packet,
        Reception::Keepalive => Received::Keepalive,
        Reception::Undecodable => Received::Undecodable,
        Reception::Failed(error) => Received::Failed(error.kind),
    }
}

/// The liveness once the requests are in.
pub open spec fn after_requests(state: Liveness, reconnect: bool, now: u128) -> Liveness {
    if reconnect {
        state.after_loss(now)
    } else {
        state
    }
}

/// What follows an event: the next state, and what to do.
pub open spec fn next_state(state: IncomingLoop, event: Event, now: u128) -> (
    IncomingLoop,
    Command,
) {
    let ended = (IncomingLoop { phase: Phase::Ended, ..state }, Command::Finish);
    let turn = Phase::Starting;
    match (state.phase, event) {
        (Phase::Starting, Event::Turn { stopping, worker }) => if stopping || !(worker is Running) {
            ended
        } else {
            (IncomingLoop { phase: Phase::Receiving, ..state }, Command::Receive)
        },
        (Phase::Receiving, Event::Received(reception)) => {
            let kind = reception_kind(reception);
            let liveness = packet_loop::after_receive_state(state.liveness, kind, now);
            if packet_loop::is_fatal_receive(kind) {
                ended
            } else if reception is Packet {
                (IncomingLoop { phase: Phase::Delivering, liveness, ..state }, Command::Deliver)
            } else {
                (IncomingLoop { phase: Phase::Collecting, liveness, ..state }, Command::Collect)
            }
        },
        (Phase::Delivering, Event::Delivered(Ok(disposition))) => (
            IncomingLoop {
                phase: Phase::Collecting,
                send_drops: if disposition is Dropped {
                    counter::capped(state.send_drops + 1)
                } else {
                    state.send_drops
                },
                ..state
            },
            Command::Collect,
        ),
        (Phase::Collecting, Event::Collected { reconnect }) => {
            let noted = after_requests(state.liveness, reconnect, now);
            match noted.action_at(now) {
                Action::Nothing => (
                    IncomingLoop { phase: turn, liveness: noted, ..state },
                    Command::BeginTurn,
                ),
                Action::Keepalive => (
                    IncomingLoop { phase: Phase::Probing(now), liveness: noted, ..state },
                    Command::SendKeepalive,
                ),
                Action::Reconnect => (
                    IncomingLoop {
                        phase: Phase::Refreshing,
                        liveness: noted.after_attempt(now),
                        ..state
                    },
                    Command::RefreshPolicy,
                ),
            }
        },
        (Phase::Probing(due), Event::KeepaliveSent(KeepaliveOutcome::Sent)) => (
            IncomingLoop {
                phase: turn,
                liveness: state.liveness.after_keepalive(due),
                ..state
            },
            Command::BeginTurn,
        ),
        (Phase::Probing(due), Event::KeepaliveSent(KeepaliveOutcome::NotSent(error))) =>
            if packet_loop::unavailable_kind(error.kind) {
                (
                    IncomingLoop { phase: turn, liveness: state.liveness.after_loss(due), ..state },
                    Command::BeginTurn,
                )
            } else {
                ended
            },
        (Phase::Refreshing, Event::PolicyRefreshed(Ok(_))) => (
            IncomingLoop { phase: Phase::Negotiating, ..state },
            Command::Negotiate,
        ),
        (Phase::Refreshing, Event::PolicyRefreshed(Err(_))) => (
            IncomingLoop { phase: turn, ..state },
            Command::BeginTurn,
        ),
        (Phase::Negotiating, Event::Negotiated { result, timeout }) => if timeout is Some {
            ended
        } else {
            match result {
                Ok(parameters) => if parameters == state.parameters {
                    (IncomingLoop { phase: Phase::Rekeying, ..state }, Command::InstallKeys)
                } else {
                    ended
                },
                Err(_) => (IncomingLoop { phase: turn, ..state }, Command::BeginTurn),
            }
        },
        (Phase::Rekeying, Event::KeysInstalled(Ok(_))) => (
            IncomingLoop { phase: turn, liveness: Liveness::fresh(now), ..state },
            Command::BeginTurn,
        ),
        (Phase::Delivering, Event::Delivered(Err(_)))
        | (Phase::Probing(_), Event::KeepaliveSent(KeepaliveOutcome::NotEncoded(_)))
        | (Phase::Rekeying, Event::KeysInstalled(Err(_))) => ended,
        _ => (state, Command::Ignore),
    }
}

/// The lines that an event prints.
pub open spec fn event_lines(state: IncomingLoop, event: Event, now: u128) -> Seq<Seq<char>> {
    match (state.phase, event) {
        (Phase::Delivering, Event::Delivered(Ok(disposition))) => {
            let drops = next_state(state, event, now).0.send_drops;
            if disposition is Dropped && counter::is_power_of_two(drops as nat) {
                seq![packet_loop::drop_warning("Wintun send ring is temporarily full"@, drops)]
            } else {
                Seq::empty()
            }
        },
        (Phase::Collecting, Event::Collected { .. }) => if next_state(state, event, now).1
            is RefreshPolicy {
            seq!["MOUSEVPN_STATE=reconnecting"@]
        } else {
            Seq::empty()
        },
        (Phase::Refreshing, Event::PolicyRefreshed(Err(e))) => seq![
            "MOUSEVPN_RECONNECT_ERROR="@ + error::error_text(e),
        ],
        (Phase::Negotiating, Event::Negotiated { result: Err(e), timeout: None }) => seq![
            "MOUSEVPN_RECONNECT_ERROR="@ + error::error_text(e),
        ],
        (Phase::Rekeying, Event::KeysInstalled(Ok(_))) => seq!["MOUSEVPN_STATE=reconnected"@],
        _ => Seq::empty(),
    }
}

/// Whether `failure` is what an event ends the session with.
pub open spec fn is_failure(failure: Option<ClientError>, state: IncomingLoop, event: Event) -> bool {
    match (state.phase, event) {
        (Phase::Starting, Event::Turn { stopping: false, worker }) => match worker {
            WorkerStatus::Running => failure is None,
            WorkerStatus::Finished(Ok(_)) => failure matches Some(e) && is_platform(
                e,
                "Wintun packet worker stopped unexpectedly"@,
            ),
            WorkerStatus::Finished(Err(e)) => failure == Some(e),
            WorkerStatus::Gone => failure matches Some(e) && is_platform(
                e,
                "Wintun packet worker channel closed unexpectedly"@,
            ),
        },
        (Phase::Receiving, Event::Received(Reception::Failed(e))) =>
            if packet_loop::is_fatal_receive(Received::Failed(e.kind)) {
                failure == Some(ClientError::Io(e))
            } else {
                failure is None
            },
        (Phase::Delivering, Event::Delivered(Err(e))) => failure == Some(e),
        (Phase::Probing(_), Event::KeepaliveSent(KeepaliveOutcome::NotEncoded(e))) => failure
            == Some(e),
        (Phase::Probing(_), Event::KeepaliveSent(KeepaliveOutcome::NotSent(e))) =>
            if packet_loop::unavailable_kind(e.kind) {
                failure is None
            } else {
                failure == Some(ClientError::Io(e))
            },
        (Phase::Negotiating, Event::Negotiated { result, timeout }) => match timeout {
            Some(e) => failure == Some(ClientError::Io(e)),
            None => match result {
                Ok(parameters) => if parameters == state.parameters {
                    failure is None
                } else {
                    failure matches Some(e) && is_platform(
                        e,
                        "server changed tunnel parameters during reconnect"@,
                    )
                },
                Err(_) => failure is None,
            },
        },
        (Phase::Rekeying, Event::KeysInstalled(Err(e))) => failure == Some(e),
        _ => failure is None,
    }
}

/// A step that prints nothing and fails nothing.
fn quiet(command: Command) -> (step: Step)
    ensures
        step.command == command,
        text::texts(step.lines@) == Seq::<Seq<char>>::empty(),
        step.failure is None,
{
    let lines: Vec<String> = Vec::new();
    assert(text::texts(lines@) =~= Seq::<Seq<char>>::empty());
    Step { command, lines, failure: None }
}

/// A step that prints one line.
fn printed(command: Command, line: String) -> (step: Step)
    ensures
        step.command == command,
        text::texts(step.lines@) == seq![line@],
        step.failure is None,
{
    let ghost content = line@;
    let mut lines: Vec<String> = Vec::new();
    lines.push(line);
    assert(text::texts(lines@) =~= seq![content]);
    Step { command, lines, failure: None }
}

impl IncomingLoop {
    pub open spec fn well_formed(&self) -> bool {
        self.liveness.well_formed()
    }

    /// Whether packets of this machine are held back, which they are while a
    /// reconnect is under way.
    pub open spec fn holds_back(&self) -> bool {
        self.phase is Refreshing || self.phase is Negotiating
    }

    /// A session that was set up at `now`.
    pub fn new(parameters: SessionParameters, now: u128) -> (incoming: IncomingLoop)
        ensures
            incoming == (IncomingLoop {
                phase: Phase::Starting,
                liveness: Liveness::fresh(now),
                parameters,
                send_drops: 0,
            }),
            incoming.well_formed(),
    {
        IncomingLoop {
            phase: Phase::Starting,
            liveness: Liveness::new(now),
            parameters,
            send_drops: 0,
        }
    }

    /// Whether packets of this machine are held back.
    pub fn reconnecting(&self) -> (yes: bool)
        ensures
            yes == self.holds_back(),
    {
        matches!(self.phase, Phase::Refreshing | Phase::Negotiating)
    }

    fn fail(&mut self, failure: Option<ClientError>) -> (step: Step)
        ensures
            *final(self) == (IncomingLoop { phase: Phase::Ended, ..*old(self) }),
            step.command == Command::Finish,
            text::texts(step.lines@) == Seq::<Seq<char>>::empty(),
            step.failure == failure,
    {
        self.phase = Phase::Ended;
        let lines: Vec<String> = Vec::new();
        assert(text::texts(lines@) =~= Seq::<Seq<char>>::empty());
        Step { command: Command::Finish, lines, failure }
    }

    /// Takes an event and says what to do next, and what to print.
    ///
    /// Only what authenticates keeps a session alive. One that falls silent is
    /// renegotiated in place, under the network policy as it was restored; a
    /// server that hands out other parameters cannot be followed in place.
    pub fn advance(&mut self, event: Event, now: u128) -> (step: Step)
        requires
            old(self).well_formed(),
        ensures
            final(self).well_formed(),
            (*final(self), step.command) == next_state(*old(self), event, now),
            text::texts(step.lines@) == event_lines(*old(self), event, now),
            is_failure(step.failure, *old(self), event),
    {
        match (self.phase, event) {
            (Phase::Starting, Event::Turn { stopping, worker }) => {
                if stopping {
                    return self.fail(None);
                }
                match check_worker(worker) {
                    Ok(_) => {
                        self.phase = Phase::Receiving;
                        quiet(Command::Receive)
                    },
                    Err(e) => self.fail(Some(e)),
                }
            },
            (Phase::Receiving, Event::Received(reception)) => {
                let kind = match &reception {
                    Reception::Packet => Received::Packet,
                    Reception::Keepalive => Received::Keepalive,
                    Reception::Undecodable => Received::Undecodable,
                    Reception::Failed(e) => Received::Failed(e.kind),
                };
                let fatal = after_receive(&mut self.liveness, kind, now);
                match reception {
                    Reception::Packet => {
                        self.phase = Phase::Delivering;
                        quiet(Command::Deliver)
                    },
                    Reception::Failed(e) => {
                        if fatal {
                            return self.fail(Some(ClientError::Io(e)));
                        }
                        self.phase = Phase::Collecting;
                        quiet(Command::Collect)
                    },
                    _ => {
                        self.phase = Phase::Collecting;
                        quiet(Command::Collect)
                    },
                }
            },
            (Phase::Delivering, Event::Delivered(Ok(disposition))) => {
                self.phase = Phase::Collecting;
                if disposition == PacketDisposition::Sent {
                    return quiet(Command::Collect);
                }
                let warning = note_packet_drop(
                    &mut self.send_drops,
                    "Wintun send ring is temporarily full",
                );
                match warning {
                    Some(line) => printed(Command::Collect, line),
                    None => quiet(Command::Collect),
                }
            },
            (Phase::Delivering, Event::Delivered(Err(e))) => self.fail(Some(e)),
            (Phase::Collecting, Event::Collected { reconnect }) => {
                if reconnect {
                    self.liveness.connection_lost(now);
                }
                match self.liveness.action(now) {
                    Action::Nothing => {
                        self.phase = Phase::Starting;
                        quiet(Command::BeginTurn)
                    },
                    Action::Keepalive => {
                        self.phase = Phase::Probing(now);
                        quiet(Command::SendKeepalive)
                    },
                    Action::Reconnect => {
                        self.liveness.reconnect_attempted(now);
                        self.phase = Phase::Refreshing;
                        printed(Command::RefreshPolicy, text::owned("MOUSEVPN_STATE=reconnecting"))
                    },
                }
            },
            (Phase::Probing(due), Event::KeepaliveSent(outcome)) => match outcome {
                KeepaliveOutcome::Sent => {
                    after_keepalive(&mut self.liveness, None, due);
                    self.phase = Phase::Starting;
                    quiet(Command::BeginTurn)
                },
                KeepaliveOutcome::NotEncoded(e) => self.fail(Some(e)),
                KeepaliveOutcome::NotSent(e) => {
                    if after_keepalive(&mut self.liveness, Some(e.kind), due) {
                        return self.fail(Some(ClientError::Io(e)));
                    }
                    self.phase = Phase::Starting;
                    quiet(Command::BeginTurn)
                },
            },
            (Phase::Refreshing, Event::PolicyRefreshed(result)) => match result {
                Ok(_) => {
                    self.phase = Phase::Negotiating;
                    quiet(Command::Negotiate)
                },
                Err(e) => {
                    self.phase = Phase::Starting;
                    printed(Command::BeginTurn, reconnect_error(&e))
                },
            },
            (Phase::Negotiating, Event::Negotiated { result, timeout }) => {
                if let Some(e) = timeout {
                    return self.fail(Some(ClientError::Io(e)));
                }
                match result {
                    Ok(parameters) => {
                        if parameters == self.parameters {
                            self.phase = Phase::Rekeying;
                            quiet(Command::InstallKeys)
                        } else {
                            self.fail(
                                Some(
                                    ClientError::platform(
                                        "server changed tunnel parameters during reconnect",
                                    ),
                                ),
                            )
                        }
                    },
                    Err(e) => {
                        self.phase = Phase::Starting;
                        printed(Command::BeginTurn, reconnect_error(&e))
                    },
                }
            },
            (Phase::Rekeying, Event::KeysInstalled(result)) => match result {
                Ok(_) => {
                    self.liveness.reconnected(now);
                    self.phase = Phase::Starting;
                    printed(Command::BeginTurn, text::owned("MOUSEVPN_STATE=reconnected"))
                },
                Err(e) => self.fail(Some(e)),
            },
            _ => quiet(Command::Ignore),
        }
    }
}

/// The line for an attempt to reconnect that failed.
fn reconnect_error(failure: &ClientError) -> (line: String)
    ensures
        line@ == "MOUSEVPN_RECONNECT_ERROR="@ + error::error_text(*failure),
{
    String::from_str("MOUSEVPN_RECONNECT_ERROR=").concat(failure.message().as_str())
}

/// A change of the network under the tunnel starts a reconnect at once,
/// whatever arrived meanwhile, unless the loss was already acted upon.
pub proof fn a_network_change_starts_a_reconnect(state: IncomingLoop, now: u128)
    requires
        state.phase is Collecting,
        !state.liveness.lost,
        now >= liveness::SESSION_TIMEOUT,
    ensures
        next_state(state, Event::Collected { reconnect: true }, now).1 is RefreshPolicy,
{
}

/// A failed attempt to reconnect never ends the session: only a server that
/// assigned other parameters, or a socket that broke, does.
pub proof fn failed_attempts_are_repeated(state: IncomingLoop, event: Event, now: u128)
    requires
        state.phase is Refreshing || state.phase is Negotiating,
        match event {
            Event::PolicyRefreshed(result) => result is Err,
            Event::Negotiated { result, timeout } => result is Err && timeout is None,
            _ => true,
        },
    ensures
        next_state(state, event, now).1 is BeginTurn || next_state(state, event, now).1 is Ignore,
        next_state(state, event, now).0.liveness == state.liveness,
        next_state(state, event, now).0.parameters == state.parameters,
{
}

/// The session keeps the parameters that the network was set up with.
pub proof fn parameters_never_change(state: IncomingLoop, event: Event, now: u128)
    ensures
        next_state(state, event, now).0.parameters == state.parameters,
        state.phase is Ended ==> next_state(state, event, now) == (state, Command::Ignore),
{
}

/// Packets of this machine are held back from the moment a reconnect starts
/// until it is decided, and at no other time.
pub proof fn packets_are_held_back_only_during_a_reconnect(
    state: IncomingLoop,
    event: Event,
    now: u128,
)
    requires
        next_state(state, event, now).1 !is Ignore,
    ensures
        next_state(state, event, now).0.holds_back() <==> (next_state(state, event, now).1
            is RefreshPolicy || next_state(state, event, now).1 is Negotiate),
{
}

/// A reconnect restores the network policy, negotiates and puts the new keys
/// in place, in this order. It ends where a turn begins, with a session as
/// fresh as a new one.
pub proof fn a_reconnect_runs_through_its_steps(state: IncomingLoop, now: u128)
    requires
        state.phase is Collecting,
        state.liveness.action_at(now) is Reconnect,
    ensures
        ({
            let first = next_state(state, Event::Collected { reconnect: false }, now);
            let second = next_state(first.0, Event::PolicyRefreshed(Ok(())), now);
            let third = next_state(
                second.0,
                Event::Negotiated { result: Ok(state.parameters), timeout: None },
                now,
            );
            let last = next_state(third.0, Event::KeysInstalled(Ok(())), now);
            &&& first.1 is RefreshPolicy
            &&& second.1 is Negotiate
            &&& third.1 is InstallKeys
            &&& last.1 is BeginTurn
            &&& last.0.phase is Starting
            &&& last.0.liveness == Liveness::fresh(now)
            &&& last.0.send_drops == state.send_drops
            &&& first.0.liveness.retry == Some(now)
            &&& second.0.liveness == first.0.liveness
            &&& third.0.liveness == first.0.liveness
            &&& event_lines(state, Event::Collected { reconnect: false }, now) == seq![
                "MOUSEVPN_STATE=reconnecting"@,
            ]
            &&& event_lines(third.0, Event::KeysInstalled(Ok(())), now) == seq![
                "MOUSEVPN_STATE=reconnected"@,
            ]
        }),
{
}

/// A turn receives, hands a packet on before it collects the requests of the
/// other threads, and begins again where nothing is due. Packets that the
/// adapter had no room for are counted, and no others.
pub proof fn a_turn_receives_then_collects(
    state: IncomingLoop,
    disposition: PacketDisposition,
    now: u128,
)
    requires
        state.phase is Starting,
    ensures
        ({
            let worker = WorkerStatus::Running;
            let begun = next_state(state, Event::Turn { stopping: false, worker }, now);
            let heard = next_state(begun.0, Event::Received(Reception::Packet), now);
            let delivered = next_state(heard.0, Event::Delivered(Ok(disposition)), now);
            let probed = next_state(begun.0, Event::Received(Reception::Keepalive), now);
            let junk = next_state(begun.0, Event::Received(Reception::Undecodable), now);
            &&& begun.1 is Receive
            &&& heard.1 is Deliver
            &&& delivered.1 is Collect
            &&& probed.1 is Collect
            &&& junk.1 is Collect
            &&& delivered.0.liveness == state.liveness.after_packet(now)
            &&& probed.0.liveness == state.liveness.after_packet(now)
            &&& junk.0.liveness == state.liveness
            &&& delivered.0.send_drops == state.send_drops + (if disposition is Dropped
                && state.send_drops < u64::MAX {
                1int
            } else {
                0
            })
            &&& probed.0.send_drops == state.send_drops
        }),
{
}

/// A keepalive counts from the moment it fell due. One that found the peer
/// gone is a loss at that moment, and any other failure ends the session.
pub proof fn keepalives_count_from_when_they_fell_due(
    state: IncomingLoop,
    due: u128,
    now: u128,
    error: IoError,
)
    requires
        state.phase is Collecting,
        state.liveness.action_at(due) is Keepalive,
    ensures
        ({
            let asked = next_state(state, Event::Collected { reconnect: false }, due);
            let sent = next_state(asked.0, Event::KeepaliveSent(KeepaliveOutcome::Sent), now);
            let failed = next_state(
                asked.0,
                Event::KeepaliveSent(KeepaliveOutcome::NotSent(error)),
                now,
            );
            &&& asked.1 is SendKeepalive
            &&& asked.0.liveness == state.liveness
            &&& sent.1 is BeginTurn
            &&& sent.0.liveness == state.liveness.after_keepalive(due)
            &&& error.kind is NetworkUnreachable ==> failed.1 is BeginTurn && failed.0.liveness
                == state.liveness.after_loss(due)
            &&& error.kind is TimedOut ==> failed.1 is Finish
        }),
{
}

/// The loop ends where it was asked to, where the sending side has stopped,
/// and where the server assigned something else, and says why in all but the
/// first case.
pub proof fn the_loop_ends_for_a_reason(
    state: IncomingLoop,
    failure: Option<ClientError>,
    worker: WorkerStatus,
    parameters: SessionParameters,
    now: u128,
)
    ensures
        state.phase is Starting ==> next_state(
            state,
            Event::Turn { stopping: true, worker },
            now,
        ).1 is Finish && (is_failure(failure, state, Event::Turn { stopping: true, worker })
            <==> failure is None),
        state.phase is Starting && !(worker is Running) ==> next_state(
            state,
            Event::Turn { stopping: false, worker },
            now,
        ).1 is Finish && !is_failure(None, state, Event::Turn { stopping: false, worker }),
        state.phase is Negotiating && parameters != state.parameters ==> ({
            let event = Event::Negotiated { result: Ok(parameters), timeout: None };
            &&& next_state(state, event, now).1 is Finish
            &&& is_failure(failure, state, event) ==> (failure matches Some(e) && is_platform(
                e,
                "server changed tunnel parameters during reconnect"@,
            ))
        }),
{
}

/// What ends the session is what went wrong: a failed delivery, key or keepalive
/// is reported as it came, and a failed attempt to reconnect is not reported
/// as the end.
pub proof fn failures_are_reported_as_they_came(
    state: IncomingLoop,
    failure: Option<ClientError>,
    error: ClientError,
    io: IoError,
    now: u128,
)
    ensures
        state.phase is Delivering ==> (is_failure(failure, state, Event::Delivered(Err(error)))
            <==> failure == Some(error)) && next_state(
            state,
            Event::Delivered(Err(error)),
            now,
        ).1 is Finish,
        state.phase is Rekeying ==> (is_failure(failure, state, Event::KeysInstalled(Err(error)))
            <==> failure == Some(error)) && next_state(
            state,
            Event::KeysInstalled(Err(error)),
            now,
        ).1 is Finish,
        state.phase is Receiving && io.kind is Other ==> (is_failure(
            failure,
            state,
            Event::Received(Reception::Failed(io)),
        ) <==> failure == Some(ClientError::Io(io))),
        state.phase is Receiving && io.kind is TimedOut ==> (is_failure(
            failure,
            state,
            Event::Received(Reception::Failed(io)),
        ) <==> failure is None),
        state.phase is Negotiating ==> (is_failure(
            failure,
            state,
            Event::Negotiated { result: Err(error), timeout: None },
        ) <==> failure is None),
        state.phase is Negotiating ==> (is_failure(
            failure,
            state,
            Event::Negotiated { result: Err(error), timeout: Some(io) },
        ) <==> failure == Some(ClientError::Io(io))),
        state.phase is Negotiating ==> event_lines(
            state,
            Event::Negotiated { result: Err(error), timeout: None },
            now,
        ) == seq!["MOUSEVPN_RECONNECT_ERROR="@ + error::error_text(error)],
        state.phase is Refreshing ==> event_lines(state, Event::PolicyRefreshed(Err(error)), now)
            == seq!["MOUSEVPN_RECONNECT_ERROR="@ + error::error_text(error)],
{
}

} // verus!
