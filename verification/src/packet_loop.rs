//! Carries packets between the adapter and the server.

use vstd::prelude::*;

use crate::error::{is_platform, IoErrorKind};
use crate::liveness::Liveness;
use crate::{counter, text, ClientError};

verus! {

/// How long a receive waits before the other duties get their turn.
pub const UDP_POLL: u128 = 250_000_000;

/// How often the network policy is checked and restored.
pub const POLICY_REFRESH_INTERVAL: u128 = 30_000_000_000;

pub const DATAGRAM_BUFFER_LEN: usize = 65_535;

/// The adapter's send ring has no room.
pub const ERROR_BUFFER_OVERFLOW: i32 = 111;

pub open spec fn timeout_kind(kind: IoErrorKind) -> bool {
    kind is TimedOut || kind is WouldBlock
}

/// Whether nothing arrived in time.
pub fn is_timeout(kind: IoErrorKind) -> (yes: bool)
    ensures
        yes == timeout_kind(kind),
{
    matches!(kind, IoErrorKind::TimedOut | IoErrorKind::WouldBlock)
}

pub open spec fn unavailable_kind(kind: IoErrorKind) -> bool {
    kind is ConnectionRefused || kind is ConnectionReset || kind is NotConnected || kind
        is HostUnreachable || kind is NetworkUnreachable
}

/// Whether the peer cannot be reached.
pub fn is_peer_unavailable(kind: IoErrorKind) -> (yes: bool)
    ensures
        yes == unavailable_kind(kind),
{
    matches!(
        kind,
        IoErrorKind::ConnectionRefused
            | IoErrorKind::ConnectionReset
            | IoErrorKind::NotConnected
            | IoErrorKind::HostUnreachable
            | IoErrorKind::NetworkUnreachable
    )
}

pub open spec fn transient_kind(kind: IoErrorKind) -> bool {
    kind is Interrupted || kind is TimedOut || kind is WouldBlock
}

/// Whether trying again later can succeed.
pub fn is_transient_io(kind: IoErrorKind) -> (yes: bool)
    ensures
        yes == transient_kind(kind),
{
    matches!(kind, IoErrorKind::Interrupted | IoErrorKind::TimedOut | IoErrorKind::WouldBlock)
}

/// Whether the adapter refused a packet because its send ring is full. `code`
/// is the system error behind the refusal, where there is one.
pub fn is_wintun_send_queue_full(code: Option<i32>) -> (full: bool)
    ensures
        full == (code == Some(ERROR_BUFFER_OVERFLOW)),
{
    match code {
        Some(c) => c == ERROR_BUFFER_OVERFLOW,
        None => false,
    }
}

pub open spec fn drop_warning(reason: Seq<char>, count: u64) -> Seq<char> {
    "MOUSEVPN_PACKET_WARNING="@ + reason + "; dropped packets="@ + text::decimal(count as nat)
}

/// Whether `warning` is due for the drop number `count`, and worded for
/// `reason`.
pub open spec fn is_drop_warning(warning: Option<String>, reason: Seq<char>, count: u64) -> bool {
    match warning {
        Some(line) => counter::is_power_of_two(count as nat) && line@ == drop_warning(
            reason,
            count,
        ),
        None => !counter::is_power_of_two(count as nat),
    }
}

/// Counts a dropped packet, and words the warning that each power of two gets.
pub fn note_packet_drop(counter: &mut u64, reason: &str) -> (warning: Option<String>)
    ensures
        *final(counter) == counter::capped(*old(counter) + 1),
        is_drop_warning(warning, reason@, *final(counter)),
{
    *counter = counter::sum(*counter, 1);
    if !counter::power_of_two(*counter) {
        return None;
    }
    let mut line = text::owned("MOUSEVPN_PACKET_WARNING=");
    line.append(reason);
    line.append("; dropped packets=");
    text::push_decimal(&mut line, *counter as u128);
    Some(line)
}

/// What became of a packet for the adapter.
#[derive(Clone, Copy, Debug, PartialEq, Eq, Structural)]
pub enum PacketDisposition {
    Sent,
    Dropped,
}

/// The length a packet is announced to the adapter with.
pub fn adapter_length(length: usize) -> (result: Result<u16, ClientError>)
    ensures
        match result {
            Ok(l) => l == length,
            Err(e) => length > u16::MAX && is_platform(e, "received IP packet is too large"@),
        },
{
    if length > u16::MAX as usize {
        Err(ClientError::platform("received IP packet is too large"))
    } else {
        Ok(length as u16)
    }
}

/// What a packet comes to that the adapter found no room for.
pub fn after_allocation_failure(code: Option<i32>, detail: &str) -> (result: Result<
    PacketDisposition,
    ClientError,
>)
    ensures
        match result {
            Ok(d) => d is Dropped && code == Some(ERROR_BUFFER_OVERFLOW),
            Err(e) => code != Some(ERROR_BUFFER_OVERFLOW) && is_platform(
                e,
                "Wintun send queue failed: "@ + detail@,
            ),
        },
{
    if is_wintun_send_queue_full(code) {
        Ok(PacketDisposition::Dropped)
    } else {
        Err(ClientError::platform_with("Wintun send queue failed: ", detail))
    }
}

/// What the worker on the sending side has reported.
#[derive(Debug)]
pub enum WorkerStatus {
    Running,
    Finished(Result<(), ClientError>),
    Gone,
}

/// Fails where the sending side has stopped.
pub fn check_worker(status: WorkerStatus) -> (result: Result<(), ClientError>)
    ensures
        match status {
            WorkerStatus::Running => result is Ok,
            WorkerStatus::Finished(Ok(_)) => result matches Err(e) && is_platform(
                e,
                "Wintun packet worker stopped unexpectedly"@,
            ),
            WorkerStatus::Finished(Err(failure)) => result == Err::<(), ClientError>(failure),
            WorkerStatus::Gone => result matches Err(e) && is_platform(
                e,
                "Wintun packet worker channel closed unexpectedly"@,
            ),
        },
{
    match status {
        WorkerStatus::Running => Ok(()),
        WorkerStatus::Finished(Ok(_)) => Err(
            ClientError::platform("Wintun packet worker stopped unexpectedly"),
        ),
        WorkerStatus::Finished(Err(failure)) => Err(failure),
        WorkerStatus::Gone => Err(
            ClientError::platform("Wintun packet worker channel closed unexpectedly"),
        ),
    }
}

/// What a receive came to.
#[derive(Clone, Copy, Debug, PartialEq, Eq, Structural)]
pub enum Received {
    /// An IP packet for this machine.
    Packet,
    Keepalive,
    /// Something that does not decode or authenticate.
    Undecodable,
    Failed(IoErrorKind),
}

/// What a receive means for the session.
pub open spec fn after_receive_state(state: Liveness, received: Received, now: u128) -> Liveness {
    match received {
        Received::Packet | Received::Keepalive => state.after_packet(now),
        Received::Undecodable => state,
        Received::Failed(kind) => if !timeout_kind(kind) && unavailable_kind(kind) {
            state.after_loss(now)
        } else {
            state
        },
    }
}

/// Whether a failed receive ends the session.
pub open spec fn is_fatal_receive(received: Received) -> bool {
    match received {
        Received::Failed(kind) => !timeout_kind(kind) && !unavailable_kind(kind) && !(kind
            is Interrupted),
        _ => false,
    }
}

/// Notes what a receive came to, and whether it ends the session.
///
/// Only what authenticates proves that the peer is there. A report that the
/// peer cannot be reached counts as a loss.
pub fn after_receive(liveness: &mut Liveness, received: Received, now: u128) -> (fatal: bool)
    ensures
        fatal == is_fatal_receive(received),
        *final(liveness) == (if fatal {
            *old(liveness)
        } else {
            after_receive_state(*old(liveness), received, now)
        }),
{
    match received {
        Received::Packet | Received::Keepalive => {
            liveness.packet_received(now);
        },
        Received::Undecodable => {},
        Received::Failed(kind) => {
            if is_timeout(kind) {
            } else if is_peer_unavailable(kind) {
                liveness.connection_lost(now);
            } else if kind != IoErrorKind::Interrupted {
                return true;
            }
        },
    }
    false
}

/// Notes how sending a keepalive went, and whether it ends the session.
pub fn after_keepalive(liveness: &mut Liveness, failure: Option<IoErrorKind>, now: u128) -> (fatal:
    bool)
    ensures
        match failure {
            None => !fatal && *final(liveness) == old(liveness).after_keepalive(now),
            Some(kind) => if unavailable_kind(kind) {
                !fatal && *final(liveness) == old(liveness).after_loss(now)
            } else {
                fatal && *final(liveness) == *old(liveness)
            },
        },
{
    match failure {
        None => {
            liveness.keepalive_sent(now);
            false
        },
        Some(kind) => {
            if is_peer_unavailable(kind) {
                liveness.connection_lost(now);
                false
            } else {
                true
            }
        },
    }
}

/// Whether a packet from the adapter is to be sent: IPv4, and no reconnect
/// under way.
pub fn is_outgoing(packet: &[u8], reconnecting: bool) -> (send: bool)
    ensures
        send == (!reconnecting && packet@.len() > 0 && packet@[0] / 16 == 4),
{
    !reconnecting && packet.len() > 0 && packet[0] / 16 == 4
}

/// How a packet could not be encrypted.
#[derive(Clone, Copy, Debug, PartialEq, Eq, Structural)]
pub enum EncodeFailure {
    ExceedsMtu,
    InvalidIp,
    Other,
}

/// What the sending side does about a packet it could not send.
#[derive(Clone, Copy, Debug, PartialEq, Eq, Structural)]
pub enum OutgoingAction {
    /// Let the packet go.
    Drop,
    /// Ask for a reconnect.
    RequestReconnect,
    /// Stop.
    Fail,
}

/// The sending side of a session.
#[derive(Clone, Copy, Debug, PartialEq, Eq, Structural)]
pub struct Outgoing {
    /// Packets that were let go.
    pub dropped: u64,
}

impl Outgoing {
    pub fn new() -> (outgoing: Outgoing)
        ensures
            outgoing.dropped == 0,
    {
        Outgoing { dropped: 0 }
    }

    /// What to do about a packet that could not be encrypted, and what to
    /// print: one that is too large or malformed costs only itself.
    pub fn after_encode_failure(&mut self, failure: EncodeFailure) -> (step: (
        OutgoingAction,
        Option<String>,
    ))
        ensures
            if failure is Other {
                step.0 is Fail && step.1 is None && final(self).dropped == old(self).dropped
            } else {
                &&& step.0 is Drop
                &&& final(self).dropped == counter::capped(old(self).dropped + 1)
                &&& is_drop_warning(
                    step.1,
                    "Windows supplied an invalid or oversized IPv4 packet"@,
                    final(self).dropped,
                )
            },
    {
        match failure {
            EncodeFailure::ExceedsMtu | EncodeFailure::InvalidIp => {
                let warning = note_packet_drop(
                    &mut self.dropped,
                    "Windows supplied an invalid or oversized IPv4 packet",
                );
                (OutgoingAction::Drop, warning)
            },
            EncodeFailure::Other => (OutgoingAction::Fail, None),
        }
    }

    /// What to do about a packet that could not be sent, and what to print.
    pub fn after_send_failure(&mut self, kind: IoErrorKind) -> (step: (
        OutgoingAction,
        Option<String>,
    ))
        ensures
            if unavailable_kind(kind) {
                step.0 is RequestReconnect && step.1 is None && final(self).dropped == old(
                    self,
                ).dropped
            } else if transient_kind(kind) {
                &&& step.0 is Drop
                &&& final(self).dropped == counter::capped(old(self).dropped + 1)
                &&& is_drop_warning(
                    step.1,
                    "UDP send queue is temporarily unavailable"@,
                    final(self).dropped,
                )
            } else {
                step.0 is Fail && step.1 is None && final(self).dropped == old(self).dropped
            },
    {
        if is_peer_unavailable(kind) {
            (OutgoingAction::RequestReconnect, None)
        } else if is_transient_io(kind) {
            let warning = note_packet_drop(
                &mut self.dropped,
                "UDP send queue is temporarily unavailable",
            );
            (OutgoingAction::Drop, warning)
        } else {
            (OutgoingAction::Fail, None)
        }
    }
}

/// Junk on the wire neither keeps a session alive nor brings it down.
pub proof fn undecodable_datagrams_prove_nothing(state: Liveness, now: u128, at: u128)
    ensures
        after_receive_state(state, Received::Undecodable, now).action_at(at) == state.action_at(at),
        !is_fatal_receive(Received::Undecodable),
{
}

/// A receive that ran into its timeout or was interrupted means nothing, one
/// that found the peer gone is a loss, and any other failure is the end.
pub proof fn failed_receives_are_told_apart(state: Liveness, kind: IoErrorKind, now: u128)
    ensures
        kind is TimedOut || kind is WouldBlock || kind is Interrupted ==> after_receive_state(
            state,
            Received::Failed(kind),
            now,
        ) == state && !is_fatal_receive(Received::Failed(kind)) && transient_kind(kind),
        kind is ConnectionRefused || kind is ConnectionReset || kind is NotConnected || kind
            is HostUnreachable || kind is NetworkUnreachable ==> after_receive_state(
            state,
            Received::Failed(kind),
            now,
        ) == state.after_loss(now) && !is_fatal_receive(Received::Failed(kind))
            && !transient_kind(kind),
        is_fatal_receive(Received::Failed(kind)) <==> !unavailable_kind(kind) && !transient_kind(
            kind,
        ),
        timeout_kind(kind) ==> transient_kind(kind),
        transient_kind(kind) ==> timeout_kind(kind) || kind is Interrupted,
        kind is Other ==> is_fatal_receive(Received::Failed(kind)),
{
}

/// Whatever authenticates shows that the peer is there, whether it carries a
/// packet or nothing.
pub proof fn authentic_datagrams_prove_the_peer(state: Liveness, heard: u128, now: u128)
    requires
        heard <= now,
        now < heard + 9_000_000_000,
    ensures
        !(after_receive_state(state, Received::Packet, heard).action_at(now) is Reconnect),
        after_receive_state(state, Received::Keepalive, heard) == after_receive_state(
            state,
            Received::Packet,
            heard,
        ),
        !is_fatal_receive(Received::Packet),
        !is_fatal_receive(Received::Keepalive),
{
}

/// The polls, the refreshes and the room for a datagram.
pub proof fn duties_get_their_turn()
    ensures
        4 * UDP_POLL == 1_000_000_000,
        POLICY_REFRESH_INTERVAL == 30 * 1_000_000_000,
        DATAGRAM_BUFFER_LEN == u16::MAX,
        ERROR_BUFFER_OVERFLOW == 0x6f,
{
}

} // verus!
