use mousevpn_client::capture::{self, CaptureLoop};
use mousevpn_client::clock::SECOND;
use mousevpn_client::divert::Translation;
use mousevpn_client::error::{IoError, IoErrorKind};
use mousevpn_client::flow::{Disposition, FlowKey, FlowTable};
use mousevpn_client::incoming::{
    Command, Event, IncomingLoop, KeepaliveOutcome, Phase, Reception,
};
use mousevpn_client::ip::{IpAddr, Ipv4Addr};
use mousevpn_client::liveness::Liveness;
use mousevpn_client::packet::PROTOCOL_UDP;
use mousevpn_client::packet_loop::{
    EncodeFailure, Outgoing, OutgoingAction, PacketDisposition, WorkerStatus,
};
use mousevpn_client::session::SessionParameters;
use mousevpn_client::windivert::Address;
use mousevpn_client::ClientError;

const START: u128 = 1_000 * SECOND;

fn parameters() -> SessionParameters {
    SessionParameters {
        client_address: Ipv4Addr::new(10, 77, 0, 22),
        prefix_len: 24,
        dns: Ipv4Addr::new(10, 77, 0, 1),
        mtu: 1280,
    }
}

fn refused(kind: IoErrorKind) -> IoError {
    IoError { kind, detail: "refused".to_owned() }
}

fn turn() -> Event {
    Event::Turn { stopping: false, worker: WorkerStatus::Running }
}

/// Takes a loop to the point where the requests of a turn are collected.
fn collecting() -> IncomingLoop {
    let mut incoming = IncomingLoop::new(parameters(), START);
    assert_eq!(incoming.advance(turn(), START).command, Command::Receive);
    let step = incoming.advance(Event::Received(Reception::Undecodable), START);
    assert_eq!(step.command, Command::Collect);
    incoming
}

/// Takes a loop to the point where a new session is negotiated.
fn negotiating() -> IncomingLoop {
    let mut incoming = collecting();
    let step = incoming.advance(Event::Collected { reconnect: true }, START);
    assert_eq!(step.command, Command::RefreshPolicy);
    assert_eq!(step.lines, vec!["MOUSEVPN_STATE=reconnecting".to_owned()]);
    let step = incoming.advance(Event::PolicyRefreshed(Ok(())), START);
    assert_eq!(step.command, Command::Negotiate);
    incoming
}

#[test]
fn a_quiet_turn_follows_a_quiet_turn() {
    let mut incoming = collecting();
    let step = incoming.advance(Event::Collected { reconnect: false }, START);
    assert_eq!(step.command, Command::BeginTurn);
    assert_eq!(incoming, IncomingLoop::new(parameters(), START));
}

#[test]
fn a_request_to_stop_ends_the_loop_without_a_failure() {
    let mut incoming = IncomingLoop::new(parameters(), START);
    let event = Event::Turn { stopping: true, worker: WorkerStatus::Gone };
    let step = incoming.advance(event, START);
    assert_eq!(step.command, Command::Finish);
    assert!(step.failure.is_none());
    assert_eq!(incoming.advance(turn(), START).command, Command::Ignore);
}

#[test]
fn the_loop_ends_with_its_sending_side() {
    for (worker, message) in [
        (WorkerStatus::Finished(Ok(())), "Wintun packet worker stopped unexpectedly"),
        (WorkerStatus::Gone, "Wintun packet worker channel closed unexpectedly"),
        (WorkerStatus::Finished(Err(ClientError::platform("broken"))), "broken"),
    ] {
        let mut incoming = IncomingLoop::new(parameters(), START);
        let step = incoming.advance(Event::Turn { stopping: false, worker }, START);
        assert_eq!(step.command, Command::Finish);
        assert_eq!(step.failure.unwrap().message(), message);
    }
}

#[test]
fn a_packet_is_delivered_and_a_full_ring_is_reported() {
    let mut incoming = IncomingLoop::new(parameters(), START);
    incoming.advance(turn(), START);
    let step = incoming.advance(Event::Received(Reception::Packet), START + 5);
    assert_eq!(step.command, Command::Deliver);
    assert_eq!(incoming.liveness.peer_activity, START + 5);
    let step = incoming.advance(Event::Delivered(Ok(PacketDisposition::Dropped)), START + 5);
    assert_eq!(step.command, Command::Collect);
    assert_eq!(
        step.lines,
        vec![
            "MOUSEVPN_PACKET_WARNING=Wintun send ring is temporarily full; dropped packets=1"
                .to_owned()
        ]
    );
    assert_eq!(incoming.send_drops, 1);
}

#[test]
fn a_packet_that_cannot_be_delivered_ends_the_loop() {
    let mut incoming = IncomingLoop::new(parameters(), START);
    incoming.advance(turn(), START);
    incoming.advance(Event::Received(Reception::Packet), START);
    let step = incoming.advance(Event::Delivered(Err(ClientError::platform("gone"))), START);
    assert_eq!(step.command, Command::Finish);
    assert_eq!(step.failure.unwrap().message(), "gone");
}

#[test]
fn only_a_broken_socket_ends_the_loop() {
    for (kind, fatal) in [
        (IoErrorKind::TimedOut, false),
        (IoErrorKind::ConnectionReset, false),
        (IoErrorKind::Interrupted, false),
        (IoErrorKind::Other, true),
    ] {
        let mut incoming = IncomingLoop::new(parameters(), START);
        incoming.advance(turn(), START);
        let step = incoming.advance(Event::Received(Reception::Failed(refused(kind))), START);
        assert_eq!(step.command == Command::Finish, fatal);
        assert_eq!(
            step.failure.map(|failure| failure.message()),
            if fatal { Some("network I/O failed: refused".to_owned()) } else { None }
        );
    }
}

#[test]
fn a_keepalive_is_sent_when_it_is_due() {
    let mut incoming = collecting();
    let due = START + 3 * SECOND;
    let step = incoming.advance(Event::Collected { reconnect: false }, due);
    assert_eq!(step.command, Command::SendKeepalive);
    let step = incoming.advance(Event::KeepaliveSent(KeepaliveOutcome::Sent), due + 7);
    assert_eq!(step.command, Command::BeginTurn);
    assert_eq!(incoming.liveness.heartbeat, due);
}

#[test]
fn a_keepalive_that_finds_no_peer_counts_as_a_loss() {
    let mut incoming = collecting();
    incoming.advance(Event::Collected { reconnect: false }, START + 3 * SECOND);
    let outcome = KeepaliveOutcome::NotSent(refused(IoErrorKind::ConnectionRefused));
    let step = incoming.advance(Event::KeepaliveSent(outcome), START + 3 * SECOND);
    assert_eq!(step.command, Command::BeginTurn);
    assert!(incoming.liveness.lost);
    let mut incoming = collecting();
    incoming.advance(Event::Collected { reconnect: false }, START + 3 * SECOND);
    let outcome = KeepaliveOutcome::NotEncoded(ClientError::platform("no keys"));
    let step = incoming.advance(Event::KeepaliveSent(outcome), START + 3 * SECOND);
    assert_eq!(step.failure.unwrap().message(), "no keys");
}

#[test]
fn a_network_change_starts_a_reconnect() {
    let mut incoming = negotiating();
    assert!(incoming.reconnecting());
    let event = Event::Negotiated { result: Ok(parameters()), timeout: None };
    assert_eq!(incoming.advance(event, START).command, Command::InstallKeys);
    assert!(!incoming.reconnecting());
    let step = incoming.advance(Event::KeysInstalled(Ok(())), START + 9);
    assert_eq!(step.command, Command::BeginTurn);
    assert_eq!(step.lines, vec!["MOUSEVPN_STATE=reconnected".to_owned()]);
    assert_eq!(incoming.liveness, Liveness::new(START + 9));
}

#[test]
fn failed_attempts_to_reconnect_are_repeated() {
    let mut incoming = negotiating();
    let event = Event::Negotiated { result: Err(ClientError::HandshakeTimeout), timeout: None };
    let step = incoming.advance(event, START);
    assert_eq!(step.command, Command::BeginTurn);
    assert_eq!(
        step.lines,
        vec!["MOUSEVPN_RECONNECT_ERROR=server handshake timed out".to_owned()]
    );
    assert_eq!(incoming.phase, Phase::Starting);

    let mut incoming = collecting();
    incoming.advance(Event::Collected { reconnect: true }, START);
    let failure = ClientError::platform("no route");
    let step = incoming.advance(Event::PolicyRefreshed(Err(failure)), START);
    assert_eq!(step.command, Command::BeginTurn);
    assert_eq!(step.lines, vec!["MOUSEVPN_RECONNECT_ERROR=no route".to_owned()]);
}

#[test]
fn a_server_that_assigns_other_parameters_ends_the_session() {
    let mut incoming = negotiating();
    let other = SessionParameters { mtu: 1400, ..parameters() };
    let step = incoming.advance(Event::Negotiated { result: Ok(other), timeout: None }, START);
    assert_eq!(step.command, Command::Finish);
    assert_eq!(
        step.failure.unwrap().message(),
        "server changed tunnel parameters during reconnect"
    );
    assert_eq!(incoming.parameters, parameters());

    let mut incoming = negotiating();
    let timeout = Some(refused(IoErrorKind::Other));
    let step = incoming.advance(Event::Negotiated { result: Ok(parameters()), timeout }, START);
    assert_eq!(step.failure.unwrap().message(), "network I/O failed: refused");
}

#[test]
fn the_sending_side_lets_single_packets_go() {
    let mut outgoing = Outgoing::new();
    let (action, warning) = outgoing.after_encode_failure(EncodeFailure::ExceedsMtu);
    assert_eq!(action, OutgoingAction::Drop);
    assert_eq!(
        warning.as_deref(),
        Some(
            "MOUSEVPN_PACKET_WARNING=Windows supplied an invalid or oversized IPv4 packet; \
             dropped packets=1"
        )
    );
    let (action, warning) = outgoing.after_send_failure(IoErrorKind::WouldBlock);
    assert_eq!(action, OutgoingAction::Drop);
    assert_eq!(
        warning.as_deref(),
        Some(
            "MOUSEVPN_PACKET_WARNING=UDP send queue is temporarily unavailable; dropped packets=2"
        )
    );
    let (action, warning) = outgoing.after_encode_failure(EncodeFailure::InvalidIp);
    assert_eq!((action, warning), (OutgoingAction::Drop, None));
    let step = outgoing.after_send_failure(IoErrorKind::HostUnreachable);
    assert_eq!(step, (OutgoingAction::RequestReconnect, None));
    assert_eq!(outgoing.after_send_failure(IoErrorKind::Other), (OutgoingAction::Fail, None));
    let step = outgoing.after_encode_failure(EncodeFailure::Other);
    assert_eq!(step, (OutgoingAction::Fail, None));
    assert_eq!(outgoing.dropped, 3);
}

fn v4(a: u8, b: u8, c: u8, d: u8) -> IpAddr {
    IpAddr::V4(Ipv4Addr::new(a, b, c, d))
}

fn translation() -> Translation {
    Translation::new(v4(192, 168, 0, 189), v4(10, 77, 0, 22), v4(10, 77, 0, 1), 1280)
}

fn datagram(port: u16) -> Vec<u8> {
    let mut packet = vec![0_u8; 28];
    packet[0] = 0x45;
    packet[9] = PROTOCOL_UDP;
    packet[12..16].copy_from_slice(&[192, 168, 0, 189]);
    packet[16..20].copy_from_slice(&[1, 1, 1, 1]);
    packet[20..22].copy_from_slice(&port.to_be_bytes());
    packet[22..24].copy_from_slice(&443_u16.to_be_bytes());
    packet
}

/// A table that routes the flow from `port`.
fn routing(port: u16) -> FlowTable {
    let mut table = FlowTable::new();
    table.insert(
        FlowKey {
            protocol: PROTOCOL_UDP,
            local: v4(192, 168, 0, 189),
            local_port: port,
            remote: v4(1, 1, 1, 1),
            remote_port: 443,
        },
        Disposition::Tunnel,
    );
    table
}

#[test]
fn direct_packets_are_handed_back_before_any_is_encrypted() {
    let table = routing(2);
    let mut buffer: Vec<u8> = [datagram(1), datagram(2), datagram(3)].concat();
    let untouched = buffer.clone();
    let mut capture = CaptureLoop::new(0);
    let mut sent: Vec<&str> = Vec::new();
    let mut command = capture::Command::BeginTurn;
    loop {
        command = match command {
            capture::Command::BeginTurn => capture.turn(sent.len() > 1, 0).0,
            capture::Command::Receive => capture.received(Some((84, 3))),
            capture::Command::Measure { .. } => capture.measured(Some(28)).0,
            capture::Command::Inspect { start, end, index } => {
                assert_eq!(index * 28, start);
                capture
                    .inspected(
                        &mut buffer[start..end],
                        Address::zeroed(),
                        &table,
                        translation(),
                        None,
                        0,
                    )
                    .0
            }
            capture::Command::Flush => {
                sent.push("direct");
                let staged = &capture.capture.reinject;
                assert_eq!(staged.packets(), [&untouched[..28], &untouched[56..]].concat());
                capture.flushed()
            }
            capture::Command::Checksum { start, end, index } => {
                assert_eq!((start, end, index), (28, 56, 1));
                capture.summed(true)
            }
            capture::Command::Encrypt => {
                sent.push("tunnel");
                assert!(capture.capture.reinject.addresses().is_empty());
                assert_eq!(capture.take_tunnelled(), vec![(28, 56)]);
                capture::Command::BeginTurn
            }
            capture::Command::Finish => break,
            capture::Command::Stage { .. } | capture::Command::Ignore => unreachable!(),
        };
    }
    assert_eq!(sent, vec!["direct", "tunnel"]);
    assert_eq!(&buffer[40..44], &[10, 77, 0, 22]);
    assert_eq!(capture.capture.stats.batches, 1);
    assert_eq!(capture.capture.stats.passed, 2);
    assert_eq!(capture.capture.stats.tunnelled, 1);
}

#[test]
fn a_packet_that_cannot_be_measured_takes_the_rest_of_its_batch() {
    let mut capture = CaptureLoop::new(0);
    capture.turn(false, 0);
    assert_eq!(
        capture.received(Some((56, 2))),
        capture::Command::Measure { from: 0, to: 56 }
    );
    let (command, warning) = capture.measured(None);
    assert_eq!(command, capture::Command::Encrypt);
    assert_eq!(
        warning.as_deref(),
        Some(
            "MOUSEVPN_DIVERT_WARNING=abandoned 1 batch(es) after a packet WinDivert could not \
             parse"
        )
    );
    assert!(capture.take_tunnelled().is_empty());
}

#[test]
fn a_packet_without_checksums_is_let_go() {
    let mut capture = CaptureLoop::new(0);
    let mut packet = datagram(2);
    capture.turn(false, 0);
    capture.received(Some((28, 1)));
    capture.measured(Some(28));
    let table = routing(2);
    let address = Address::zeroed();
    capture.inspected(&mut packet, address, &table, translation(), None, 0);
    assert_eq!(capture.summed(false), capture::Command::Encrypt);
    assert!(capture.take_tunnelled().is_empty());
}

#[test]
fn room_is_made_for_a_packet_that_does_not_fit() {
    let mut capture = CaptureLoop::new(0);
    let table = FlowTable::new();
    capture.turn(false, 0);
    capture.received(Some((28 * 256, 256)));
    let mut commands = Vec::new();
    let mut packet = datagram(1);
    for _ in 0..256 {
        capture.measured(Some(28));
        let address = Address::zeroed();
        let step = capture.inspected(&mut packet, address, &table, translation(), None, 0);
        commands.push(step.0);
    }
    assert_eq!(commands[255], capture::Command::Flush);
    assert_eq!(capture.capture.reinject.addresses().len(), 255);
    let stage = capture::Command::Stage { start: 28 * 255, end: 28 * 256, index: 255 };
    assert_eq!(capture.flushed(), stage);
    assert_eq!(capture.stage(&packet, Address::zeroed()), capture::Command::Flush);
    assert_eq!(capture.capture.reinject.addresses().len(), 1);
    assert_eq!(capture.flushed(), capture::Command::Encrypt);
}

#[test]
fn a_handle_that_was_shut_down_ends_the_capture() {
    let mut capture = CaptureLoop::new(0);
    assert_eq!(capture.received(Some((28, 1))), capture::Command::Ignore);
    capture.turn(false, 0);
    assert_eq!(capture.received(None), capture::Command::Finish);
}
