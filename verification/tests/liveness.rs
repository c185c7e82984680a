use mousevpn_client::clock::{MILLISECOND, SECOND};
use mousevpn_client::liveness::{Action, Liveness, MAX_RECONNECT_BACKOFF};

const START: u128 = 1_000_000_000_000;

#[test]
fn schedules_keepalive_and_reconnect() {
    let start = START;
    let mut state = Liveness::new(start);
    assert_eq!(state.action(start + 2 * SECOND), Action::Nothing);
    assert_eq!(state.action(start + 3 * SECOND), Action::Keepalive);
    state.keepalive_sent(start + 3 * SECOND);
    assert_eq!(state.action(start + 9 * SECOND), Action::Reconnect);
}

#[test]
fn backs_off_reconnect_attempts() {
    let start = START;
    let mut state = Liveness::new(start);
    state.connection_lost(start);
    state.reconnect_attempted(start);
    assert_eq!(state.action(start + SECOND), Action::Nothing);
    assert_eq!(state.action(start + 2 * SECOND), Action::Reconnect);

    let mut now = start;
    for _ in 0..10 {
        now += 60 * SECOND;
        state.reconnect_attempted(now);
    }
    assert_eq!(state.action(now + MAX_RECONNECT_BACKOFF), Action::Reconnect);
}

#[test]
fn success_resets_backoff() {
    let start = START;
    let mut state = Liveness::new(start);
    state.connection_lost(start);
    for step in 0..5 {
        state.reconnect_attempted(start + step * 60 * SECOND);
    }
    state.reconnected(start + 600 * SECOND);
    state.connection_lost(start + 601 * SECOND);
    state.reconnect_attempted(start + 601 * SECOND);
    assert_eq!(state.action(start + 603 * SECOND), Action::Reconnect);
}

#[test]
fn repeated_loss_notifications_do_not_bypass_backoff() {
    let start = START;
    let mut state = Liveness::new(start);
    state.connection_lost(start);
    state.reconnect_attempted(start);
    state.connection_lost(start + 500 * MILLISECOND);
    assert_eq!(state.action(start + SECOND), Action::Nothing);
    assert_eq!(state.action(start + 2 * SECOND), Action::Reconnect);
}

#[test]
fn a_loss_is_acted_upon_at_once() {
    let mut state = Liveness::new(START);
    assert_eq!(state.action(START), Action::Nothing);
    state.connection_lost(START);
    assert_eq!(state.action(START), Action::Reconnect);
}

#[test]
fn packets_keep_a_session_alive() {
    let mut state = Liveness::new(START);
    state.packet_received(START + 8 * SECOND);
    assert_eq!(state.action(START + 9 * SECOND), Action::Keepalive);
    state.keepalive_sent(START + 9 * SECOND);
    assert_eq!(state.action(START + 10 * SECOND), Action::Nothing);
}
