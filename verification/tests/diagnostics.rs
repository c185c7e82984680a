use mousevpn_client::clock::{MILLISECOND, SECOND};
use mousevpn_client::diagnostics::{millis, percent, Diagnostics, Rtt, SendCounters, Sequence};

#[test]
fn counts_the_gaps_between_sequence_numbers() {
    let mut sequence = Sequence::default();
    for observed in [0, 1, 2, 5, 6] {
        sequence.observe(observed);
    }
    // Seven were sent and five arrived: three and four are missing.
    assert_eq!(sequence.interval(), (7, 2));
}

#[test]
fn reports_nothing_lost_once_a_gap_is_filled_late() {
    let mut sequence = Sequence::default();
    sequence.observe(0);
    sequence.observe(2);
    assert_eq!(sequence.interval(), (3, 1));
    // The straggler arrives in the next interval and closes the gap, so
    // reordering must not accumulate as loss.
    sequence.observe(1);
    sequence.observe(3);
    assert_eq!(sequence.interval(), (1, 0));
}

#[test]
fn reordering_alone_never_restarts_the_measurement() {
    // A datagram that merely arrives late must not be mistaken for a new
    // session: treating it that way throws away the interval it belongs
    // to and reports loss that did not happen.
    let mut sequence = Sequence::default();
    sequence.observe(4_000);
    let _ = sequence.interval();
    sequence.observe(3_999);
    assert_eq!(sequence.highest, 4_001);
}

#[test]
fn a_restarted_session_does_not_read_as_mass_loss() {
    let mut sequence = Sequence::default();
    sequence.observe(9_000);
    let _ = sequence.interval();
    sequence.observe(0);
    sequence.observe(1);
    assert_eq!(sequence.interval(), (2, 0));
}

#[test]
fn times_a_probe_only_against_its_own_send() {
    let start = 1_000 * SECOND;
    let mut diagnostics = Diagnostics::start(None, start);
    diagnostics.probe_sent(start);
    diagnostics.probe_answered(start + 40 * MILLISECOND);
    assert_eq!(diagnostics.rtt.count, 1);
    assert_eq!(millis(diagnostics.rtt.last), "40.0");
    // A reply with no probe outstanding measures nothing.
    diagnostics.probe_answered(start + 9 * SECOND);
    assert_eq!(diagnostics.rtt.count, 1);
}

#[test]
fn an_unanswered_probe_is_dropped_rather_than_timed_late() {
    let start = 1_000 * SECOND;
    let mut diagnostics = Diagnostics::start(None, start);
    diagnostics.probe_sent(start);
    diagnostics.probe_sent(start + 3 * SECOND);
    diagnostics.probe_answered(start + 3_050 * MILLISECOND);
    // Timed against the second probe, not the first one that went missing.
    assert_eq!(millis(diagnostics.rtt.last), "50.0");
    assert_eq!(diagnostics.probes_sent, 2);
    assert_eq!(diagnostics.probes_answered, 1);
}

#[test]
fn accumulates_sending_counters_across_threads() {
    let mut counters = SendCounters::default();
    counters.sent(1_200);
    counters.sent(300);
    counters.failed();
    assert_eq!(counters.snapshot(), (2, 1_500, 1));
}

#[test]
fn formats_without_floating_point() {
    assert_eq!(millis(24_350), "24.3");
    assert_eq!(millis(0), "0.0");
    assert_eq!(percent(1, 1_000), "0.1");
    assert_eq!(percent(0, 0), "0.0");
    assert_eq!(percent(5, 10), "50.0");
}

#[test]
fn measures_the_mean_of_the_round_trips() {
    let mut rtt = Rtt::default();
    assert_eq!(rtt.average(), 0);
    rtt.record(10 * MILLISECOND);
    rtt.record(30 * MILLISECOND);
    assert_eq!(rtt.average(), 20_000);
    assert_eq!((rtt.min, rtt.max, rtt.last, rtt.count), (10_000, 30_000, 30_000, 2));
}

#[test]
fn restarting_a_session_forgets_its_sequence_numbers() {
    let mut diagnostics = Diagnostics::start(Some("1"), 0);
    diagnostics.received(500, 100);
    diagnostics.session_restarted();
    assert_eq!(diagnostics.sequence.interval(), (0, 0));
    diagnostics.received(0, 100);
    assert_eq!(diagnostics.sequence.interval(), (1, 0));
}

#[test]
fn restarting_a_session_forgets_what_it_measured() {
    let mut diagnostics = Diagnostics::start(Some("1"), 7);
    diagnostics.received(500, 100);
    diagnostics.rejected();
    diagnostics.probe_sent(10 * MILLISECOND);
    diagnostics.probe_answered(30 * MILLISECOND);
    diagnostics.probe_sent(40 * MILLISECOND);
    diagnostics.session_restarted();
    assert_eq!((diagnostics.packets, diagnostics.bytes, diagnostics.rejected), (0, 0, 0));
    assert_eq!((diagnostics.probes_sent, diagnostics.probes_answered), (0, 0));
    assert_eq!(diagnostics.outstanding, None);
    let rtt = &diagnostics.rtt;
    assert_eq!((rtt.last, rtt.min, rtt.max, rtt.total, rtt.count), (0, 0, 0, 0, 0));
    assert_eq!(diagnostics.reported, 7);
}

#[test]
fn sending_counters_start_over_past_their_maximum() {
    let mut counters = SendCounters { packets: u64::MAX, bytes: u64::MAX, failed: u64::MAX };
    counters.sent(3);
    counters.failed();
    assert_eq!(counters.snapshot(), (0, 2, 0));
}
