//! Field diagnostics for the split tunnel.
//!
//! How much traffic actually crosses the tunnel, how far away the server is,
//! and how much is lost on the way. Everything goes out as `MOUSEVPN_DIAG=`
//! lines.

use vstd::prelude::*;

use crate::{clock, counter, text};

verus! {

/// How often a summary line is emitted.
pub const REPORT_INTERVAL: u128 = 5_000_000_000;

/// How far behind the highest sequence a datagram may arrive and still count
/// as reordering rather than a session that started numbering again.
///
/// Ordinary reordering spans a handful of datagrams. A session restart drops
/// the sequence from wherever it had reached back to zero, which no path can
/// produce by delaying packets.
pub const REORDER_WINDOW: u64 = 4_096;

/// Counters of the sending side.
#[derive(Clone, Copy, Debug, PartialEq, Eq, Structural)]
pub struct SendCounters {
    pub packets: u64,
    pub bytes: u64,
    pub failed: u64,
}

/// `n` reduced to what a counter that wraps around shows.
pub open spec fn wrapped(n: int) -> u64 {
    (n % 0x1_0000_0000_0000_0000) as u64
}

impl Default for SendCounters {
    fn default() -> (counters: SendCounters)
        ensures
            counters == (SendCounters { packets: 0, bytes: 0, failed: 0 }),
    {
        SendCounters { packets: 0, bytes: 0, failed: 0 }
    }
}

impl SendCounters {
    /// Records one packet handed to the transport.
    pub fn sent(&mut self, bytes: usize)
        ensures
            final(self).packets == wrapped(old(self).packets + 1),
            final(self).bytes == wrapped(old(self).bytes + bytes),
            final(self).failed == old(self).failed,
    {
        self.packets = self.packets.wrapping_add(1);
        self.bytes = self.bytes.wrapping_add(bytes as u64);
    }

    /// Records one packet that never reached the wire.
    pub fn failed(&mut self)
        ensures
            final(self).failed == wrapped(old(self).failed + 1),
            final(self).packets == old(self).packets,
            final(self).bytes == old(self).bytes,
    {
        self.failed = self.failed.wrapping_add(1);
    }

    /// The packets, the bytes and the failures so far.
    pub fn snapshot(&self) -> (counts: (u64, u64, u64))
        ensures
            counts == (self.packets, self.bytes, self.failed),
    {
        (self.packets, self.bytes, self.failed)
    }
}

/// Round-trip times observed over one reporting interval, in microseconds.
#[derive(Clone, Copy, Debug, PartialEq, Eq, Structural)]
pub struct Rtt {
    pub last: u64,
    pub min: u64,
    pub max: u64,
    pub total: u64,
    pub count: u64,
}

/// A span of time in whole microseconds.
pub open spec fn micros(span: u128) -> u64 {
    counter::capped((span / clock::MICROSECOND) as int)
}

impl Default for Rtt {
    fn default() -> (rtt: Rtt)
        ensures
            rtt == (Rtt { last: 0, min: 0, max: 0, total: 0, count: 0 }),
    {
        Rtt { last: 0, min: 0, max: 0, total: 0, count: 0 }
    }
}

impl Rtt {
    /// These times together with one more.
    pub open spec fn with(&self, span: u128) -> Rtt {
        let time = micros(span);
        Rtt {
            last: time,
            min: if self.count == 0 || time < self.min { time } else { self.min },
            max: if time > self.max { time } else { self.max },
            total: counter::capped(self.total + time),
            count: counter::capped(self.count + 1),
        }
    }

    pub open spec fn mean(&self) -> nat {
        self.total as nat / (if self.count == 0 { 1nat } else { self.count as nat })
    }

    pub fn record(&mut self, span: u128)
        ensures
            *final(self) == old(self).with(span),
    {
        let whole: u128 = span / clock::MICROSECOND;
        let time: u64 = if whole > u64::MAX as u128 {
            u64::MAX
        } else {
            whole as u64
        };
        self.last = time;
        self.min = if self.count == 0 || time < self.min {
            time
        } else {
            self.min
        };
        self.max = if time > self.max {
            time
        } else {
            self.max
        };
        self.total = counter::sum(self.total, time);
        self.count = counter::sum(self.count, 1);
    }

    pub fn average(&self) -> (mean: u64)
        ensures
            mean == self.mean(),
    {
        let count: u64 = if self.count == 0 {
            1
        } else {
            self.count
        };
        self.total / count
    }
}

/// Tracks gaps in the protocol's per-datagram sequence.
///
/// The header numbers every datagram the server sends, so a gap is a datagram
/// that did not arrive. This measures loss on the path from the server to this
/// machine only. Loss in the other direction is invisible from here, and
/// reporting a number for it would be guesswork.
#[derive(Clone, Copy, Debug, PartialEq, Eq, Structural)]
pub struct Sequence {
    /// One past the highest sequence seen, so zero means nothing yet.
    pub highest: u64,
    pub received: u64,
    /// The two values above as of the previous report.
    pub reported_highest: u64,
    pub reported_received: u64,
}

/// `a - b`, or nothing where `b` is the larger.
pub open spec fn excess(a: int, b: int) -> u64 {
    if a >= b {
        (a - b) as u64
    } else {
        0
    }
}

impl Default for Sequence {
    fn default() -> (sequence: Sequence)
        ensures
            sequence == Sequence::none(),
    {
        Sequence { highest: 0, received: 0, reported_highest: 0, reported_received: 0 }
    }
}

impl Sequence {
    pub open spec fn none() -> Sequence {
        Sequence { highest: 0, received: 0, reported_highest: 0, reported_received: 0 }
    }

    /// Whether a datagram numbered `sequence` starts the numbering anew.
    pub open spec fn restarts(&self, sequence: u64) -> bool {
        self.highest - counter::capped(sequence + 1) > REORDER_WINDOW
    }

    /// This state once a datagram numbered `sequence` has arrived.
    pub open spec fn with(&self, sequence: u64) -> Sequence {
        let position = counter::capped(sequence + 1);
        let base = if self.restarts(sequence) { Sequence::none() } else { *self };
        Sequence {
            highest: if position > base.highest { position } else { base.highest },
            received: counter::capped(base.received + 1),
            ..base
        }
    }

    /// The datagrams expected since the last report.
    pub open spec fn expected(&self) -> u64 {
        excess(self.highest as int, self.reported_highest as int)
    }

    /// The datagrams missing since the last report.
    pub open spec fn missing(&self) -> u64 {
        excess(
            self.expected() as int,
            excess(self.received as int, self.reported_received as int) as int,
        )
    }

    /// Notes the arrival of a datagram.
    ///
    /// A reconnect starts a session whose numbering restarts at zero. Without
    /// noticing, its first datagram would read as millions of losses. The
    /// window keeps a merely late datagram from triggering the same reset and
    /// discarding a real measurement.
    pub fn observe(&mut self, sequence: u64)
        ensures
            *final(self) == old(self).with(sequence),
    {
        let position = counter::sum(sequence, 1);
        if self.highest > position && self.highest - position > REORDER_WINDOW {
            self.restart();
        }
        if position > self.highest {
            self.highest = position;
        }
        self.received = counter::sum(self.received, 1);
    }

    /// Forgets every datagram.
    pub fn restart(&mut self)
        ensures
            *final(self) == Sequence::none(),
    {
        self.highest = 0;
        self.received = 0;
        self.reported_highest = 0;
        self.reported_received = 0;
    }

    /// Returns the datagrams expected and the ones missing since the last
    /// report: a datagram that arrives late simply closes its gap in a later
    /// interval.
    pub fn interval(&mut self) -> (counts: (u64, u64))
        ensures
            counts == (old(self).expected(), old(self).missing()),
            *final(self) == (Sequence {
                reported_highest: old(self).highest,
                reported_received: old(self).received,
                ..*old(self)
            }),
    {
        let expected: u64 = if self.highest >= self.reported_highest {
            self.highest - self.reported_highest
        } else {
            0
        };
        let received: u64 = if self.received >= self.reported_received {
            self.received - self.reported_received
        } else {
            0
        };
        self.reported_highest = self.highest;
        self.reported_received = self.received;
        let missing: u64 = if expected >= received {
            expected - received
        } else {
            0
        };
        (expected, missing)
    }
}

/// The state after all of `arrivals`, in order.
pub open spec fn observed(start: Sequence, arrivals: Seq<u64>) -> Sequence
    decreases arrivals.len(),
{
    if arrivals.len() == 0 {
        start
    } else {
        observed(start, arrivals.drop_last()).with(arrivals.last())
    }
}

/// Arrivals within the reordering window of the start of a session.
pub open spec fn is_short(arrivals: Seq<u64>) -> bool {
    forall|i: int| 0 <= i < arrivals.len() ==> #[trigger] arrivals[i] < REORDER_WINDOW
}

proof fn lemma_observed(arrivals: Seq<u64>)
    requires
        is_short(arrivals),
        arrivals.len() < u64::MAX,
    ensures
        ({
            let state = observed(Sequence::none(), arrivals);
            &&& state.received == arrivals.len()
            &&& state.reported_highest == 0
            &&& state.reported_received == 0
            &&& state.highest <= REORDER_WINDOW
            &&& forall|i: int|
                0 <= i < arrivals.len() ==> (#[trigger] arrivals[i]) < state.highest
            &&& state.highest > 0 ==> exists|i: int|
                0 <= i < arrivals.len() && #[trigger] arrivals[i] == state.highest - 1
        }),
    decreases arrivals.len(),
{
    if arrivals.len() > 0 {
        let rest = arrivals.drop_last();
        assert(is_short(rest)) by {
            assert forall|i: int| 0 <= i < rest.len() implies #[trigger] rest[i]
                < REORDER_WINDOW by {
                assert(arrivals[i] < REORDER_WINDOW);
            }
        }
        lemma_observed(rest);
        let before = observed(Sequence::none(), rest);
        let state = observed(Sequence::none(), arrivals);
        assert(arrivals[arrivals.len() - 1] < REORDER_WINDOW);
        assert forall|i: int| 0 <= i < arrivals.len() implies (#[trigger] arrivals[i])
            < state.highest by {
            if i < rest.len() {
                assert(rest[i] < before.highest);
            }
        }
        if state.highest > before.highest {
            assert(arrivals[arrivals.len() - 1] == state.highest - 1);
        } else {
            let i = choose|i: int|
                0 <= i < rest.len() && #[trigger] rest[i] == before.highest - 1;
            assert(arrivals[i] == state.highest - 1);
        }
    }
}

/// Reordering alone is no loss: where each of the first numbers of a session
/// arrives once, in whatever order, nothing is reported missing.
pub proof fn reordering_is_not_loss(arrivals: Seq<u64>)
    requires
        is_short(arrivals),
        arrivals.len() <= REORDER_WINDOW,
        arrivals.no_duplicates(),
        forall|n: u64| n < arrivals.len() ==> arrivals.contains(n),
    ensures
        observed(Sequence::none(), arrivals).expected() == arrivals.len(),
        observed(Sequence::none(), arrivals).missing() == 0,
{
    lemma_observed(arrivals);
    let state = observed(Sequence::none(), arrivals);
    let n = arrivals.len();
    lemma_pigeonhole(arrivals, n as int);
    if state.highest > 0 {
        let i = choose|i: int| 0 <= i < arrivals.len() && #[trigger] arrivals[i] == state.highest - 1;
        assert(arrivals[i] < n);
    }
    if n > 0 {
        assert(arrivals.contains((n - 1) as u64));
        let i = choose|i: int| 0 <= i < arrivals.len() && arrivals[i] == (n - 1) as u64;
        assert(arrivals[i] < state.highest);
    }
}

/// `n` different numbers among which are all those below `n` are those below
/// `n`.
proof fn lemma_pigeonhole(arrivals: Seq<u64>, n: int)
    requires
        arrivals.no_duplicates(),
        arrivals.len() == n,
        n <= u64::MAX,
        forall|k: u64| k < n ==> arrivals.contains(k),
    ensures
        forall|i: int| 0 <= i < n ==> #[trigger] arrivals[i] < n,
{
    let present = arrivals.to_set();
    let low = Set::new(|k: u64| k < n);
    arrivals.unique_seq_to_set();
    vstd::seq_lib::seq_to_set_is_finite(arrivals);
    lemma_low_numbers(n);
    assert(low.subset_of(present)) by {
        assert forall|k: u64| low.contains(k) implies present.contains(k) by {
            assert(arrivals.contains(k));
        }
    }
    vstd::set_lib::lemma_subset_equality(low, present);
    assert forall|i: int| 0 <= i < n implies #[trigger] arrivals[i] < n by {
        assert(present.contains(arrivals[i]));
        assert(low.contains(arrivals[i]));
    }
}

proof fn lemma_low_numbers(n: int)
    requires
        0 <= n <= u64::MAX,
    ensures
        Set::new(|k: u64| k < n).finite(),
        Set::new(|k: u64| k < n).len() == n,
    decreases n,
{
    let low = Set::new(|k: u64| k < n);
    if n == 0 {
        assert(low =~= Set::<u64>::empty());
    } else {
        lemma_low_numbers(n - 1);
        let fewer = Set::new(|k: u64| k < n - 1);
        assert(low =~= fewer.insert((n - 1) as u64));
    }
}

/// A datagram that arrives within the reordering window never discards what
/// was measured, and one far behind it starts the measurement anew.
pub proof fn only_a_restart_discards_the_measurement(state: Sequence, sequence: u64)
    ensures
        state.highest <= sequence + 1 + REORDER_WINDOW ==> state.with(sequence).highest
            >= state.highest && state.with(sequence).reported_highest == state.reported_highest,
        state.highest > sequence + 1 + REORDER_WINDOW ==> state.with(sequence)
            == Sequence::none().with(sequence),
{
}

/// Microseconds as milliseconds with one decimal.
pub open spec fn millis_text(time: nat) -> Seq<char> {
    text::decimal(time / 100 / 10) + "."@ + text::decimal(time / 100 % 10)
}

/// Formats microseconds as milliseconds with one decimal, in integers.
pub fn millis(time: u64) -> (result: String)
    ensures
        result@ == millis_text(time as nat),
{
    let tenths: u64 = time / 100;
    let mut result = text::decimal_text((tenths / 10) as u128);
    result.append(".");
    text::push_decimal(&mut result, (tenths % 10) as u128);
    result
}

/// The tenths of a percent that `part` is of `whole`.
pub open spec fn per_mille(part: u64, whole: u64) -> nat {
    counter::capped(part * 1000) as nat / whole as nat
}

/// A ratio as a percentage with one decimal.
pub open spec fn percent_text(part: u64, whole: u64) -> Seq<char> {
    if whole == 0 {
        "0.0"@
    } else {
        text::decimal(per_mille(part, whole) / 10) + "."@ + text::decimal(
            per_mille(part, whole) % 10,
        )
    }
}

/// Formats a ratio as a percentage with one decimal, in integers.
pub fn percent(part: u64, whole: u64) -> (result: String)
    ensures
        result@ == percent_text(part, whole),
{
    if whole == 0 {
        return text::owned("0.0");
    }
    let tenths: u64 = counter::product(part, 1_000) / whole;
    let mut result = text::decimal_text((tenths / 10) as u128);
    result.append(".");
    text::push_decimal(&mut result, (tenths % 10) as u128);
    result
}

/// The session's traffic, latency and loss.
#[derive(Clone, Copy, Debug, PartialEq, Eq, Structural)]
pub struct Diagnostics {
    pub enabled: bool,
    /// When the last summary was emitted.
    pub reported: u128,
    /// The sending counters as of the last summary.
    pub sent: SendCounters,
    pub packets: u64,
    pub bytes: u64,
    pub rejected: u64,
    pub probes_sent: u64,
    pub probes_answered: u64,
    /// When the probe that is not answered yet was sent.
    pub outstanding: Option<u128>,
    pub rtt: Rtt,
    pub sequence: Sequence,
}

/// The settings that switch the diagnostics off.
pub open spec fn is_off(setting: Option<Seq<char>>) -> bool {
    setting == Some("0"@) || setting == Some("off"@) || setting == Some("false"@)
}

/// The summary line of an interval.
pub open spec fn summary_text(
    state: Diagnostics,
    counters: SendCounters,
) -> Seq<char> {
    "MOUSEVPN_DIAG=up_pkt="@ + text::decimal(
        excess(counters.packets as int, state.sent.packets as int) as nat,
    ) + " up_kb="@ + text::decimal(excess(counters.bytes as int, state.sent.bytes as int) as nat / 1024)
        + " up_fail="@ + text::decimal(excess(counters.failed as int, state.sent.failed as int) as nat)
        + " down_pkt="@ + text::decimal(state.packets as nat) + " down_kb="@ + text::decimal(
        state.bytes as nat / 1024,
    ) + " down_lost="@ + text::decimal(state.sequence.missing() as nat) + "/"@ + text::decimal(
        state.sequence.expected() as nat,
    ) + " down_loss_pct="@ + percent_text(state.sequence.missing(), state.sequence.expected())
        + " down_bad="@ + text::decimal(state.rejected as nat) + " ping_ms="@ + millis_text(
        state.rtt.mean(),
    ) + " ping_min="@ + millis_text(state.rtt.min as nat) + " ping_max="@ + millis_text(
        state.rtt.max as nat,
    ) + " probes="@ + text::decimal(state.probes_answered as nat) + "/"@ + text::decimal(
        state.probes_sent as nat,
    )
}

fn reduced(a: u64, b: u64) -> (difference: u64)
    ensures
        difference == excess(a as int, b as int),
{
    if a >= b {
        a - b
    } else {
        0
    }
}

impl Diagnostics {
    /// Starts collecting unless `setting` switches it off.
    pub fn start(setting: Option<&str>, now: u128) -> (diagnostics: Diagnostics)
        ensures
            diagnostics == (Diagnostics {
                enabled: !is_off(
                    match setting {
                        Some(s) => Some(s@),
                        None => None,
                    },
                ),
                reported: now,
                sent: SendCounters { packets: 0, bytes: 0, failed: 0 },
                packets: 0,
                bytes: 0,
                rejected: 0,
                probes_sent: 0,
                probes_answered: 0,
                outstanding: None,
                rtt: Rtt { last: 0, min: 0, max: 0, total: 0, count: 0 },
                sequence: Sequence::none(),
            }),
    {
        let off = match setting {
            Some(value) => text::same(value, "0") || text::same(value, "off") || text::same(
                value,
                "false",
            ),
            None => false,
        };
        Diagnostics {
            enabled: !off,
            reported: now,
            sent: SendCounters { packets: 0, bytes: 0, failed: 0 },
            packets: 0,
            bytes: 0,
            rejected: 0,
            probes_sent: 0,
            probes_answered: 0,
            outstanding: None,
            rtt: Rtt { last: 0, min: 0, max: 0, total: 0, count: 0 },
            sequence: Sequence {
                highest: 0,
                received: 0,
                reported_highest: 0,
                reported_received: 0,
            },
        }
    }

    /// The line that announces the diagnostics, where they are on.
    pub fn announcement(&self) -> (line: Option<String>)
        ensures
            line is Some <==> self.enabled,
            line matches Some(l) ==> l@
                == "MOUSEVPN_DIAG=started interval_s=5 note=set MOUSEVPN_DIAG=0 to silence"@,
    {
        if self.enabled {
            Some(
                text::owned(
                    "MOUSEVPN_DIAG=started interval_s=5 note=set MOUSEVPN_DIAG=0 to silence",
                ),
            )
        } else {
            None
        }
    }

    /// Records one datagram accepted from the server.
    pub fn received(&mut self, sequence: u64, bytes: usize)
        ensures
            *final(self) == (Diagnostics {
                packets: counter::capped(old(self).packets + 1),
                bytes: counter::capped(old(self).bytes + bytes),
                sequence: old(self).sequence.with(sequence),
                ..*old(self)
            }),
    {
        self.packets = counter::sum(self.packets, 1);
        self.bytes = counter::sum(self.bytes, bytes as u64);
        self.sequence.observe(sequence);
    }

    /// Records one datagram that failed to decode or authenticate.
    ///
    /// This is not path loss: the datagram arrived. It is either a stale
    /// session's traffic or something on the path rewriting bytes, and telling
    /// those apart from loss is the reason it is counted separately.
    pub fn rejected(&mut self)
        ensures
            *final(self) == (Diagnostics {
                rejected: counter::capped(old(self).rejected + 1),
                ..*old(self)
            }),
    {
        self.rejected = counter::sum(self.rejected, 1);
    }

    /// Marks a keepalive as sent, starting the round-trip clock.
    ///
    /// An unanswered probe is abandoned rather than measured late: the reply
    /// to this one would otherwise be timed against the older send and report
    /// a round trip that never happened.
    pub fn probe_sent(&mut self, now: u128)
        ensures
            *final(self) == (Diagnostics {
                probes_sent: counter::capped(old(self).probes_sent + 1),
                outstanding: Some(now),
                ..*old(self)
            }),
    {
        self.probes_sent = counter::sum(self.probes_sent, 1);
        self.outstanding = Some(now);
    }

    /// Closes the round trip when the server's keepalive comes back.
    pub fn probe_answered(&mut self, now: u128)
        ensures
            *final(self) == (match old(self).outstanding {
                None => *old(self),
                Some(sent) => Diagnostics {
                    outstanding: None,
                    probes_answered: counter::capped(old(self).probes_answered + 1),
                    rtt: old(self).rtt.with(clock::span(now, sent)),
                    ..*old(self)
                },
            }),
    {
        if let Some(sent) = self.outstanding {
            self.outstanding = None;
            self.probes_answered = counter::sum(self.probes_answered, 1);
            self.rtt.record(clock::elapsed(now, sent));
        }
    }

    /// Forgets everything the previous session measured.
    ///
    /// What was sent is counted by the sender, across sessions.
    pub fn session_restarted(&mut self)
        ensures
            *final(self) == (Diagnostics {
                packets: 0,
                bytes: 0,
                rejected: 0,
                probes_sent: 0,
                probes_answered: 0,
                outstanding: None,
                rtt: Rtt { last: 0, min: 0, max: 0, total: 0, count: 0 },
                sequence: Sequence::none(),
                ..*old(self)
            }),
    {
        self.packets = 0;
        self.bytes = 0;
        self.rejected = 0;
        self.probes_sent = 0;
        self.probes_answered = 0;
        self.outstanding = None;
        self.rtt = Rtt { last: 0, min: 0, max: 0, total: 0, count: 0 };
        self.sequence.restart();
    }

    /// The summary line, once the interval has elapsed.
    pub fn report(&mut self, counters: &SendCounters, now: u128) -> (line: Option<String>)
        ensures
            ({
                let due = old(self).enabled && clock::span(now, old(self).reported)
                    >= REPORT_INTERVAL;
                &&& line is Some <==> due
                &&& line matches Some(l) ==> l@ == summary_text(*old(self), *counters)
                &&& *final(self) == (if due {
                    Diagnostics {
                        reported: now,
                        sent: *counters,
                        packets: 0,
                        bytes: 0,
                        rejected: 0,
                        probes_sent: 0,
                        probes_answered: 0,
                        rtt: Rtt { last: 0, min: 0, max: 0, total: 0, count: 0 },
                        sequence: Sequence {
                            reported_highest: old(self).sequence.highest,
                            reported_received: old(self).sequence.received,
                            ..old(self).sequence
                        },
                        ..*old(self)
                    }
                } else {
                    *old(self)
                })
            }),
    {
        if !self.enabled || clock::elapsed(now, self.reported) < REPORT_INTERVAL {
            return None;
        }
        self.reported = now;
        let sent = counters.snapshot();
        let up_packets = reduced(sent.0, self.sent.packets);
        let up_bytes = reduced(sent.1, self.sent.bytes);
        let up_failed = reduced(sent.2, self.sent.failed);
        self.sent = *counters;
        let (expected, lost) = self.sequence.interval();
        let mut line = text::owned("MOUSEVPN_DIAG=up_pkt=");
        text::push_decimal(&mut line, up_packets as u128);
        line.append(" up_kb=");
        text::push_decimal(&mut line, (up_bytes / 1024) as u128);
        line.append(" up_fail=");
        text::push_decimal(&mut line, up_failed as u128);
        line.append(" down_pkt=");
        text::push_decimal(&mut line, self.packets as u128);
        line.append(" down_kb=");
        text::push_decimal(&mut line, (self.bytes / 1024) as u128);
        line.append(" down_lost=");
        text::push_decimal(&mut line, lost as u128);
        line.append("/");
        text::push_decimal(&mut line, expected as u128);
        line.append(" down_loss_pct=");
        line.append(percent(lost, expected).as_str());
        line.append(" down_bad=");
        text::push_decimal(&mut line, self.rejected as u128);
        line.append(" ping_ms=");
        line.append(millis(self.rtt.average()).as_str());
        line.append(" ping_min=");
        line.append(millis(self.rtt.min).as_str());
        line.append(" ping_max=");
        line.append(millis(self.rtt.max).as_str());
        line.append(" probes=");
        text::push_decimal(&mut line, self.probes_answered as u128);
        line.append("/");
        text::push_decimal(&mut line, self.probes_sent as u128);
        self.packets = 0;
        self.bytes = 0;
        self.rejected = 0;
        self.probes_sent = 0;
        self.probes_answered = 0;
        self.rtt = Rtt { last: 0, min: 0, max: 0, total: 0, count: 0 };
        Some(line)
    }
}

/// A datagram that arrives `gap` numbers late in the sequence leaves `gap`
/// missing since the last report, and each one that arrives after all is one
/// missing less.
pub proof fn gaps_are_missing_until_they_close(state: Sequence, gap: u64, late: u64)
    requires
        state.highest + gap + 1 <= u64::MAX,
        state.received + 2 <= u64::MAX,
        state.reported_highest == state.highest,
        state.reported_received == state.received,
        state.highest <= late < state.highest + gap,
        gap <= 4_096,
    ensures
        ({
            let after_gap = state.with((state.highest + gap) as u64);
            &&& state.expected() == 0
            &&& state.missing() == 0
            &&& after_gap.expected() == gap + 1
            &&& after_gap.missing() == gap
            &&& after_gap.with(late).expected() == gap + 1
            &&& after_gap.with(late).missing() == gap - 1
        }),
{
}

/// A number more than 4096 behind belongs to a new session: the first of them
/// is expected alone, and nothing is missing of a session that starts with it.
pub proof fn a_new_session_starts_from_nothing(state: Sequence, sequence: u64)
    ensures
        state.highest > sequence + 1 + 4_096 ==> ({
            let restarted = state.with(sequence);
            &&& restarted.received == 1
            &&& restarted.expected() == sequence + 1
            &&& restarted.missing() == sequence
        }),
        state.highest <= sequence + 1 + 4_096 && state.received < u64::MAX ==> state.with(
            sequence,
        ).received == state.received + 1,
        REPORT_INTERVAL == 5 * 1_000_000_000,
{
}

/// Round trips are counted in whole microseconds: the shortest and the longest
/// bound the last, and two of them average to half of their sum.
pub proof fn round_trips_average(a: u128, b: u128)
    requires
        a < 1_000_000_000_000_000_000,
        b < 1_000_000_000_000_000_000,
    ensures
        ({
            let start = Rtt { last: 0, min: 0, max: 0, total: 0, count: 0 };
            let once = start.with(a);
            let twice = once.with(b);
            &&& once.last == a / 1000
            &&& once.min == once.last && once.max == once.last && once.mean() == once.last
            &&& twice.last == b / 1000
            &&& twice.min == (if a / 1000 <= b / 1000 { a / 1000 } else { b / 1000 })
            &&& twice.max == (if a / 1000 >= b / 1000 { a / 1000 } else { b / 1000 })
            &&& twice.count == 2
            &&& twice.mean() == (a / 1000 + b / 1000) / 2
            &&& start.mean() == 0
        }),
{
    let start = Rtt { last: 0, min: 0, max: 0, total: 0, count: 0 };
    let once = start.with(a);
    let t = once.total as nat;
    assert(t / 1 == t) by (nonlinear_arith);
    assert(0nat / 1 == 0) by (nonlinear_arith);
}

/// A time of `whole` milliseconds and `tenth` tenths is written as such, and
/// what is left of a tenth is cut off.
pub proof fn milliseconds_show_one_decimal(whole: nat, tenth: nat, rest: nat)
    requires
        tenth < 10,
        rest < 100,
    ensures
        millis_text(1000 * whole + 100 * tenth + rest) == text::decimal(whole) + "."@
            + text::decimal(tenth),
{
    let time = 1000 * whole + 100 * tenth + rest;
    assert(time / 100 == 10 * whole + tenth);
    assert((10 * whole + tenth) / 10 == whole);
    assert((10 * whole + tenth) % 10 == tenth);
}

/// A part that lies between `n` and `n + 1` thousandths of the whole is shown
/// as `n` tenths of a percent.
pub proof fn percentages_show_one_decimal(part: u64, whole: u64, percents: nat, tenth: nat)
    requires
        whole > 0,
        tenth < 10,
        part * 1000 <= u64::MAX,
        (10 * percents + tenth) * whole <= part * 1000,
        part * 1000 < (10 * percents + tenth + 1) * whole,
    ensures
        percent_text(part, whole) == text::decimal(percents) + "."@ + text::decimal(tenth),
        percent_text(part, 0) == "0.0"@,
{
    let n = 10 * percents + tenth;
    let p = part * 1000;
    let w = whole as int;
    assert(p / w == n) by (nonlinear_arith)
        requires
            w > 0,
            n * w <= p,
            p < (n + 1) * w,
    ;
    assert(n / 10 == percents);
    assert(n % 10 == tenth);
}

/// A summary tells what went out since the last one, what came in, what was
/// lost and how long round trips took, each behind its name.
pub proof fn summaries_tell_what_happened(
    state: Diagnostics,
    counters: SendCounters,
    packets: u64,
    kilobytes: u64,
    failed: u64,
    rest: u64,
)
    requires
        counters.packets == state.sent.packets + packets,
        counters.bytes == state.sent.bytes + 1024 * kilobytes + rest,
        counters.failed == state.sent.failed + failed,
        rest < 1024,
    ensures
        summary_text(state, counters) == "MOUSEVPN_DIAG=up_pkt="@ + text::decimal(packets as nat)
            + " up_kb="@ + text::decimal(kilobytes as nat) + " up_fail="@ + text::decimal(
            failed as nat,
        ) + " down_pkt="@ + text::decimal(state.packets as nat) + " down_kb="@ + text::decimal(
            state.bytes as nat / 1024,
        ) + " down_lost="@ + text::decimal(state.sequence.missing() as nat) + "/"@
            + text::decimal(state.sequence.expected() as nat) + " down_loss_pct="@ + percent_text(
            state.sequence.missing(),
            state.sequence.expected(),
        ) + " down_bad="@ + text::decimal(state.rejected as nat) + " ping_ms="@ + millis_text(
            state.rtt.mean(),
        ) + " ping_min="@ + millis_text(state.rtt.min as nat) + " ping_max="@ + millis_text(
            state.rtt.max as nat,
        ) + " probes="@ + text::decimal(state.probes_answered as nat) + "/"@ + text::decimal(
            state.probes_sent as nat,
        ),
{
    assert((1024 * kilobytes + rest) / 1024 == kilobytes);
}

/// Only three settings silence the diagnostics.
pub proof fn diagnostics_are_on_unless_silenced(setting: Seq<char>)
    ensures
        !is_off(None),
        is_off(Some(setting)) <==> setting == "0"@ || setting == "off"@ || setting == "false"@,
{
}

} // verus!
