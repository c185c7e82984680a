//! How reliable each protocol has proved to be.
//!
//! A running session reports counters that only grow. What they grew by is
//! added to the totals of the protocol, and the totals are compared.

use vstd::prelude::*;

use crate::profiles::ClientProtocol;
use crate::{assoc, counter, text};

verus! {

/// The form of the stored totals.
pub const FORMAT_VERSION: u8 = 1;

/// How long a protocol has to be observed before it is judged, in seconds.
pub const MINIMUM_OBSERVATION_SECONDS: u64 = 300;

/// How many keepalives it has to have sent.
pub const MINIMUM_KEEPALIVES: u64 = 20;

/// The counters of a session since its start.
#[derive(Clone, Copy, Debug, PartialEq, Eq, Structural)]
pub struct RuntimeMetrics {
    pub uptime_seconds: u64,
    pub outgoing_packets: u64,
    pub incoming_packets: u64,
    pub outgoing_drops: u64,
    pub keepalives_sent: u64,
    pub keepalive_responses: u64,
    pub keepalive_timeouts: u64,
    pub reconnects: u64,
    pub reconnect_failures: u64,
    pub peer_unreachable: u64,
    pub migrations: u64,
    pub keepalive_rtt_total_ms: u64,
    pub keepalive_rtt_samples: u64,
    pub last_keepalive_rtt_ms: u64,
    pub max_keepalive_rtt_ms: u64,
}

/// The counters of a session that has just started.
pub open spec fn no_metrics() -> RuntimeMetrics {
    RuntimeMetrics {
        uptime_seconds: 0,
        outgoing_packets: 0,
        incoming_packets: 0,
        outgoing_drops: 0,
        keepalives_sent: 0,
        keepalive_responses: 0,
        keepalive_timeouts: 0,
        reconnects: 0,
        reconnect_failures: 0,
        peer_unreachable: 0,
        migrations: 0,
        keepalive_rtt_total_ms: 0,
        keepalive_rtt_samples: 0,
        last_keepalive_rtt_ms: 0,
        max_keepalive_rtt_ms: 0,
    }
}

impl Default for RuntimeMetrics {
    fn default() -> (metrics: RuntimeMetrics)
        ensures
            metrics == no_metrics(),
    {
        RuntimeMetrics {
            uptime_seconds: 0,
            outgoing_packets: 0,
            incoming_packets: 0,
            outgoing_drops: 0,
            keepalives_sent: 0,
            keepalive_responses: 0,
            keepalive_timeouts: 0,
            reconnects: 0,
            reconnect_failures: 0,
            peer_unreachable: 0,
            migrations: 0,
            keepalive_rtt_total_ms: 0,
            keepalive_rtt_samples: 0,
            last_keepalive_rtt_ms: 0,
            max_keepalive_rtt_ms: 0,
        }
    }
}

/// By how much a counter grew. One that is smaller than before did not grow.
pub open spec fn growth(now: u64, before: u64) -> u64 {
    if now >= before {
        (now - before) as u64
    } else {
        0
    }
}

fn grown(now: u64, before: u64) -> (by: u64)
    ensures
        by == growth(now, before),
{
    if now >= before {
        now - before
    } else {
        0
    }
}

/// What happened since `previous`.
pub open spec fn metrics_since(current: RuntimeMetrics, previous: RuntimeMetrics) -> RuntimeMetrics {
    RuntimeMetrics {
        uptime_seconds: growth(current.uptime_seconds, previous.uptime_seconds),
        outgoing_packets: growth(current.outgoing_packets, previous.outgoing_packets),
        incoming_packets: growth(current.incoming_packets, previous.incoming_packets),
        outgoing_drops: growth(current.outgoing_drops, previous.outgoing_drops),
        keepalives_sent: growth(current.keepalives_sent, previous.keepalives_sent),
        keepalive_responses: growth(current.keepalive_responses, previous.keepalive_responses),
        keepalive_timeouts: growth(current.keepalive_timeouts, previous.keepalive_timeouts),
        reconnects: growth(current.reconnects, previous.reconnects),
        reconnect_failures: growth(current.reconnect_failures, previous.reconnect_failures),
        peer_unreachable: growth(current.peer_unreachable, previous.peer_unreachable),
        migrations: growth(current.migrations, previous.migrations),
        keepalive_rtt_total_ms: growth(current.keepalive_rtt_total_ms, previous.keepalive_rtt_total_ms),
        keepalive_rtt_samples: growth(current.keepalive_rtt_samples, previous.keepalive_rtt_samples),
        last_keepalive_rtt_ms: current.last_keepalive_rtt_ms,
        max_keepalive_rtt_ms: current.max_keepalive_rtt_ms,
    }
}

impl RuntimeMetrics {
    /// What happened since `previous`.
    pub fn delta(self, previous: RuntimeMetrics) -> (delta: RuntimeMetrics)
        ensures
            delta == metrics_since(self, previous),
    {
        RuntimeMetrics {
            uptime_seconds: grown(self.uptime_seconds, previous.uptime_seconds),
            outgoing_packets: grown(self.outgoing_packets, previous.outgoing_packets),
            incoming_packets: grown(self.incoming_packets, previous.incoming_packets),
            outgoing_drops: grown(self.outgoing_drops, previous.outgoing_drops),
            keepalives_sent: grown(self.keepalives_sent, previous.keepalives_sent),
            keepalive_responses: grown(self.keepalive_responses, previous.keepalive_responses),
            keepalive_timeouts: grown(self.keepalive_timeouts, previous.keepalive_timeouts),
            reconnects: grown(self.reconnects, previous.reconnects),
            reconnect_failures: grown(self.reconnect_failures, previous.reconnect_failures),
            peer_unreachable: grown(self.peer_unreachable, previous.peer_unreachable),
            migrations: grown(self.migrations, previous.migrations),
            keepalive_rtt_total_ms: grown(self.keepalive_rtt_total_ms, previous.keepalive_rtt_total_ms),
            keepalive_rtt_samples: grown(self.keepalive_rtt_samples, previous.keepalive_rtt_samples),
            last_keepalive_rtt_ms: self.last_keepalive_rtt_ms,
            max_keepalive_rtt_ms: self.max_keepalive_rtt_ms,
        }
    }
}

/// What was observed of a protocol.
#[derive(Clone, Copy, Debug, PartialEq, Eq, Structural)]
pub struct ModeTotals {
    pub sessions: u64,
    pub observed_seconds: u64,
    pub outgoing_packets: u64,
    pub incoming_packets: u64,
    pub outgoing_drops: u64,
    pub keepalives_sent: u64,
    pub keepalive_responses: u64,
    pub keepalive_timeouts: u64,
    pub reconnects: u64,
    pub reconnect_failures: u64,
    pub peer_unreachable: u64,
    pub migrations: u64,
    pub keepalive_rtt_total_ms: u64,
    pub keepalive_rtt_samples: u64,
    pub max_keepalive_rtt_ms: u64,
    /// When the totals last changed, in seconds.
    pub updated_at: u64,
}

/// The totals of a protocol that was never used.
pub open spec fn no_totals() -> ModeTotals {
    ModeTotals {
        sessions: 0,
        observed_seconds: 0,
        outgoing_packets: 0,
        incoming_packets: 0,
        outgoing_drops: 0,
        keepalives_sent: 0,
        keepalive_responses: 0,
        keepalive_timeouts: 0,
        reconnects: 0,
        reconnect_failures: 0,
        peer_unreachable: 0,
        migrations: 0,
        keepalive_rtt_total_ms: 0,
        keepalive_rtt_samples: 0,
        max_keepalive_rtt_ms: 0,
        updated_at: 0,
    }
}

impl Default for ModeTotals {
    fn default() -> (totals: ModeTotals)
        ensures
            totals == no_totals(),
    {
        ModeTotals {
            sessions: 0,
            observed_seconds: 0,
            outgoing_packets: 0,
            incoming_packets: 0,
            outgoing_drops: 0,
            keepalives_sent: 0,
            keepalive_responses: 0,
            keepalive_timeouts: 0,
            reconnects: 0,
            reconnect_failures: 0,
            peer_unreachable: 0,
            migrations: 0,
            keepalive_rtt_total_ms: 0,
            keepalive_rtt_samples: 0,
            max_keepalive_rtt_ms: 0,
            updated_at: 0,
        }
    }
}

/// Whether the totals can hold what is to be added.
pub open spec fn fits(totals: ModeTotals, delta: RuntimeMetrics, first: bool) -> bool {
    &&& first ==> totals.sessions < u64::MAX
    &&& totals.observed_seconds + delta.uptime_seconds <= u64::MAX
    &&& totals.outgoing_packets + delta.outgoing_packets <= u64::MAX
    &&& totals.incoming_packets + delta.incoming_packets <= u64::MAX
    &&& totals.outgoing_drops + delta.outgoing_drops <= u64::MAX
    &&& totals.keepalives_sent + delta.keepalives_sent <= u64::MAX
    &&& totals.keepalive_responses + delta.keepalive_responses <= u64::MAX
    &&& totals.keepalive_timeouts + delta.keepalive_timeouts <= u64::MAX
    &&& totals.reconnects + delta.reconnects <= u64::MAX
    &&& totals.reconnect_failures + delta.reconnect_failures <= u64::MAX
    &&& totals.peer_unreachable + delta.peer_unreachable <= u64::MAX
    &&& totals.migrations + delta.migrations <= u64::MAX
    &&& totals.keepalive_rtt_total_ms + delta.keepalive_rtt_total_ms <= u64::MAX
    &&& totals.keepalive_rtt_samples + delta.keepalive_rtt_samples <= u64::MAX
}

/// The totals with what happened since the last observation.
pub open spec fn totals_with(
    totals: ModeTotals,
    delta: RuntimeMetrics,
    first: bool,
    now: u64,
) -> ModeTotals {
    ModeTotals {
        sessions: if first {
            (totals.sessions + 1) as u64
        } else {
            totals.sessions
        },
        observed_seconds: (totals.observed_seconds + delta.uptime_seconds) as u64,
        outgoing_packets: (totals.outgoing_packets + delta.outgoing_packets) as u64,
        incoming_packets: (totals.incoming_packets + delta.incoming_packets) as u64,
        outgoing_drops: (totals.outgoing_drops + delta.outgoing_drops) as u64,
        keepalives_sent: (totals.keepalives_sent + delta.keepalives_sent) as u64,
        keepalive_responses: (totals.keepalive_responses + delta.keepalive_responses) as u64,
        keepalive_timeouts: (totals.keepalive_timeouts + delta.keepalive_timeouts) as u64,
        reconnects: (totals.reconnects + delta.reconnects) as u64,
        reconnect_failures: (totals.reconnect_failures + delta.reconnect_failures) as u64,
        peer_unreachable: (totals.peer_unreachable + delta.peer_unreachable) as u64,
        migrations: (totals.migrations + delta.migrations) as u64,
        keepalive_rtt_total_ms: (totals.keepalive_rtt_total_ms + delta.keepalive_rtt_total_ms) as u64,
        keepalive_rtt_samples: (totals.keepalive_rtt_samples + delta.keepalive_rtt_samples) as u64,
        max_keepalive_rtt_ms: if totals.max_keepalive_rtt_ms < delta.max_keepalive_rtt_ms {
            delta.max_keepalive_rtt_ms
        } else {
            totals.max_keepalive_rtt_ms
        },
        updated_at: now,
    }
}

impl ModeTotals {
    /// Whether the totals can hold what is to be added.
    pub fn has_room(&self, delta: RuntimeMetrics, first: bool) -> (yes: bool)
        ensures
            yes == fits(*self, delta, first),
    {
        (!first || self.sessions < u64::MAX)
            && self.observed_seconds <= u64::MAX - delta.uptime_seconds
            && self.outgoing_packets <= u64::MAX - delta.outgoing_packets
            && self.incoming_packets <= u64::MAX - delta.incoming_packets
            && self.outgoing_drops <= u64::MAX - delta.outgoing_drops
            && self.keepalives_sent <= u64::MAX - delta.keepalives_sent
            && self.keepalive_responses <= u64::MAX - delta.keepalive_responses
            && self.keepalive_timeouts <= u64::MAX - delta.keepalive_timeouts
            && self.reconnects <= u64::MAX - delta.reconnects
            && self.reconnect_failures <= u64::MAX - delta.reconnect_failures
            && self.peer_unreachable <= u64::MAX - delta.peer_unreachable
            && self.migrations <= u64::MAX - delta.migrations
            && self.keepalive_rtt_total_ms <= u64::MAX - delta.keepalive_rtt_total_ms
            && self.keepalive_rtt_samples <= u64::MAX - delta.keepalive_rtt_samples
    }

    /// Adds what happened since the last observation; `first` is set for the
    /// first observation of a session.
    pub fn add(&mut self, delta: RuntimeMetrics, first: bool, now: u64)
        requires
            fits(*old(self), delta, first),
        ensures
            *final(self) == totals_with(*old(self), delta, first, now),
    {
        if first {
            self.sessions = self.sessions + 1;
        }
        self.observed_seconds = self.observed_seconds + delta.uptime_seconds;
        self.outgoing_packets = self.outgoing_packets + delta.outgoing_packets;
        self.incoming_packets = self.incoming_packets + delta.incoming_packets;
        self.outgoing_drops = self.outgoing_drops + delta.outgoing_drops;
        self.keepalives_sent = self.keepalives_sent + delta.keepalives_sent;
        self.keepalive_responses = self.keepalive_responses + delta.keepalive_responses;
        self.keepalive_timeouts = self.keepalive_timeouts + delta.keepalive_timeouts;
        self.reconnects = self.reconnects + delta.reconnects;
        self.reconnect_failures = self.reconnect_failures + delta.reconnect_failures;
        self.peer_unreachable = self.peer_unreachable + delta.peer_unreachable;
        self.migrations = self.migrations + delta.migrations;
        self.keepalive_rtt_total_ms = self.keepalive_rtt_total_ms + delta.keepalive_rtt_total_ms;
        self.keepalive_rtt_samples = self.keepalive_rtt_samples + delta.keepalive_rtt_samples;
        if self.max_keepalive_rtt_ms < delta.max_keepalive_rtt_ms {
            self.max_keepalive_rtt_ms = delta.max_keepalive_rtt_ms;
        }
        self.updated_at = now;
    }
}

/// Whether no counter of `later` is smaller than in `earlier`.
pub open spec fn grew_from(later: RuntimeMetrics, earlier: RuntimeMetrics) -> bool {
    &&& later.uptime_seconds >= earlier.uptime_seconds
    &&& later.outgoing_packets >= earlier.outgoing_packets
    &&& later.incoming_packets >= earlier.incoming_packets
    &&& later.outgoing_drops >= earlier.outgoing_drops
    &&& later.keepalives_sent >= earlier.keepalives_sent
    &&& later.keepalive_responses >= earlier.keepalive_responses
    &&& later.keepalive_timeouts >= earlier.keepalive_timeouts
    &&& later.reconnects >= earlier.reconnects
    &&& later.reconnect_failures >= earlier.reconnect_failures
    &&& later.peer_unreachable >= earlier.peer_unreachable
    &&& later.migrations >= earlier.migrations
    &&& later.keepalive_rtt_total_ms >= earlier.keepalive_rtt_total_ms
    &&& later.keepalive_rtt_samples >= earlier.keepalive_rtt_samples
    &&& later.max_keepalive_rtt_ms >= earlier.max_keepalive_rtt_ms
}

/// Observing a session in between changes nothing of its totals: what two
/// observations add is what the second alone would have added.
pub proof fn snapshots_are_not_counted_twice(
    totals: ModeTotals,
    earlier: RuntimeMetrics,
    later: RuntimeMetrics,
    first: bool,
    start: RuntimeMetrics,
    between: u64,
    now: u64,
)
    requires
        grew_from(earlier, start),
        grew_from(later, earlier),
        fits(totals, metrics_since(later, start), first),
    ensures
        fits(totals, metrics_since(earlier, start), first),
        ({
            let once = totals_with(totals, metrics_since(earlier, start), first, between);
            &&& fits(once, metrics_since(later, earlier), false)
            &&& totals_with(once, metrics_since(later, earlier), false, now) == totals_with(
                totals,
                metrics_since(later, start),
                first,
                now,
            )
        }),
{
}

/// The key under which the totals of a protocol are stored.
pub open spec fn mode_key(protocol: ClientProtocol) -> Seq<char> {
    match protocol {
        ClientProtocol::Legacy => "legacy"@,
        ClientProtocol::MorphQuiet => "morph_quiet"@,
        ClientProtocol::MorphBalanced => "morph_balanced"@,
        ClientProtocol::MorphParanoid => "morph_paranoid"@,
    }
}

/// The key under which the totals of a protocol are stored.
pub fn protocol_key(protocol: ClientProtocol) -> (key: &'static str)
    ensures
        key@ == mode_key(protocol),
{
    match protocol {
        ClientProtocol::Legacy => "legacy",
        ClientProtocol::MorphQuiet => "morph_quiet",
        ClientProtocol::MorphBalanced => "morph_balanced",
        ClientProtocol::MorphParanoid => "morph_paranoid",
    }
}

/// How a protocol is named to the user.
pub fn protocol_label(protocol: ClientProtocol) -> (label: &'static str)
    ensures
        label@ == (match protocol {
            ClientProtocol::Legacy => "Legacy"@,
            ClientProtocol::MorphQuiet => "Morph Quiet"@,
            ClientProtocol::MorphBalanced => "Morph Balanced"@,
            ClientProtocol::MorphParanoid => "Morph Paranoid"@,
        }),
{
    match protocol {
        ClientProtocol::Legacy => "Legacy",
        ClientProtocol::MorphQuiet => "Morph Quiet",
        ClientProtocol::MorphBalanced => "Morph Balanced",
        ClientProtocol::MorphParanoid => "Morph Paranoid",
    }
}

/// The totals of a protocol in a profile.
#[derive(Debug)]
pub struct ModeEntry {
    pub profile: String,
    pub mode: String,
    pub totals: ModeTotals,
}

/// The entries as pairs of profile and protocol key, and totals.
pub open spec fn pairs(entries: Seq<ModeEntry>) -> Seq<((Seq<char>, Seq<char>), ModeTotals)> {
    entries.map_values(|entry: ModeEntry| ((entry.profile@, entry.mode@), entry.totals))
}

/// The session that is being observed.
#[derive(Debug)]
pub struct ActiveSession {
    pub profile_id: String,
    pub protocol: ClientProtocol,
    /// The counters at the last observation.
    pub previous: RuntimeMetrics,
    pub observed: bool,
}

/// The session that is being observed, its profile as plain text.
#[verifier::ext_equal]
pub struct SessionModel {
    pub profile_id: Seq<char>,
    pub protocol: ClientProtocol,
    pub previous: RuntimeMetrics,
    pub observed: bool,
}

impl View for ActiveSession {
    type V = SessionModel;

    open spec fn view(&self) -> SessionModel {
        SessionModel {
            profile_id: self.profile_id@,
            protocol: self.protocol,
            previous: self.previous,
            observed: self.observed,
        }
    }
}

/// The totals of all protocols in all profiles, and the session observed.
#[derive(Debug)]
pub struct ReliabilityMonitor {
    entries: Vec<ModeEntry>,
    active: Option<ActiveSession>,
}

/// The totals recorded for a protocol of a profile.
pub open spec fn recorded(
    totals: Map<(Seq<char>, Seq<char>), ModeTotals>,
    profile: Seq<char>,
    mode: Seq<char>,
) -> ModeTotals {
    if totals.dom().contains((profile, mode)) {
        totals[(profile, mode)]
    } else {
        no_totals()
    }
}

/// The session after `active` that an observation of the given profile and
/// protocol belongs to: the same, or a new one.
pub open spec fn session_for(
    active: Option<SessionModel>,
    profile: Seq<char>,
    protocol: ClientProtocol,
) -> SessionModel {
    match active {
        Some(session) => if session.profile_id == profile && session.protocol == protocol {
            session
        } else {
            SessionModel { profile_id: profile, protocol, previous: no_metrics(), observed: false }
        },
        None => SessionModel {
            profile_id: profile,
            protocol,
            previous: no_metrics(),
            observed: false,
        },
    }
}

impl ReliabilityMonitor {
    #[verifier::type_invariant]
    closed spec fn well_formed(self) -> bool {
        assoc::distinct(pairs(self.entries@))
    }

    /// The totals by profile and protocol key.
    pub closed spec fn totals(&self) -> Map<(Seq<char>, Seq<char>), ModeTotals> {
        assoc::as_map(pairs(self.entries@))
    }

    /// The session that is being observed.
    pub closed spec fn active(&self) -> Option<SessionModel> {
        match self.active {
            Some(session) => Some(session@),
            None => None,
        }
    }

    /// A monitor that has observed nothing.
    pub fn new() -> (monitor: ReliabilityMonitor)
        ensures
            monitor.totals() == Map::<(Seq<char>, Seq<char>), ModeTotals>::empty(),
            monitor.active() is None,
    {
        let entries: Vec<ModeEntry> = Vec::new();
        assert(pairs(entries@) =~= Seq::<((Seq<char>, Seq<char>), ModeTotals)>::empty());
        ReliabilityMonitor { entries, active: None }
    }

    /// A monitor that goes on from stored totals. Totals in a form that is not
    /// known are dropped.
    pub fn load(version: u8, entries: Vec<ModeEntry>) -> (monitor: ReliabilityMonitor)
        ensures
            monitor.totals() == (if version == FORMAT_VERSION {
                assoc::as_map(pairs(entries@))
            } else {
                Map::<(Seq<char>, Seq<char>), ModeTotals>::empty()
            }),
            monitor.active() is None,
    {
        if version != FORMAT_VERSION {
            return ReliabilityMonitor::new();
        }
        let ghost all = pairs(entries@);
        let mut kept: Vec<ModeEntry> = Vec::new();
        let mut i: usize = 0;
        assert(pairs(kept@) =~= all.subrange(0, 0));
        while i < entries.len()
            invariant
                i <= entries@.len(),
                all == pairs(entries@),
                assoc::distinct(pairs(kept@)),
                assoc::as_map(pairs(kept@)) == assoc::as_map(all.subrange(0, i as int)),
            decreases entries@.len() - i,
        {
            let entry = &entries[i];
            proof {
                let longer = all.subrange(0, i + 1);
                assert(longer.drop_last() =~= all.subrange(0, i as int));
                assert(longer.last() == ((entry.profile@, entry.mode@), entry.totals));
            }
            set_totals(&mut kept, entry.profile.as_str(), entry.mode.as_str(), entry.totals);
            i = i + 1;
        }
        assert(all.subrange(0, i as int) =~= all);
        ReliabilityMonitor { entries: kept, active: None }
    }

    /// The totals, to be stored.
    pub fn entries(&self) -> (entries: &Vec<ModeEntry>)
        ensures
            assoc::distinct(pairs(entries@)),
            assoc::as_map(pairs(entries@)) == self.totals(),
    {
        proof {
            use_type_invariant(self);
        }
        &self.entries
    }

    /// A session of the given profile and protocol starts.
    pub fn begin(&mut self, profile_id: &str, protocol: ClientProtocol)
        ensures
            final(self).totals() == old(self).totals(),
            final(self).active() == Some(
                SessionModel {
                    profile_id: profile_id@,
                    protocol,
                    previous: no_metrics(),
                    observed: false,
                },
            ),
    {
        proof {
            use_type_invariant(&*self);
        }
        self.active = Some(
            ActiveSession {
                profile_id: text::owned(profile_id),
                protocol,
                previous: RuntimeMetrics::default(),
                observed: false,
            },
        );
    }

    /// The totals recorded for a protocol of a profile.
    pub fn recorded(&self, profile_id: &str, mode: &str) -> (totals: ModeTotals)
        ensures
            totals == recorded(self.totals(), profile_id@, mode@),
    {
        proof {
            use_type_invariant(self);
        }
        recorded_in(&self.entries, profile_id, mode)
    }

    /// The counters at the last observation of the session, and whether there
    /// was one.
    fn last_observation(&self, profile_id: &str, protocol: ClientProtocol) -> (last: (
        RuntimeMetrics,
        bool,
    ))
        ensures
            last.0 == session_for(self.active(), profile_id@, protocol).previous,
            last.1 == session_for(self.active(), profile_id@, protocol).observed,
    {
        match &self.active {
            Some(session) => if text::same(session.profile_id.as_str(), profile_id)
                && session.protocol == protocol {
                (session.previous, session.observed)
            } else {
                (RuntimeMetrics::default(), false)
            },
            None => (RuntimeMetrics::default(), false),
        }
    }

    /// Whether the totals can hold an observation.
    pub fn can_observe(
        &self,
        profile_id: &str,
        protocol: ClientProtocol,
        current: RuntimeMetrics,
    ) -> (yes: bool)
        ensures
            yes == ({
                let session = session_for(self.active(), profile_id@, protocol);
                fits(
                    recorded(self.totals(), profile_id@, mode_key(protocol)),
                    metrics_since(current, session.previous),
                    !session.observed,
                )
            }),
    {
        let (previous, observed) = self.last_observation(profile_id, protocol);
        self.recorded(profile_id, protocol_key(protocol)).has_room(
            current.delta(previous),
            !observed,
        )
    }

    /// Takes over the counters of a session at `now`, in seconds. A session of
    /// another profile or protocol than before is a new one.
    pub fn observe(
        &mut self,
        profile_id: &str,
        protocol: ClientProtocol,
        current: RuntimeMetrics,
        now: u64,
    )
        requires
            ({
                let session = session_for(old(self).active(), profile_id@, protocol);
                fits(
                    recorded(old(self).totals(), profile_id@, mode_key(protocol)),
                    metrics_since(current, session.previous),
                    !session.observed,
                )
            }),
        ensures
            ({
                let session = session_for(old(self).active(), profile_id@, protocol);
                &&& final(self).totals() == old(self).totals().insert(
                    (profile_id@, mode_key(protocol)),
                    totals_with(
                        recorded(old(self).totals(), profile_id@, mode_key(protocol)),
                        metrics_since(current, session.previous),
                        !session.observed,
                        now,
                    ),
                )
                &&& final(self).active() == Some(
                    SessionModel { previous: current, observed: true, ..session },
                )
            }),
    {
        proof {
            use_type_invariant(&*self);
        }
        let (previous, observed) = self.last_observation(profile_id, protocol);
        let key = protocol_key(protocol);
        let mut totals = self.recorded(profile_id, key);
        totals.add(current.delta(previous), !observed, now);
        let mut entries: Vec<ModeEntry> = Vec::new();
        assert(pairs(entries@) =~= Seq::<((Seq<char>, Seq<char>), ModeTotals)>::empty());
        std::mem::swap(&mut entries, &mut self.entries);
        set_totals(&mut entries, profile_id, key, totals);
        self.entries = entries;
        self.active = Some(
            ActiveSession {
                profile_id: text::owned(profile_id),
                protocol,
                previous: current,
                observed: true,
            },
        );
    }

    /// Forgets what was observed of a profile. The next observation of its
    /// session counts as the first, of what happens from now on.
    pub fn clear_profile(&mut self, profile_id: &str)
        ensures
            forall|key: (Seq<char>, Seq<char>)| #[trigger]
                final(self).totals().dom().contains(key) <==> old(self).totals().dom().contains(key)
                    && key.0 != profile_id@,
            forall|key: (Seq<char>, Seq<char>)| #[trigger]
                final(self).totals().dom().contains(key) ==> final(self).totals()[key]
                    == old(self).totals()[key],
            final(self).active() == (match old(self).active() {
                Some(session) => Some(
                    if session.profile_id == profile_id@ {
                        SessionModel { observed: false, ..session }
                    } else {
                        session
                    },
                ),
                None => None,
            }),
    {
        proof {
            use_type_invariant(&*self);
        }
        let kept = entries_of_others(&self.entries, profile_id);
        self.entries = kept;
        let mut active: Option<ActiveSession> = None;
        std::mem::swap(&mut active, &mut self.active);
        if let Some(session) = active {
            let observed = session.observed && !text::same(session.profile_id.as_str(), profile_id);
            self.active = Some(
                ActiveSession {
                    profile_id: session.profile_id,
                    protocol: session.protocol,
                    previous: session.previous,
                    observed,
                },
            );
        }
    }

    /// What is shown of every protocol of a profile.
    pub fn summary(&self, profile_id: &str) -> (modes: Vec<ModeSummary>)
        ensures
            modes@ == seq![
                summary_of(ClientProtocol::Legacy, recorded(self.totals(), profile_id@, "legacy"@)),
                summary_of(
                    ClientProtocol::MorphQuiet,
                    recorded(self.totals(), profile_id@, "morph_quiet"@),
                ),
                summary_of(
                    ClientProtocol::MorphBalanced,
                    recorded(self.totals(), profile_id@, "morph_balanced"@),
                ),
                summary_of(
                    ClientProtocol::MorphParanoid,
                    recorded(self.totals(), profile_id@, "morph_paranoid"@),
                ),
            ],
    {
        let mut modes: Vec<ModeSummary> = Vec::new();
        modes.push(self.mode_summary(profile_id, ClientProtocol::Legacy));
        modes.push(self.mode_summary(profile_id, ClientProtocol::MorphQuiet));
        modes.push(self.mode_summary(profile_id, ClientProtocol::MorphBalanced));
        modes.push(self.mode_summary(profile_id, ClientProtocol::MorphParanoid));
        modes
    }

    fn mode_summary(&self, profile_id: &str, protocol: ClientProtocol) -> (mode: ModeSummary)
        ensures
            mode == summary_of(
                protocol,
                recorded(self.totals(), profile_id@, mode_key(protocol)),
            ),
    {
        ModeSummary::from_totals(protocol, self.recorded(profile_id, protocol_key(protocol)))
    }
}

/// The position of the entry of a protocol of a profile.
fn position(entries: &Vec<ModeEntry>, profile: &str, mode: &str) -> (at: Option<usize>)
    ensures
        match at {
            Some(i) => i < entries@.len() && pairs(entries@)[i as int].0 == (profile@, mode@),
            None => !assoc::has_key(pairs(entries@), (profile@, mode@)),
        },
{
    let mut i: usize = 0;
    while i < entries.len()
        invariant
            i <= entries@.len(),
            forall|j: int| 0 <= j < i ==> (#[trigger] pairs(entries@)[j]).0 != (profile@, mode@),
        decreases entries@.len() - i,
    {
        if text::same(entries[i].profile.as_str(), profile) && text::same(
            entries[i].mode.as_str(),
            mode,
        ) {
            return Some(i);
        }
        i = i + 1;
    }
    None
}

fn recorded_in(entries: &Vec<ModeEntry>, profile: &str, mode: &str) -> (totals: ModeTotals)
    requires
        assoc::distinct(pairs(entries@)),
    ensures
        totals == recorded(assoc::as_map(pairs(entries@)), profile@, mode@),
{
    proof {
        assoc::lemma_domain(pairs(entries@));
    }
    match position(entries, profile, mode) {
        Some(i) => {
            proof {
                assoc::lemma_entry(pairs(entries@), i as int);
            }
            entries[i].totals
        },
        None => ModeTotals::default(),
    }
}

/// Records the totals of a protocol of a profile.
fn set_totals(entries: &mut Vec<ModeEntry>, profile: &str, mode: &str, totals: ModeTotals)
    requires
        assoc::distinct(pairs(old(entries)@)),
    ensures
        assoc::distinct(pairs(final(entries)@)),
        assoc::as_map(pairs(final(entries)@)) == assoc::as_map(pairs(old(entries)@)).insert(
            (profile@, mode@),
            totals,
        ),
{
    let ghost before = pairs(entries@);
    let ghost key = (profile@, mode@);
    let entry = ModeEntry { profile: text::owned(profile), mode: text::owned(mode), totals };
    match position(entries, profile, mode) {
        Some(i) => {
            entries.set(i, entry);
            proof {
                assert(before[i as int].0 == key);
                assert(pairs(entries@) =~= before.update(i as int, (key, totals)));
                assoc::lemma_update(before, i as int, totals);
            }
        },
        None => {
            entries.push(entry);
            proof {
                assert(pairs(entries@) =~= before.push((key, totals)));
                assoc::lemma_push(before, key, totals);
            }
        },
    }
}

/// The entries of the other profiles.
fn entries_of_others(entries: &Vec<ModeEntry>, profile: &str) -> (kept: Vec<ModeEntry>)
    requires
        assoc::distinct(pairs(entries@)),
    ensures
        assoc::distinct(pairs(kept@)),
        forall|key: (Seq<char>, Seq<char>)| #[trigger]
            assoc::as_map(pairs(kept@)).dom().contains(key) <==> assoc::as_map(
                pairs(entries@),
            ).dom().contains(key) && key.0 != profile@,
        forall|key: (Seq<char>, Seq<char>)| #[trigger]
            assoc::as_map(pairs(kept@)).dom().contains(key) ==> assoc::as_map(pairs(kept@))[key]
                == assoc::as_map(pairs(entries@))[key],
{
    let ghost all = pairs(entries@);
    let mut kept: Vec<ModeEntry> = Vec::new();
    let mut i: usize = 0;
    assert(pairs(kept@) =~= Seq::<((Seq<char>, Seq<char>), ModeTotals)>::empty());
    while i < entries.len()
        invariant
            i <= entries@.len(),
            all == pairs(entries@),
            assoc::distinct(all),
            assoc::distinct(pairs(kept@)),
            forall|k: int|
                0 <= k < kept@.len() ==> exists|j: int|
                    0 <= j < i && #[trigger] all[j] == #[trigger] pairs(kept@)[k],
            forall|k: int|
                0 <= k < kept@.len() ==> (#[trigger] pairs(kept@)[k]).0.0 != profile@,
            forall|j: int|
                0 <= j < i && (#[trigger] all[j]).0.0 != profile@ ==> assoc::has_key(
                    pairs(kept@),
                    all[j].0,
                ),
        decreases entries@.len() - i,
    {
        let ghost before = pairs(kept@);
        let entry = &entries[i];
        let ghost pair = all[i as int];
        assert(pair == ((entry.profile@, entry.mode@), entry.totals));
        if !text::same(entry.profile.as_str(), profile) {
            proof {
                if assoc::has_key(before, pair.0) {
                    let k = choose|k: int| 0 <= k < before.len() && (#[trigger] before[k]).0 == pair.0;
                    let j = choose|j: int| 0 <= j < i && #[trigger] all[j] == before[k];
                    assert(all[j].0 != all[i as int].0);
                }
                assoc::lemma_push(before, pair.0, pair.1);
            }
            kept.push(
                ModeEntry {
                    profile: entry.profile.clone(),
                    mode: entry.mode.clone(),
                    totals: entry.totals,
                },
            );
            proof {
                let now = pairs(kept@);
                assert(now =~= before.push(pair));
                assert forall|k: int| 0 <= k < now.len() implies exists|j: int|
                    0 <= j < i + 1 && #[trigger] all[j] == #[trigger] now[k] by {
                    if k < before.len() {
                        let j = choose|j: int| 0 <= j < i && #[trigger] all[j] == before[k];
                        assert(all[j] == now[k]);
                    } else {
                        assert(all[i as int] == now[k]);
                    }
                }
                assert forall|j: int|
                    0 <= j < i + 1 && (#[trigger] all[j]).0.0 != profile@ implies assoc::has_key(
                    now,
                    all[j].0,
                ) by {
                    if j < i {
                        let k = choose|k: int|
                            0 <= k < before.len() && (#[trigger] before[k]).0 == all[j].0;
                        assert(now[k].0 == all[j].0);
                    } else {
                        assert(now[before.len() as int].0 == all[j].0);
                    }
                }
            }
        }
        i = i + 1;
    }
    proof {
        let now = pairs(kept@);
        assoc::lemma_domain(now);
        assoc::lemma_domain(all);
        assert forall|key: (Seq<char>, Seq<char>)| #[trigger]
            assoc::as_map(now).dom().contains(key) <==> assoc::as_map(all).dom().contains(key)
                && key.0 != profile@ by {
            if assoc::has_key(now, key) {
                let k = choose|k: int| 0 <= k < now.len() && (#[trigger] now[k]).0 == key;
                let j = choose|j: int| 0 <= j < i && #[trigger] all[j] == now[k];
                assert(all[j].0 == key);
            }
            if assoc::has_key(all, key) && key.0 != profile@ {
                let j = choose|j: int| 0 <= j < all.len() && (#[trigger] all[j]).0 == key;
                assert(assoc::has_key(now, all[j].0));
            }
        }
        assert forall|key: (Seq<char>, Seq<char>)| #[trigger]
            assoc::as_map(now).dom().contains(key) implies assoc::as_map(now)[key]
            == assoc::as_map(all)[key] by {
            let k = choose|k: int| 0 <= k < now.len() && (#[trigger] now[k]).0 == key;
            let j = choose|j: int| 0 <= j < i && #[trigger] all[j] == now[k];
            assoc::lemma_entry(now, k);
            assoc::lemma_entry(all, j);
        }
    }
    kept
}

/// What is shown of a protocol.
#[derive(Clone, Copy, Debug, PartialEq, Eq, Structural)]
pub struct ModeSummary {
    pub protocol: ClientProtocol,
    pub totals: ModeTotals,
    /// The keepalives that were answered or given up; the latest ones may still
    /// be under way and say nothing of the loss.
    pub completed_keepalives: u64,
    pub average_rtt_ms: u64,
    /// Whether there is enough to judge the protocol by.
    pub enough_data: bool,
}

/// What is shown of a protocol with the given totals.
pub open spec fn summary_of(protocol: ClientProtocol, totals: ModeTotals) -> ModeSummary {
    ModeSummary {
        protocol,
        totals,
        completed_keepalives: counter::capped(
            totals.keepalive_responses + totals.keepalive_timeouts,
        ),
        average_rtt_ms: if totals.keepalive_rtt_samples == 0 {
            0
        } else {
            totals.keepalive_rtt_total_ms / totals.keepalive_rtt_samples
        },
        enough_data: totals.observed_seconds >= MINIMUM_OBSERVATION_SECONDS
            && totals.keepalives_sent >= MINIMUM_KEEPALIVES,
    }
}

impl ModeSummary {
    /// What is shown of a protocol with the given totals.
    pub fn from_totals(protocol: ClientProtocol, totals: ModeTotals) -> (mode: ModeSummary)
        ensures
            mode == summary_of(protocol, totals),
    {
        ModeSummary {
            protocol,
            totals,
            completed_keepalives: counter::sum(
                totals.keepalive_responses,
                totals.keepalive_timeouts,
            ),
            average_rtt_ms: if totals.keepalive_rtt_samples == 0 {
                0
            } else {
                totals.keepalive_rtt_total_ms / totals.keepalive_rtt_samples
            },
            enough_data: totals.observed_seconds >= MINIMUM_OBSERVATION_SECONDS
                && totals.keepalives_sent >= MINIMUM_KEEPALIVES,
        }
    }
}

/// Whether protocol `i` is to be preferred to protocol `j`: by score, then by
/// round trip time, then by how long it was observed, then by position.
pub open spec fn preferred(modes: Seq<ModeSummary>, scores: Seq<u64>, i: int, j: int) -> bool {
    if scores[i] != scores[j] {
        scores[i] > scores[j]
    } else if modes[i].average_rtt_ms != modes[j].average_rtt_ms {
        modes[i].average_rtt_ms < modes[j].average_rtt_ms
    } else if modes[i].totals.observed_seconds != modes[j].totals.observed_seconds {
        modes[i].totals.observed_seconds > modes[j].totals.observed_seconds
    } else {
        i < j
    }
}

/// How many of the first `n` protocols can be judged.
pub open spec fn eligible_count(modes: Seq<ModeSummary>, n: int) -> nat
    decreases n,
{
    if n <= 0 {
        0
    } else if modes[n - 1].enough_data {
        eligible_count(modes, n - 1) + 1
    } else {
        eligible_count(modes, n - 1)
    }
}

/// Whether protocol `best` is preferred to all others that can be judged.
pub open spec fn is_best(modes: Seq<ModeSummary>, scores: Seq<u64>, best: int) -> bool {
    &&& 0 <= best < modes.len()
    &&& modes[best].enough_data
    &&& forall|j: int|
        0 <= j < modes.len() && j != best && (#[trigger] modes[j]).enough_data ==> preferred(
            modes,
            scores,
            best,
            j,
        )
}

/// Which protocol is recommended.
#[derive(Clone, Copy, Debug, PartialEq, Eq, Structural)]
pub struct Recommendation {
    pub eligible_modes: usize,
    pub best: Option<usize>,
}

fn prefers(modes: &Vec<ModeSummary>, scores: &Vec<u64>, i: usize, j: usize) -> (yes: bool)
    requires
        modes@.len() == scores@.len(),
        i < modes@.len(),
        j < modes@.len(),
    ensures
        yes == preferred(modes@, scores@, i as int, j as int),
{
    if scores[i] != scores[j] {
        scores[i] > scores[j]
    } else if modes[i].average_rtt_ms != modes[j].average_rtt_ms {
        modes[i].average_rtt_ms < modes[j].average_rtt_ms
    } else if modes[i].totals.observed_seconds != modes[j].totals.observed_seconds {
        modes[i].totals.observed_seconds > modes[j].totals.observed_seconds
    } else {
        i < j
    }
}

/// Recommends the best protocol once two of them can be judged. The scores grow
/// with stability.
pub fn recommend(modes: &Vec<ModeSummary>, scores: &Vec<u64>) -> (recommendation: Recommendation)
    requires
        modes@.len() == scores@.len(),
    ensures
        recommendation.eligible_modes == eligible_count(modes@, modes@.len() as int),
        recommendation.best is Some <==> recommendation.eligible_modes >= 2,
        recommendation.best matches Some(best) ==> is_best(modes@, scores@, best as int),
{
    let mut eligible_modes: usize = 0;
    let mut best: usize = 0;
    let mut i: usize = 0;
    while i < modes.len()
        invariant
            i <= modes@.len(),
            modes@.len() == scores@.len(),
            eligible_modes == eligible_count(modes@, i as int),
            eligible_modes <= i,
            eligible_modes > 0 ==> best < i && modes@[best as int].enough_data,
            eligible_modes > 0 ==> forall|j: int|
                0 <= j < i && j != best && (#[trigger] modes@[j]).enough_data ==> preferred(
                    modes@,
                    scores@,
                    best as int,
                    j,
                ),
            eligible_modes == 0 ==> forall|j: int|
                0 <= j < i ==> !(#[trigger] modes@[j]).enough_data,
        decreases modes@.len() - i,
    {
        if modes[i].enough_data {
            if eligible_modes == 0 || prefers(modes, scores, i, best) {
                best = i;
            }
            eligible_modes = eligible_modes + 1;
        }
        i = i + 1;
    }
    Recommendation {
        eligible_modes,
        best: if eligible_modes >= 2 {
            Some(best)
        } else {
            None
        },
    }
}

/// There is at most one best protocol.
pub proof fn the_best_protocol_is_unique(
    modes: Seq<ModeSummary>,
    scores: Seq<u64>,
    a: int,
    b: int,
)
    requires
        is_best(modes, scores, a),
        is_best(modes, scores, b),
    ensures
        a == b,
{
    if a != b {
        assert(preferred(modes, scores, a, b));
        assert(preferred(modes, scores, b, a));
    }
}

/// An observation adds to every total what its counter grew by since the
/// observation before: the counters of a session whose first observation found
/// nothing recorded are the totals.
pub proof fn totals_grow_with_their_counters(
    totals: ModeTotals,
    before: RuntimeMetrics,
    current: RuntimeMetrics,
    first: bool,
    now: u64,
)
    requires
        grew_from(current, before),
        fits(totals, metrics_since(current, before), first),
    ensures
        ({
            let result = totals_with(totals, metrics_since(current, before), first, now);
            &&& result.sessions == totals.sessions + (if first { 1int } else { 0 })
            &&& result.observed_seconds - totals.observed_seconds == current.uptime_seconds
                - before.uptime_seconds
            &&& result.outgoing_packets - totals.outgoing_packets == current.outgoing_packets
                - before.outgoing_packets
            &&& result.incoming_packets - totals.incoming_packets == current.incoming_packets
                - before.incoming_packets
            &&& result.outgoing_drops - totals.outgoing_drops == current.outgoing_drops
                - before.outgoing_drops
            &&& result.keepalives_sent - totals.keepalives_sent == current.keepalives_sent
                - before.keepalives_sent
            &&& result.keepalive_responses - totals.keepalive_responses == current.keepalive_responses
                - before.keepalive_responses
            &&& result.keepalive_timeouts - totals.keepalive_timeouts == current.keepalive_timeouts
                - before.keepalive_timeouts
            &&& result.reconnects - totals.reconnects == current.reconnects
                - before.reconnects
            &&& result.reconnect_failures - totals.reconnect_failures == current.reconnect_failures
                - before.reconnect_failures
            &&& result.peer_unreachable - totals.peer_unreachable == current.peer_unreachable
                - before.peer_unreachable
            &&& result.migrations - totals.migrations == current.migrations
                - before.migrations
            &&& result.keepalive_rtt_total_ms - totals.keepalive_rtt_total_ms == current.keepalive_rtt_total_ms
                - before.keepalive_rtt_total_ms
            &&& result.keepalive_rtt_samples - totals.keepalive_rtt_samples == current.keepalive_rtt_samples
                - before.keepalive_rtt_samples
            &&& result.max_keepalive_rtt_ms >= totals.max_keepalive_rtt_ms
            &&& result.max_keepalive_rtt_ms >= current.max_keepalive_rtt_ms
            &&& result.max_keepalive_rtt_ms == totals.max_keepalive_rtt_ms
                || result.max_keepalive_rtt_ms == current.max_keepalive_rtt_ms
            &&& result.updated_at == now
            &&& metrics_since(current, before).last_keepalive_rtt_ms
                == current.last_keepalive_rtt_ms
        }),
{
}

/// A counter that fell started over, and adds nothing.
pub proof fn counters_that_fell_add_nothing(before: RuntimeMetrics, current: RuntimeMetrics)
    ensures
        current.uptime_seconds < before.uptime_seconds ==> metrics_since(
            current,
            before,
        ).uptime_seconds == 0,
        current.reconnects < before.reconnects ==> metrics_since(current, before).reconnects == 0,
        metrics_since(before, before) == (RuntimeMetrics {
            last_keepalive_rtt_ms: before.last_keepalive_rtt_ms,
            max_keepalive_rtt_ms: before.max_keepalive_rtt_ms,
            ..no_metrics()
        }),
        metrics_since(current, no_metrics()) == current,
{
}

/// A protocol is judged once it was observed for five minutes and has sent
/// twenty keepalives.
pub proof fn protocols_are_judged_after_five_minutes(protocol: ClientProtocol, totals: ModeTotals)
    ensures
        summary_of(protocol, totals).enough_data <==> totals.observed_seconds >= 5 * 60
            && totals.keepalives_sent >= 20,
        summary_of(protocol, totals).protocol == protocol,
        summary_of(protocol, totals).totals == totals,
        FORMAT_VERSION == 1,
{
}

/// The average round trip times the samples comes to the total, but for less
/// than one sample each, and keepalives that are still under way are left out
/// of the completed ones.
pub proof fn averages_come_from_the_samples(protocol: ClientProtocol, totals: ModeTotals)
    ensures
        ({
            let average = summary_of(protocol, totals).average_rtt_ms;
            let samples = totals.keepalive_rtt_samples;
            &&& samples > 0 ==> average * samples <= totals.keepalive_rtt_total_ms < (average + 1)
                * samples
            &&& samples == 0 ==> average == 0
        }),
        totals.keepalive_responses + totals.keepalive_timeouts <= u64::MAX ==> summary_of(
            protocol,
            totals,
        ).completed_keepalives == totals.keepalive_responses + totals.keepalive_timeouts,
{
    let total = totals.keepalive_rtt_total_ms as int;
    let samples = totals.keepalive_rtt_samples as int;
    if samples > 0 {
        let average = total / samples;
        assert(average * samples <= total < (average + 1) * samples) by (nonlinear_arith)
            requires
                samples > 0,
                total >= 0,
                average == total / samples,
        ;
    }
}

/// A better score decides, then a shorter round trip, then a longer
/// observation, then the order in which the protocols are listed; the order
/// has no ties.
pub proof fn preferences_come_in_order(
    modes: Seq<ModeSummary>,
    scores: Seq<u64>,
    i: int,
    j: int,
)
    requires
        i != j,
    ensures
        scores[i] > scores[j] ==> preferred(modes, scores, i, j),
        scores[i] == scores[j] && modes[i].average_rtt_ms < modes[j].average_rtt_ms ==> preferred(
            modes,
            scores,
            i,
            j,
        ),
        scores[i] == scores[j] && modes[i].average_rtt_ms == modes[j].average_rtt_ms
            && modes[i].totals.observed_seconds > modes[j].totals.observed_seconds ==> preferred(
            modes,
            scores,
            i,
            j,
        ),
        scores[i] == scores[j] && modes[i].average_rtt_ms == modes[j].average_rtt_ms
            && modes[i].totals.observed_seconds == modes[j].totals.observed_seconds && i < j
            ==> preferred(modes, scores, i, j),
        preferred(modes, scores, i, j) <==> !preferred(modes, scores, j, i),
{
}

/// As many protocols count as eligible as can be judged.
pub proof fn eligible_protocols_are_counted(modes: Seq<ModeSummary>, n: int)
    requires
        0 <= n <= modes.len(),
    ensures
        eligible_count(modes, n) <= n,
        (forall|k: int| 0 <= k < n ==> (#[trigger] modes[k]).enough_data) <==> eligible_count(
            modes,
            n,
        ) == n,
        (forall|k: int| 0 <= k < n ==> !(#[trigger] modes[k]).enough_data) <==> eligible_count(
            modes,
            n,
        ) == 0,
        n > 0 ==> eligible_count(modes, n) - eligible_count(modes, n - 1) == (if modes[n
            - 1].enough_data {
            1int
        } else {
            0
        }),
    decreases n,
{
    if n > 0 {
        eligible_protocols_are_counted(modes, n - 1);
    }
}

/// An observation belongs to the session that runs, unless the profile or the
/// protocol changed. Then it is the first of a new one.
pub proof fn a_change_of_protocol_starts_a_session(
    session: SessionModel,
    profile: Seq<char>,
    protocol: ClientProtocol,
)
    ensures
        session_for(Some(session), session.profile_id, session.protocol) == session,
        profile != session.profile_id || protocol != session.protocol ==> ({
            let started = session_for(Some(session), profile, protocol);
            &&& started.profile_id == profile
            &&& started.protocol == protocol
            &&& !started.observed
            &&& started.previous == no_metrics()
        }),
        session_for(None, profile, protocol).previous == no_metrics(),
        !session_for(None, profile, protocol).observed,
        session_for(None, profile, protocol).profile_id == profile,
        session_for(None, profile, protocol).protocol == protocol,
{
}

/// What was recorded of one protocol is never mistaken for another's.
pub proof fn protocols_are_recorded_apart(
    totals: Map<(Seq<char>, Seq<char>), ModeTotals>,
    profile: Seq<char>,
    recorded_protocol: ClientProtocol,
    other: ClientProtocol,
    value: ModeTotals,
)
    ensures
        recorded(
            totals.insert((profile, mode_key(recorded_protocol)), value),
            profile,
            mode_key(recorded_protocol),
        ) == value,
        other != recorded_protocol ==> recorded(
            totals.insert((profile, mode_key(recorded_protocol)), value),
            profile,
            mode_key(other),
        ) == recorded(totals, profile, mode_key(other)),
        !totals.dom().contains((profile, mode_key(other))) ==> recorded(
            totals,
            profile,
            mode_key(other),
        ) == no_totals(),
        mode_key(ClientProtocol::Legacy) == "legacy"@,
        mode_key(ClientProtocol::MorphQuiet) == "morph_quiet"@,
        mode_key(ClientProtocol::MorphBalanced) == "morph_balanced"@,
        mode_key(ClientProtocol::MorphParanoid) == "morph_paranoid"@,
{
    reveal_strlit("legacy");
    reveal_strlit("morph_quiet");
    reveal_strlit("morph_balanced");
    reveal_strlit("morph_paranoid");
    assert("legacy"@.len() == 6);
    assert("morph_quiet"@.len() == 11);
    assert("morph_balanced"@[6] == 'b');
    assert("morph_paranoid"@[6] == 'p');
    assert("morph_balanced"@.len() == 14);
}

/// The first observation of a protocol that was never used records its counters
/// as they are.
pub proof fn first_observations_are_recorded_as_they_are(current: RuntimeMetrics, now: u64)
    ensures
        fits(no_totals(), current, true),
        totals_with(no_totals(), current, true, now) == (ModeTotals {
            sessions: 1,
            observed_seconds: current.uptime_seconds,
            outgoing_packets: current.outgoing_packets,
            incoming_packets: current.incoming_packets,
            outgoing_drops: current.outgoing_drops,
            keepalives_sent: current.keepalives_sent,
            keepalive_responses: current.keepalive_responses,
            keepalive_timeouts: current.keepalive_timeouts,
            reconnects: current.reconnects,
            reconnect_failures: current.reconnect_failures,
            peer_unreachable: current.peer_unreachable,
            migrations: current.migrations,
            keepalive_rtt_total_ms: current.keepalive_rtt_total_ms,
            keepalive_rtt_samples: current.keepalive_rtt_samples,
            max_keepalive_rtt_ms: current.max_keepalive_rtt_ms,
            updated_at: now,
        }),
        no_totals().updated_at == 0,
        no_metrics().last_keepalive_rtt_ms == 0,
        no_metrics().max_keepalive_rtt_ms == 0,
{
}

/// No protocol that can be judged has a better score than the best one, and
/// none with its score a shorter round trip.
pub proof fn no_protocol_beats_the_best(
    modes: Seq<ModeSummary>,
    scores: Seq<u64>,
    best: int,
    other: int,
)
    requires
        is_best(modes, scores, best),
        0 <= other < modes.len(),
        modes[other].enough_data,
    ensures
        0 <= best < modes.len(),
        modes[best].enough_data,
        scores[other] <= scores[best],
        scores[other] == scores[best] ==> modes[best].average_rtt_ms
            <= modes[other].average_rtt_ms,
{
}

} // verus!
