//! Decides when to probe the server and when to give the session up.
//!
//! The operating system does not consistently report that a UDP peer has gone
//! away. Three missed lightweight probes bound passive recovery to nine
//! seconds without treating one delayed response as a dead session.

use vstd::prelude::*;

use crate::clock;

verus! {

pub const KEEPALIVE_INTERVAL: u128 = 3_000_000_000;

pub const SESSION_TIMEOUT: u128 = 9_000_000_000;

pub const MIN_RECONNECT_BACKOFF: u128 = 1_000_000_000;

pub const MAX_RECONNECT_BACKOFF: u128 = 16_000_000_000;

#[derive(Clone, Copy, Debug, PartialEq, Eq, Structural)]
pub enum Action {
    Nothing,
    Keepalive,
    Reconnect,
}

/// What is known of the peer.
#[derive(Clone, Copy, Debug, PartialEq, Eq, Structural)]
pub struct Liveness {
    /// When the peer was last heard of.
    pub peer_activity: u128,
    /// When a keepalive was last sent.
    pub heartbeat: u128,
    /// When a reconnect was last attempted.
    pub retry: Option<u128>,
    /// How long to wait between two attempts.
    pub backoff: u128,
    /// Whether the loss of the connection was already acted upon.
    pub lost: bool,
}

/// Twice the wait, up to the longest.
pub open spec fn doubled(backoff: u128) -> u128 {
    if backoff * 2 > MAX_RECONNECT_BACKOFF {
        MAX_RECONNECT_BACKOFF
    } else {
        (backoff * 2) as u128
    }
}

impl Liveness {
    pub open spec fn well_formed(&self) -> bool {
        MIN_RECONNECT_BACKOFF <= self.backoff <= MAX_RECONNECT_BACKOFF
    }

    /// The state of a session that was heard of at `now`.
    pub open spec fn fresh(now: u128) -> Liveness {
        Liveness {
            peer_activity: now,
            heartbeat: now,
            retry: None,
            backoff: MIN_RECONNECT_BACKOFF,
            lost: false,
        }
    }

    pub open spec fn action_at(&self, now: u128) -> Action {
        if clock::span(now, self.peer_activity) >= SESSION_TIMEOUT && (match self.retry {
            Some(last) => clock::span(now, last) >= self.backoff,
            None => true,
        }) {
            Action::Reconnect
        } else if clock::span(now, self.heartbeat) >= KEEPALIVE_INTERVAL {
            Action::Keepalive
        } else {
            Action::Nothing
        }
    }

    pub open spec fn after_keepalive(&self, now: u128) -> Liveness {
        Liveness { heartbeat: now, ..*self }
    }

    pub open spec fn after_packet(&self, now: u128) -> Liveness {
        Liveness { peer_activity: now, lost: false, ..*self }
    }

    pub open spec fn after_attempt(&self, now: u128) -> Liveness {
        Liveness { retry: Some(now), backoff: doubled(self.backoff), ..*self }
    }

    pub open spec fn after_loss(&self, now: u128) -> Liveness {
        if self.lost {
            *self
        } else {
            Liveness {
                peer_activity: if now >= SESSION_TIMEOUT {
                    (now - SESSION_TIMEOUT) as u128
                } else {
                    now
                },
                retry: None,
                lost: true,
                ..*self
            }
        }
    }

    pub fn new(now: u128) -> (liveness: Liveness)
        ensures
            liveness == Liveness::fresh(now),
            liveness.well_formed(),
    {
        Liveness {
            peer_activity: now,
            heartbeat: now,
            retry: None,
            backoff: MIN_RECONNECT_BACKOFF,
            lost: false,
        }
    }

    /// What is due at `now`.
    pub fn action(&self, now: u128) -> (action: Action)
        ensures
            action == self.action_at(now),
    {
        let due = match self.retry {
            Some(last) => clock::elapsed(now, last) >= self.backoff,
            None => true,
        };
        if clock::elapsed(now, self.peer_activity) >= SESSION_TIMEOUT && due {
            Action::Reconnect
        } else if clock::elapsed(now, self.heartbeat) >= KEEPALIVE_INTERVAL {
            Action::Keepalive
        } else {
            Action::Nothing
        }
    }

    pub fn keepalive_sent(&mut self, now: u128)
        ensures
            *final(self) == old(self).after_keepalive(now),
    {
        self.heartbeat = now;
    }

    pub fn packet_received(&mut self, now: u128)
        ensures
            *final(self) == old(self).after_packet(now),
    {
        self.peer_activity = now;
        self.lost = false;
    }

    pub fn reconnect_attempted(&mut self, now: u128)
        requires
            old(self).well_formed(),
        ensures
            *final(self) == old(self).after_attempt(now),
            final(self).well_formed(),
    {
        self.retry = Some(now);
        self.backoff = if self.backoff * 2 > MAX_RECONNECT_BACKOFF {
            MAX_RECONNECT_BACKOFF
        } else {
            self.backoff * 2
        };
    }

    /// Notes that the connection was reported lost.
    ///
    /// Only the first report after the peer was heard of counts: acting on
    /// every one would let a burst of reports bypass the wait between
    /// attempts.
    pub fn connection_lost(&mut self, now: u128)
        ensures
            *final(self) == old(self).after_loss(now),
    {
        if !self.lost {
            self.peer_activity = if now >= SESSION_TIMEOUT {
                now - SESSION_TIMEOUT
            } else {
                now
            };
            self.retry = None;
            self.lost = true;
        }
    }

    pub fn reconnected(&mut self, now: u128)
        ensures
            *final(self) == Liveness::fresh(now),
            final(self).well_formed(),
    {
        self.peer_activity = now;
        self.heartbeat = now;
        self.retry = None;
        self.backoff = MIN_RECONNECT_BACKOFF;
        self.lost = false;
    }
}

/// Reports of a loss that follow an attempt to reconnect change nothing, so
/// they cannot bring the next attempt forward.
pub proof fn repeated_losses_keep_the_backoff(
    state: Liveness,
    first: u128,
    attempt: u128,
    again: u128,
)
    ensures
        state.after_loss(first).after_attempt(attempt).after_loss(again) == state.after_loss(
            first,
        ).after_attempt(attempt),
{
}

/// A loss of the connection makes a reconnect due at once.
pub proof fn a_loss_is_acted_upon_at_once(state: Liveness, now: u128)
    requires
        !state.lost,
        now >= SESSION_TIMEOUT,
    ensures
        state.after_loss(now).action_at(now) == Action::Reconnect,
{
}

/// Two attempts to reconnect lie at least the wait apart, which every event
/// keeps between one and sixteen seconds.
pub proof fn attempts_are_spaced_by_the_backoff(state: Liveness, last: u128, now: u128)
    requires
        state.well_formed(),
        state.retry == Some(last),
        state.action_at(now) == Action::Reconnect,
    ensures
        now >= last + state.backoff,
        state.backoff >= MIN_RECONNECT_BACKOFF,
        state.after_attempt(now).well_formed(),
        state.after_attempt(now).backoff >= state.backoff,
        state.after_loss(now).well_formed(),
        state.after_packet(now).well_formed(),
        state.after_keepalive(now).well_formed(),
{
}

/// A peer that is heard of in time is never given up.
pub proof fn an_active_peer_is_kept(state: Liveness, heard: u128, now: u128)
    requires
        heard <= now,
        now < heard + SESSION_TIMEOUT,
    ensures
        state.after_packet(heard).action_at(now) != Action::Reconnect,
{
}

/// A peer that stays silent is given up nine seconds after it was last heard
/// of, and not before.
pub proof fn silent_peers_are_given_up_after_nine_seconds(state: Liveness, heard: u128, now: u128)
    requires
        state.retry is None,
        heard <= now,
    ensures
        state.after_packet(heard).action_at(now) is Reconnect <==> now - heard >= 9_000_000_000,
        Liveness::fresh(heard).action_at(now) is Reconnect <==> now - heard >= 9_000_000_000,
{
}

/// A keepalive is due three seconds after the last one, and every three
/// seconds from then on, as long as no reconnect is.
pub proof fn keepalives_are_three_seconds_apart(state: Liveness, sent: u128, now: u128)
    requires
        sent <= now,
        !(state.after_keepalive(sent).action_at(now) is Reconnect),
    ensures
        state.after_keepalive(sent).action_at(now) is Keepalive <==> now - sent >= 3_000_000_000,
        Liveness::fresh(sent).action_at(now) is Keepalive <==> 3_000_000_000 <= now - sent
            < 9_000_000_000,
{
}

/// While the peer stays silent, the next attempt to reconnect is due once the
/// wait has passed: two seconds after the first attempt, then four, eight and
/// sixteen, and sixteen from then on.
pub proof fn attempts_back_off_to_sixteen_seconds(state: Liveness, attempt: u128, now: u128)
    requires
        state.well_formed(),
        attempt <= now,
        now >= state.peer_activity + 9_000_000_000,
    ensures
        Liveness::fresh(now).backoff == 1_000_000_000,
        1_000_000_000 <= state.backoff <= 16_000_000_000,
        state.backoff <= 8_000_000_000 ==> state.after_attempt(attempt).backoff == 2
            * state.backoff,
        state.backoff >= 8_000_000_000 ==> state.after_attempt(attempt).backoff == 16_000_000_000,
        state.after_attempt(attempt).action_at(now) is Reconnect <==> now - attempt
            >= state.after_attempt(attempt).backoff,
{
}

/// A packet of the peer takes a loss back: no reconnect is due for the next
/// nine seconds, and a new loss counts again. The wait between attempts only
/// starts over with a new session.
pub proof fn a_packet_takes_a_loss_back(state: Liveness, lost: u128, heard: u128, now: u128)
    requires
        heard <= now,
        now < heard + 9_000_000_000,
        now >= 9_000_000_000,
    ensures
        !(state.after_loss(lost).after_packet(heard).action_at(now) is Reconnect),
        state.after_loss(lost).after_packet(heard).after_loss(now).action_at(now) is Reconnect,
        state.after_loss(lost).lost,
        state.after_loss(lost).backoff == state.backoff,
        state.after_loss(lost).heartbeat == state.heartbeat,
        state.after_packet(heard).backoff == state.backoff,
        state.after_packet(heard).heartbeat == state.heartbeat,
        state.after_packet(heard).retry == state.retry,
        state.after_attempt(now).peer_activity == state.peer_activity,
        state.after_attempt(now).heartbeat == state.heartbeat,
        state.after_attempt(now).lost == state.lost,
{
}

} // verus!
