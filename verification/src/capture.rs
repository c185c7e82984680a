//! The capture loop of a split tunnel.
//!
//! The loop only decides: the program around it talks to the driver and keeps
//! the buffer that a batch is received into, and the loop says what to do with
//! which part of it. Every packet that stays on the physical link is handed
//! back before any packet of its batch is encrypted, so an application that was
//! excluded from the tunnel never waits behind the tunnel's own work.

use vstd::prelude::*;

use crate::divert::{
    discard_warning, is_routed, is_warning, outbound, stats_line, Batch, Capture, CaptureAction,
    Stats, Translation, CAPTURE_BUFFER, STATS_INTERVAL,
};
use crate::flow::FlowTable;
use crate::geo::GeoRouter;
use crate::windivert::{Address, BATCH_MAX};
use crate::{clock, counter, divert, packet};

verus! {

/// A packet within the batch it was captured in.
#[derive(Clone, Copy, Debug, PartialEq, Eq, Structural)]
pub struct Place {
    /// The batch behind the packet.
    pub batch: Batch,
    pub start: usize,
    pub end: usize,
}

impl Place {
    pub open spec fn well_formed(&self) -> bool {
        self.batch.well_formed() && self.start <= self.end <= self.batch.bytes
            && self.batch.index > 0
    }

    /// The place of the packet's address among those of the batch.
    pub open spec fn position(&self) -> int {
        self.batch.index - 1
    }
}

/// Where the loop stands.
#[derive(Clone, Copy, Debug, PartialEq, Eq, Structural)]
pub enum Phase {
    /// A turn is about to begin.
    Idle,
    Receiving,
    /// The next packet of the batch is being measured.
    Splitting(Batch),
    /// A packet is being looked at.
    Inspecting(Place),
    /// The staged packets are being handed back to make room for this one.
    MakingRoom(Place),
    /// This packet is being staged in the room that was made.
    Staging(Place),
    /// The checksums of a rewritten packet are being recomputed.
    Summing(Place),
    /// The staged packets of a finished batch are being handed back.
    HandingBack,
    /// The packets for the tunnel are being taken over.
    Encrypting,
    Ended,
}

/// What the loop wants done.
#[derive(Clone, Copy, Debug, PartialEq, Eq, Structural)]
pub enum Command {
    BeginTurn,
    /// Receive a batch.
    Receive,
    /// Ask the driver for the length of the first packet in this part of the
    /// buffer.
    Measure { from: usize, to: usize },
    /// Hand over the packet in this part of the buffer, and its address.
    Inspect { start: usize, end: usize, index: usize },
    /// Hand the staged packets back to the stack.
    Flush,
    /// Hand over the same packet once more.
    Stage { start: usize, end: usize, index: usize },
    /// Recompute the checksums of the packet in this part of the buffer.
    Checksum { start: usize, end: usize, index: usize },
    /// Take the packets for the tunnel and encrypt them.
    Encrypt,
    Finish,
    /// What was reported does not belong to the phase.
    Ignore,
}

/// The state of the loop.
pub struct CaptureLoop {
    pub phase: Phase,
    pub capture: Capture,
}

/// How the loop goes on within `batch`. `staged` says whether packets wait to
/// be handed back.
pub open spec fn within(batch: Batch, staged: bool) -> (Phase, Command) {
    if batch.index < batch.count && batch.offset < batch.bytes {
        (Phase::Splitting(batch), Command::Measure { from: batch.offset, to: batch.bytes })
    } else if staged {
        (Phase::HandingBack, Command::Flush)
    } else {
        (Phase::Encrypting, Command::Encrypt)
    }
}

/// Where the loop stands with a measured packet.
pub open spec fn place_of(batch: Batch, length: usize) -> Place {
    let end: int = if batch.offset + length <= batch.bytes {
        batch.offset + length
    } else {
        batch.bytes as int
    };
    Place {
        batch: Batch { index: (batch.index + 1) as usize, offset: end as usize, ..batch },
        start: batch.offset,
        end: end as usize,
    }
}

/// Whether two captures count and queue alike.
pub open spec fn same_counts(a: Capture, b: Capture) -> bool {
    &&& a.stats == b.stats
    &&& a.tunnelled@ == b.tunnelled@
    &&& a.discarded == b.discarded
    &&& a.unsplittable == b.unsplittable
}

/// Whether two captures have the same packets staged.
pub open spec fn same_staged(a: Capture, b: Capture) -> bool {
    &&& a.reinject.data() == b.reinject.data()
    &&& a.reinject.targets() == b.reinject.targets()
    &&& a.reinject.sizes() == b.reinject.sizes()
}

/// Whether `after` is `before` with `packet` staged behind what was staged.
pub open spec fn staged_behind(
    before: Capture,
    packet: Seq<u8>,
    address: Address,
    after: Capture,
) -> bool {
    &&& after.reinject.data() == before.reinject.data() + packet
    &&& after.reinject.targets() == before.reinject.targets().push(address)
    &&& after.reinject.sizes() == before.reinject.sizes().push(packet.len() as usize)
}

/// Whether nothing is staged.
pub open spec fn nothing_staged(capture: Capture) -> bool {
    &&& capture.reinject.data().len() == 0
    &&& capture.reinject.targets().len() == 0
    &&& capture.reinject.sizes().len() == 0
}

/// Whether one more packet of `length` bytes would overrun a limit of the
/// driver.
pub open spec fn is_full(capture: Capture, length: nat) -> bool {
    capture.reinject.targets().len() >= BATCH_MAX || capture.reinject.data().len() + length
        > CAPTURE_BUFFER
}

impl CaptureLoop {
    /// Packets only wait within a batch: none is staged while the packets for
    /// the tunnel are taken over, and none of either kind between batches.
    pub open spec fn well_formed(&self) -> bool {
        &&& self.phase is Idle || self.phase is Receiving || self.phase is Encrypting
            || self.phase is Ended ==> nothing_staged(self.capture)
        &&& self.phase is Idle || self.phase is Receiving || self.phase is Ended
            ==> self.capture.tunnelled@.len() == 0
        &&& match self.phase {
            Phase::Splitting(batch) => batch.well_formed() && batch.index < batch.count,
            Phase::Inspecting(place) | Phase::MakingRoom(place) | Phase::Staging(place)
            | Phase::Summing(place) => place.well_formed(),
            _ => true,
        }
    }

    /// A loop that has not received anything.
    pub fn new(now: u128) -> (capture_loop: CaptureLoop)
        ensures
            capture_loop.well_formed(),
            capture_loop.phase is Idle,
            capture_loop.capture.stats == (Stats {
                tunnelled: 0,
                passed: 0,
                discarded: 0,
                batches: 0,
                reported: now,
            }),
            capture_loop.capture.discarded == 0,
            capture_loop.capture.unsplittable == 0,
    {
        CaptureLoop { phase: Phase::Idle, capture: Capture::new(now) }
    }

    fn go_on(&mut self, batch: Batch) -> (command: Command)
        requires
            batch.well_formed(),
        ensures
            (final(self).phase, command) == within(
                batch,
                old(self).capture.reinject.targets().len() > 0,
            ),
            final(self).capture == old(self).capture,
            final(self).phase is Encrypting ==> nothing_staged(final(self).capture),
    {
        if batch.pending() {
            self.phase = Phase::Splitting(batch);
            Command::Measure { from: batch.offset, to: batch.bytes }
        } else if self.capture.reinject.addresses().len() > 0 {
            self.phase = Phase::HandingBack;
            Command::Flush
        } else {
            self.phase = Phase::Encrypting;
            Command::Encrypt
        }
    }

    /// Begins a turn, and says what to report of the turns before.
    pub fn turn(&mut self, stopping: bool, now: u128) -> (step: (Command, Option<String>))
        requires
            old(self).well_formed(),
        ensures
            final(self).well_formed(),
            same_staged(final(self).capture, old(self).capture),
            final(self).capture.tunnelled@ == old(self).capture.tunnelled@,
            final(self).capture.discarded == old(self).capture.discarded,
            final(self).capture.unsplittable == old(self).capture.unsplittable,
            ({
                let stats = old(self).capture.stats;
                let due = clock::span(now, stats.reported) >= STATS_INTERVAL;
                if !(old(self).phase is Idle) {
                    &&& step.0 is Ignore
                    &&& step.1 is None
                    &&& final(self).phase == old(self).phase
                    &&& final(self).capture.stats == stats
                } else if stopping {
                    &&& step.0 is Finish
                    &&& step.1 is None
                    &&& final(self).phase is Ended
                    &&& final(self).capture.stats == stats
                } else {
                    &&& step.0 is Receive
                    &&& final(self).phase is Receiving
                    &&& final(self).capture.stats == (Stats {
                        reported: if due { now } else { stats.reported },
                        ..stats
                    })
                    &&& step.1 is Some <==> due
                    &&& step.1 matches Some(line) ==> line@ == stats_line(stats)
                }
            }),
    {
        match self.phase {
            Phase::Idle => {
                if stopping {
                    self.phase = Phase::Ended;
                    return (Command::Finish, None);
                }
                self.phase = Phase::Receiving;
                let line = self.capture.stats.report(now);
                (Command::Receive, line)
            },
            _ => (Command::Ignore, None),
        }
    }

    /// Takes over a batch of `count` packets in `bytes` bytes. There is none
    /// once the handle was shut down, which is not a failure.
    pub fn received(&mut self, batch: Option<(usize, usize)>) -> (command: Command)
        requires
            old(self).well_formed(),
        ensures
            final(self).well_formed(),
            same_staged(final(self).capture, old(self).capture),
            final(self).capture.tunnelled@ == old(self).capture.tunnelled@,
            final(self).capture.discarded == old(self).capture.discarded,
            final(self).capture.unsplittable == old(self).capture.unsplittable,
            ({
                let stats = old(self).capture.stats;
                match (old(self).phase, batch) {
                    (Phase::Receiving, Some((bytes, count))) => {
                        &&& (final(self).phase, command) == within(
                            Batch { bytes, count, index: 0, offset: 0 },
                            false,
                        )
                        &&& final(self).capture.stats == (Stats {
                            batches: counter::capped(stats.batches + 1),
                            ..stats
                        })
                    },
                    (Phase::Receiving, None) => {
                        &&& final(self).phase is Ended
                        &&& command is Finish
                        &&& final(self).capture.stats == stats
                    },
                    _ => {
                        &&& final(self).phase == old(self).phase
                        &&& command is Ignore
                        &&& final(self).capture.stats == stats
                    },
                }
            }),
    {
        match self.phase {
            Phase::Receiving => match batch {
                Some((bytes, count)) => {
                    self.capture.batch_received();
                    self.go_on(Batch::new(bytes, count))
                },
                None => {
                    self.phase = Phase::Ended;
                    Command::Finish
                },
            },
            _ => Command::Ignore,
        }
    }

    /// Notes the length of the next packet, as the driver tells it. Where it
    /// cannot tell, the rest of the batch is abandoned.
    pub fn measured(&mut self, length: Option<usize>) -> (step: (Command, Option<String>))
        requires
            old(self).well_formed(),
        ensures
            final(self).well_formed(),
            same_staged(final(self).capture, old(self).capture),
            final(self).capture.tunnelled@ == old(self).capture.tunnelled@,
            final(self).capture.stats == old(self).capture.stats,
            final(self).capture.discarded == old(self).capture.discarded,
            ({
                let before = old(self).capture.unsplittable;
                let after = final(self).capture.unsplittable;
                match (old(self).phase, length) {
                    (Phase::Splitting(batch), Some(l)) => {
                        let place = place_of(batch, l);
                        &&& final(self).phase == Phase::Inspecting(place)
                        &&& step.0 == (Command::Inspect {
                            start: place.start,
                            end: place.end,
                            index: batch.index,
                        })
                        &&& step.1 is None
                        &&& after == before
                    },
                    (Phase::Splitting(batch), None) => {
                        &&& (final(self).phase, step.0) == within(
                            Batch { index: batch.count, ..batch },
                            old(self).capture.reinject.targets().len() > 0,
                        )
                        &&& after == counter::capped(before + 1)
                        &&& is_warning(step.1, after, divert::abandon_warning(after))
                    },
                    _ => {
                        &&& final(self).phase == old(self).phase
                        &&& step.0 is Ignore
                        &&& step.1 is None
                        &&& after == before
                    },
                }
            }),
    {
        match self.phase {
            Phase::Splitting(taken) => {
                let mut batch = taken;
                let index = batch.index;
                match batch.take(length) {
                    Some((start, end)) => {
                        self.phase = Phase::Inspecting(Place { batch, start, end });
                        (Command::Inspect { start, end, index }, None)
                    },
                    None => {
                        let warning = self.capture.batch_abandoned();
                        (self.go_on(batch), warning)
                    },
                }
            },
            _ => (Command::Ignore, None),
        }
    }

    /// Looks at a packet, and rewrites it where it belongs in the tunnel.
    ///
    /// A packet that stays on the physical link is staged exactly as it was
    /// captured. One that belongs in the tunnel and cannot be carried there is
    /// let go: it never leaves in the clear.
    pub fn inspected(
        &mut self,
        packet: &mut [u8],
        address: Address,
        table: &FlowTable,
        translation: Translation,
        geo: Option<&GeoRouter>,
        now: u128,
    ) -> (step: (Command, Option<String>))
        requires
            old(self).well_formed(),
        ensures
            final(self).well_formed(),
            final(self).capture.tunnelled@ == old(self).capture.tunnelled@,
            final(self).capture.unsplittable == old(self).capture.unsplittable,
            ({
                let s = old(packet)@;
                let router = match geo {
                    Some(g) => Some(*g),
                    None => None,
                };
                let before = old(self).capture;
                let after = final(self).capture;
                match old(self).phase {
                    Phase::Inspecting(place) => if !is_routed(s, *table, translation, router, now) {
                        &&& final(packet)@ == s
                        &&& step.1 is None
                        &&& after.discarded == before.discarded
                        &&& after.stats == (Stats {
                            passed: counter::capped(before.stats.passed + 1),
                            ..before.stats
                        })
                        &&& if is_full(before, s.len()) {
                            &&& final(self).phase == Phase::MakingRoom(place)
                            &&& step.0 is Flush
                            &&& same_staged(after, before)
                        } else {
                            &&& (final(self).phase, step.0) == within(place.batch, true)
                            &&& staged_behind(before, s, address, after)
                        }
                    } else if !packet::same_family(packet::version_of(s), translation.tunnel) {
                        &&& final(packet)@ == s
                        &&& same_staged(after, before)
                        &&& after.discarded == counter::capped(before.discarded + 1)
                        &&& is_warning(step.1, after.discarded, discard_warning(after.discarded))
                        &&& after.stats == (Stats {
                            discarded: counter::capped(before.stats.discarded + 1),
                            ..before.stats
                        })
                        &&& (final(self).phase, step.0) == within(
                            place.batch,
                            before.reinject.targets().len() > 0,
                        )
                    } else {
                        &&& final(packet)@ == outbound(s, translation)
                        &&& same_staged(after, before)
                        &&& step.1 is None
                        &&& after.discarded == before.discarded
                        &&& after.stats == (Stats {
                            tunnelled: counter::capped(before.stats.tunnelled + 1),
                            ..before.stats
                        })
                        &&& final(self).phase == Phase::Summing(place)
                        &&& step.0 == (Command::Checksum {
                            start: place.start,
                            end: place.end,
                            index: place.position() as usize,
                        })
                    },
                    _ => {
                        &&& final(packet)@ == s
                        &&& final(self).phase == old(self).phase
                        &&& same_counts(after, before)
                        &&& same_staged(after, before)
                        &&& step.0 is Ignore
                        &&& step.1 is None
                    },
                }
            }),
    {
        let place = match self.phase {
            Phase::Inspecting(place) => place,
            _ => {
                return (Command::Ignore, None);
            },
        };
        let (action, warning) = self.capture.packet_captured(packet, table, translation, geo, now);
        match action {
            CaptureAction::Reinject { flush_first } => {
                if flush_first {
                    self.phase = Phase::MakingRoom(place);
                    return (Command::Flush, None);
                }
                self.capture.reinject.push(packet, address);
                (self.go_on(place.batch), None)
            },
            CaptureAction::Encrypt => {
                self.phase = Phase::Summing(place);
                (
                    Command::Checksum {
                        start: place.start,
                        end: place.end,
                        index: place.batch.index - 1,
                    },
                    None,
                )
            },
            CaptureAction::Drop => (self.go_on(place.batch), warning),
        }
    }

    /// Notes that the staged packets were handed back.
    pub fn flushed(&mut self) -> (command: Command)
        requires
            old(self).well_formed(),
        ensures
            final(self).well_formed(),
            same_counts(final(self).capture, old(self).capture),
            match old(self).phase {
                Phase::MakingRoom(place) => {
                    &&& nothing_staged(final(self).capture)
                    &&& final(self).phase == Phase::Staging(place)
                    &&& command == (Command::Stage {
                        start: place.start,
                        end: place.end,
                        index: place.position() as usize,
                    })
                },
                Phase::HandingBack => {
                    &&& nothing_staged(final(self).capture)
                    &&& final(self).phase is Encrypting
                    &&& command is Encrypt
                },
                _ => {
                    &&& same_staged(final(self).capture, old(self).capture)
                    &&& final(self).phase == old(self).phase
                    &&& command is Ignore
                },
            },
    {
        match self.phase {
            Phase::MakingRoom(place) => {
                self.capture.reinject.clear();
                self.phase = Phase::Staging(place);
                Command::Stage {
                    start: place.start,
                    end: place.end,
                    index: place.batch.index - 1,
                }
            },
            Phase::HandingBack => {
                self.capture.reinject.clear();
                self.phase = Phase::Encrypting;
                Command::Encrypt
            },
            _ => Command::Ignore,
        }
    }

    /// Stages the packet that there was no room for.
    pub fn stage(&mut self, packet: &[u8], address: Address) -> (command: Command)
        requires
            old(self).well_formed(),
        ensures
            final(self).well_formed(),
            same_counts(final(self).capture, old(self).capture),
            match old(self).phase {
                Phase::Staging(place) => {
                    &&& staged_behind(old(self).capture, packet@, address, final(self).capture)
                    &&& (final(self).phase, command) == within(place.batch, true)
                },
                _ => {
                    &&& same_staged(final(self).capture, old(self).capture)
                    &&& final(self).phase == old(self).phase
                    &&& command is Ignore
                },
            },
    {
        match self.phase {
            Phase::Staging(place) => {
                self.capture.reinject.push(packet, address);
                self.go_on(place.batch)
            },
            _ => Command::Ignore,
        }
    }

    /// Notes whether the checksums of a rewritten packet could be recomputed.
    /// One whose checksums could not is let go.
    pub fn summed(&mut self, done: bool) -> (command: Command)
        requires
            old(self).well_formed(),
        ensures
            final(self).well_formed(),
            same_staged(final(self).capture, old(self).capture),
            final(self).capture.stats == old(self).capture.stats,
            final(self).capture.discarded == old(self).capture.discarded,
            final(self).capture.unsplittable == old(self).capture.unsplittable,
            match old(self).phase {
                Phase::Summing(place) => {
                    &&& final(self).capture.tunnelled@ == (if done {
                        old(self).capture.tunnelled@.push((place.start, place.end))
                    } else {
                        old(self).capture.tunnelled@
                    })
                    &&& (final(self).phase, command) == within(
                        place.batch,
                        old(self).capture.reinject.targets().len() > 0,
                    )
                },
                _ => {
                    &&& final(self).capture.tunnelled@ == old(self).capture.tunnelled@
                    &&& final(self).phase == old(self).phase
                    &&& command is Ignore
                },
            },
    {
        match self.phase {
            Phase::Summing(place) => {
                if done {
                    self.capture.queue((place.start, place.end));
                }
                self.go_on(place.batch)
            },
            _ => Command::Ignore,
        }
    }

    /// Hands over where the packets for the tunnel stand, in the order they
    /// were captured, and ends the turn.
    pub fn take_tunnelled(&mut self) -> (ranges: Vec<(usize, usize)>)
        requires
            old(self).well_formed(),
        ensures
            final(self).well_formed(),
            same_staged(final(self).capture, old(self).capture),
            final(self).capture.stats == old(self).capture.stats,
            final(self).capture.discarded == old(self).capture.discarded,
            final(self).capture.unsplittable == old(self).capture.unsplittable,
            if old(self).phase is Encrypting {
                &&& ranges@ == old(self).capture.tunnelled@
                &&& final(self).capture.tunnelled@.len() == 0
                &&& final(self).phase is Idle
            } else {
                &&& ranges@.len() == 0
                &&& final(self).capture.tunnelled@ == old(self).capture.tunnelled@
                &&& final(self).phase == old(self).phase
            },
    {
        match self.phase {
            Phase::Encrypting => {
                self.phase = Phase::Idle;
                self.capture.drain()
            },
            _ => Vec::new(),
        }
    }
}

/// Every packet that stays on the physical link has been handed back before a
/// packet of its batch is encrypted, and nothing is left over between batches.
pub proof fn direct_packets_go_first(state: CaptureLoop)
    requires
        state.well_formed(),
    ensures
        state.phase is Encrypting ==> nothing_staged(state.capture),
        state.phase is Idle || state.phase is Receiving || state.phase is Ended ==> nothing_staged(
            state.capture,
        ) && state.capture.tunnelled@.len() == 0,
{
}

/// A packet starts where the one before it ended and is as long as the driver
/// says, but never reaches beyond its batch.
pub proof fn packets_follow_one_another(batch: Batch, length: usize)
    requires
        batch.well_formed(),
        batch.index < batch.count,
    ensures
        ({
            let place = place_of(batch, length);
            &&& place.start == batch.offset
            &&& place.batch.offset == place.end
            &&& place.batch.index == batch.index + 1
            &&& place.batch.bytes == batch.bytes
            &&& place.batch.count == batch.count
            &&& batch.offset + length <= batch.bytes ==> place.end - place.start == length
            &&& batch.offset + length > batch.bytes ==> place.end == batch.bytes
            &&& place.position() == batch.index
        }),
{
}

/// A batch is left once its packets are all found or its bytes used up. What
/// stays on the physical link is then handed back before anything is
/// encrypted.
pub proof fn a_batch_is_left_when_it_is_used_up(batch: Batch, staged: bool)
    ensures
        batch.index < batch.count && batch.offset < batch.bytes ==> within(batch, staged).1 == (
        Command::Measure { from: batch.offset, to: batch.bytes }),
        batch.index >= batch.count || batch.offset >= batch.bytes ==> (if staged {
            within(batch, staged) == (Phase::HandingBack, Command::Flush)
        } else {
            within(batch, staged) == (Phase::Encrypting, Command::Encrypt)
        }),
{
}

/// The driver takes up to 255 packets and half a mebibyte at once.
pub proof fn staged_packets_fit_the_driver(capture: Capture, length: nat)
    ensures
        !is_full(capture, length) <==> capture.reinject.targets().len() < 255
            && capture.reinject.data().len() + length <= 512 * 1024,
{
}

/// Staging a packet leaves what was staged before it in place: the packet
/// stands behind it, with its address and its length.
pub proof fn staging_keeps_what_was_staged(
    before: Capture,
    packet: Seq<u8>,
    address: Address,
    after: Capture,
)
    requires
        staged_behind(before, packet, address, after),
    ensures
        after.reinject.data().len() == before.reinject.data().len() + packet.len(),
        after.reinject.data().subrange(0, before.reinject.data().len() as int)
            == before.reinject.data(),
        after.reinject.data().subrange(
            before.reinject.data().len() as int,
            after.reinject.data().len() as int,
        ) == packet,
        after.reinject.targets().len() == before.reinject.targets().len() + 1,
        after.reinject.targets().last() == address,
        after.reinject.sizes().last() == packet.len() as usize,
        !nothing_staged(after),
        nothing_staged(before) && same_staged(before, after) ==> false,
{
    let data = after.reinject.data();
    let old_data = before.reinject.data();
    assert(data.subrange(0, old_data.len() as int) =~= old_data);
    assert(data.subrange(old_data.len() as int, data.len() as int) =~= packet);
}

} // verus!
