//! Moves selected applications' packets between the stack and the tunnel.

use vstd::prelude::*;

use crate::flow::{Disposition, FlowKey, FlowTable};
use crate::geo::GeoRouter;
use crate::ip::{IpAddr, Ipv4Addr, SocketAddr};
use crate::packet::{Packet, PROTOCOL_TCP, PROTOCOL_UDP};
use crate::windivert::{Address, BATCH_MAX, MTU_MAX};
use crate::{bytes, clock, counter, geo, ip, packet, text};

verus! {

const DNS_PORT: u16 = 53;

/// The staging buffer for one batch, in bytes.
///
/// Wide enough for a full batch of ordinary frames, and on its own wide enough
/// for the largest packet the driver will ever hand over, so a segment-offload
/// giant cannot wedge the loop by never fitting.
pub const CAPTURE_BUFFER: usize = 524_288;

/// How often the capture loop reports what it has been doing.
pub const STATS_INTERVAL: u128 = 10_000_000_000;

/// The sum of the first `n` lengths.
pub open spec fn total(lengths: Seq<usize>, n: int) -> int
    decreases n,
{
    if n <= 0 {
        0
    } else {
        total(lengths, n - 1) + lengths[n - 1]
    }
}

/// The largest packet the driver hands over fits into the staging buffer.
pub proof fn the_buffer_holds_the_largest_packet()
    ensures
        MTU_MAX < CAPTURE_BUFFER,
{
}

/// Staging for packets that stay on the physical link.
///
/// Excluded applications are the majority of what the capture loop sees, and
/// every one of their packets has to be handed back untouched. Copying them
/// into one buffer and injecting the lot costs one kernel transition instead
/// of one for each.
pub struct Reinject {
    packets: Vec<u8>,
    addresses: Vec<Address>,
    /// Where the boundaries between the staged packets fall.
    ///
    /// Only needed when a batch is refused and has to be retried one packet at
    /// a time, which is exactly when the boundaries are no longer recoverable
    /// from anything else.
    lengths: Vec<usize>,
}

impl Reinject {
    #[verifier::type_invariant]
    spec fn well_formed(&self) -> bool {
        &&& self.lengths@.len() == self.addresses@.len()
        &&& total(self.lengths@, self.lengths@.len() as int) == self.packets@.len()
    }

    /// The staged bytes, packet after packet.
    pub closed spec fn data(&self) -> Seq<u8> {
        self.packets@
    }

    /// The address of each staged packet.
    pub closed spec fn targets(&self) -> Seq<Address> {
        self.addresses@
    }

    /// The length of each staged packet.
    pub closed spec fn sizes(&self) -> Seq<usize> {
        self.lengths@
    }

    /// The bytes of staged packet `i`.
    pub open spec fn staged(&self, i: int) -> Seq<u8> {
        self.data().subrange(total(self.sizes(), i), total(self.sizes(), i + 1))
    }

    pub fn new() -> (reinject: Reinject)
        ensures
            reinject.data() == Seq::<u8>::empty(),
            reinject.targets() == Seq::<Address>::empty(),
            reinject.sizes() == Seq::<usize>::empty(),
    {
        Reinject {
            packets: Vec::with_capacity(CAPTURE_BUFFER),
            addresses: Vec::with_capacity(BATCH_MAX),
            lengths: Vec::with_capacity(BATCH_MAX),
        }
    }

    /// Reports whether one more packet of `length` bytes would overrun either
    /// limit the driver places on a batch.
    pub fn is_full(&self, length: usize) -> (full: bool)
        ensures
            full == (self.targets().len() >= BATCH_MAX || self.data().len() + length
                > CAPTURE_BUFFER),
    {
        self.addresses.len() >= BATCH_MAX || length > CAPTURE_BUFFER || self.packets.len()
            > CAPTURE_BUFFER - length
    }

    /// Stages a packet behind those already staged.
    pub fn push(&mut self, packet: &[u8], address: Address)
        ensures
            final(self).data() == old(self).data() + packet@,
            final(self).targets() == old(self).targets().push(address),
            final(self).sizes() == old(self).sizes().push(packet@.len() as usize),
            final(self).staged(old(self).sizes().len() as int) == packet@,
            forall|i: int|
                0 <= i < old(self).sizes().len() ==> #[trigger] final(self).staged(i)
                    == old(self).staged(i),
    {
        proof {
            use_type_invariant(&*self);
        }
        let ghost before = *self;
        let mut taken = Reinject::new();
        std::mem::swap(&mut taken, self);
        let mut packets = taken.packets;
        let mut addresses = taken.addresses;
        let mut lengths = taken.lengths;
        packets.extend_from_slice(packet);
        addresses.push(address);
        lengths.push(packet.len());
        proof {
            assert(packets@ =~= before.packets@ + packet@);
            lemma_total_prefix(before.lengths@, lengths@, before.lengths@.len() as int);
        }
        *self = Reinject { packets, addresses, lengths };
        proof {
            let n = before.lengths@.len() as int;
            assert(self.staged(n) =~= packet@);
            assert forall|i: int| 0 <= i < n implies #[trigger] self.staged(i) == before.staged(i) by {
                lemma_total_prefix(before.lengths@, lengths@, i);
                lemma_total_prefix(before.lengths@, lengths@, i + 1);
                lemma_total_monotonic(before.lengths@, i + 1, n);
                lemma_total_monotonic(before.lengths@, 0, i);
                assert(self.staged(i) =~= before.staged(i));
            }
        }
    }

    /// The staged bytes.
    pub fn packets(&self) -> (bytes: &[u8])
        ensures
            bytes@ == self.data(),
    {
        self.packets.as_slice()
    }

    /// The addresses of the staged packets: one for each.
    pub fn addresses(&self) -> (addresses: &[Address])
        ensures
            addresses@ == self.targets(),
            addresses@.len() == self.sizes().len(),
            addresses@.len() == 0 ==> self.data().len() == 0,
    {
        proof {
            use_type_invariant(self);
        }
        self.addresses.as_slice()
    }

    /// Where each staged packet starts and ends.
    ///
    /// The driver refuses a batch as a unit, so a single packet it objects to
    /// would cost all the innocent ones beside it. Sending them one at a time
    /// narrows that down to the packet at fault.
    pub fn ranges(&self) -> (ranges: Vec<(usize, usize)>)
        ensures
            ranges@.len() == self.targets().len(),
            forall|i: int|
                0 <= i < ranges@.len() ==> {
                    &&& (#[trigger] ranges@[i]).0 <= ranges@[i].1 <= self.data().len()
                    &&& self.data().subrange(ranges@[i].0 as int, ranges@[i].1 as int)
                        == self.staged(i)
                },
    {
        proof {
            use_type_invariant(self);
        }
        let mut ranges: Vec<(usize, usize)> = Vec::new();
        let mut offset: usize = 0;
        let mut i: usize = 0;
        while i < self.lengths.len()
            invariant
                self.well_formed(),
                total(self.lengths@, self.lengths@.len() as int) == self.packets.len(),
                i <= self.lengths@.len(),
                ranges@.len() == i,
                offset == total(self.lengths@, i as int),
                forall|j: int|
                    0 <= j < i ==> {
                        &&& (#[trigger] ranges@[j]).0 == total(self.lengths@, j)
                        &&& ranges@[j].1 == total(self.lengths@, j + 1)
                        &&& ranges@[j].0 <= ranges@[j].1 <= self.packets@.len()
                    },
            decreases self.lengths@.len() - i,
        {
            proof {
                lemma_total_monotonic(self.lengths@, i + 1, self.lengths@.len() as int);
            }
            let end: usize = offset + self.lengths[i];
            ranges.push((offset, end));
            offset = end;
            i = i + 1;
        }
        ranges
    }

    /// Forgets the staged packets.
    pub fn clear(&mut self)
        ensures
            final(self).data() == Seq::<u8>::empty(),
            final(self).targets() == Seq::<Address>::empty(),
            final(self).sizes() == Seq::<usize>::empty(),
    {
        *self = Reinject::new();
    }
}

proof fn lemma_total_prefix(a: Seq<usize>, b: Seq<usize>, n: int)
    requires
        0 <= n <= a.len(),
        n <= b.len(),
        forall|i: int| 0 <= i < a.len() && i < b.len() ==> a[i] == b[i],
    ensures
        total(a, n) == total(b, n),
    decreases n,
{
    if n > 0 {
        lemma_total_prefix(a, b, n - 1);
        assert(a[n - 1] == b[n - 1]);
    }
}

proof fn lemma_total_monotonic(lengths: Seq<usize>, a: int, b: int)
    requires
        0 <= a <= b,
    ensures
        total(lengths, a) <= total(lengths, b),
        0 <= total(lengths, a),
    decreases b,
{
    if a < b {
        lemma_total_monotonic(lengths, a, b - 1);
    } else if b > 0 {
        lemma_total_monotonic(lengths, a - 1, b - 1);
    }
}

/// The warning after a refused batch was resent packet by packet.
pub fn refused_batch_warning(packets: usize, refused: u64) -> (line: String)
    ensures
        line@ == "MOUSEVPN_DIVERT_WARNING=WinDivert refused a batch of "@ + text::decimal(
            packets as nat,
        ) + " packet(s); resent them individually and lost "@ + text::decimal(refused as nat),
{
    let mut line = text::owned("MOUSEVPN_DIVERT_WARNING=WinDivert refused a batch of ");
    text::push_decimal(&mut line, packets as u128);
    line.append(" packet(s); resent them individually and lost ");
    text::push_decimal(&mut line, refused as u128);
    line
}

/// Running totals for the capture loop.
///
/// A split tunnel fails in ways that look identical from outside: an
/// application left on the physical link and one whose packets vanish both
/// present as "it does not work". These counts tell them apart.
#[derive(Clone, Copy, Debug, PartialEq, Eq, Structural)]
pub struct Stats {
    pub tunnelled: u64,
    pub passed: u64,
    pub discarded: u64,
    pub batches: u64,
    /// When the totals were last reported.
    pub reported: u128,
}

/// Packets per batch in tenths.
pub open spec fn tenths_per_batch(stats: Stats) -> nat {
    let handled = counter::capped(
        counter::capped(stats.tunnelled + stats.passed) + stats.discarded,
    );
    let batches = if stats.batches == 0 { 1nat } else { stats.batches as nat };
    counter::capped(handled * 10) as nat / batches
}

/// The line that reports the totals.
pub open spec fn stats_line(stats: Stats) -> Seq<char> {
    "MOUSEVPN_DIVERT_STATS=tunnelled="@ + text::decimal(stats.tunnelled as nat) + " passed="@
        + text::decimal(stats.passed as nat) + " discarded="@ + text::decimal(
        stats.discarded as nat,
    ) + " batches="@ + text::decimal(stats.batches as nat) + " packets_per_batch="@ + text::decimal(
        tenths_per_batch(stats) / 10,
    ) + "."@ + text::decimal(tenths_per_batch(stats) % 10)
}

impl Stats {
    pub fn new(now: u128) -> (stats: Stats)
        ensures
            stats == (Stats { tunnelled: 0, passed: 0, discarded: 0, batches: 0, reported: now }),
    {
        Stats { tunnelled: 0, passed: 0, discarded: 0, batches: 0, reported: now }
    }

    /// The line to report, when a report is due.
    ///
    /// Packets per batch is the number to watch. A figure near one means the
    /// loop is keeping up; a figure in the tens or hundreds means the queue is
    /// filling faster than user mode drains it, which is what precedes loss.
    pub fn report(&mut self, now: u128) -> (line: Option<String>)
        ensures
            ({
                let due = clock::span(now, old(self).reported) >= STATS_INTERVAL;
                &&& line is Some <==> due
                &&& *final(self) == (Stats {
                    reported: if due { now } else { old(self).reported },
                    ..*old(self)
                })
                &&& line matches Some(l) ==> l@ == stats_line(*old(self))
            }),
    {
        if clock::elapsed(now, self.reported) < STATS_INTERVAL {
            return None;
        }
        self.reported = now;
        let handled = counter::sum(counter::sum(self.tunnelled, self.passed), self.discarded);
        let batches: u64 = if self.batches == 0 {
            1
        } else {
            self.batches
        };
        let tenths: u64 = counter::product(handled, 10) / batches;
        let mut line = text::owned("MOUSEVPN_DIVERT_STATS=tunnelled=");
        text::push_decimal(&mut line, self.tunnelled as u128);
        line.append(" passed=");
        text::push_decimal(&mut line, self.passed as u128);
        line.append(" discarded=");
        text::push_decimal(&mut line, self.discarded as u128);
        line.append(" batches=");
        text::push_decimal(&mut line, self.batches as u128);
        line.append(" packets_per_batch=");
        text::push_decimal(&mut line, (tenths / 10) as u128);
        line.append(".");
        text::push_decimal(&mut line, (tenths % 10) as u128);
        Some(line)
    }
}

/// What to do with a captured outbound packet.
#[derive(Clone, Copy, Debug, PartialEq, Eq, Structural)]
pub enum Outcome {
    /// The packet belongs to a routed application: it has been rewritten to
    /// carry the tunnel's source address and must go to the data plane.
    Tunnel,
    /// The packet belongs to an application that stays on the physical link.
    /// It has not been touched and must be reinjected exactly as captured.
    PassThrough,
    /// The packet belongs to a routed application but cannot be tunnelled.
    /// It must be discarded rather than handed back, because reinjecting it
    /// would send traffic the user asked to protect out in the clear.
    Discard,
}

/// How the split tunnel translates between the two ends of a session.
///
/// Applications only ever see `physical`, because every packet is translated
/// before it reaches them. `tunnel` exists solely on the wire to the server.
#[derive(Clone, Copy, Debug, PartialEq, Eq, Structural)]
pub struct Translation {
    pub physical: IpAddr,
    pub tunnel: IpAddr,
    /// The resolver of the session. It exists nowhere but behind the tunnel,
    /// so name queries to it take the tunnel whichever application asked.
    pub resolver: IpAddr,
    /// The largest TCP segment the tunnel can carry, clamped into the
    /// handshake of every routed connection.
    pub max_segment_size: u16,
}

impl Translation {
    /// Derives the segment limit from the tunnel's MTU.
    ///
    /// A full-tunnel session hands this MTU to the adapter and the stack sizes
    /// everything accordingly. There is no adapter here, so the limit has to be
    /// imposed on the connections themselves: the IPv4 and TCP headers, twenty
    /// bytes each, come off the top.
    pub fn new(physical: IpAddr, tunnel: IpAddr, resolver: IpAddr, tunnel_mtu: u16) -> (translation:
        Translation)
        ensures
            translation == (Translation {
                physical,
                tunnel,
                resolver,
                max_segment_size: if tunnel_mtu >= 40 {
                    (tunnel_mtu - 40) as u16
                } else {
                    0
                },
            }),
    {
        let max_segment_size: u16 = if tunnel_mtu >= 40 {
            tunnel_mtu - 40
        } else {
            0
        };
        Translation { physical, tunnel, resolver, max_segment_size }
    }
}

/// The text of the capture filter.
pub open spec fn filter_text(server: SocketAddr) -> Seq<char> {
    let family = if server.ip is V4 { "ip"@ } else { "ipv6"@ };
    "outbound and !loopback and "@ + family + " and (tcp or (udp and ("@ + family + ".DstAddr != "@
        + ip::ip_text(server.ip) + " or udp.DstPort != "@ + text::decimal(server.port as nat)
        + ")))"@
}

/// Builds the capture filter.
///
/// Two exclusions are load-bearing. Our own tunnel datagrams must never be
/// captured, or every packet we send would come straight back to us. Loopback
/// is excluded because local traffic has no business crossing a VPN.
///
/// The exclusion is written as a disjunction because the driver applies
/// negation to a single test, not to a parenthesised group.
pub fn filter(server: SocketAddr) -> (filter: String)
    ensures
        filter@ == filter_text(server),
{
    let family: &'static str = if server.ip.is_ipv4() {
        "ip"
    } else {
        "ipv6"
    };
    let mut filter = text::owned("outbound and !loopback and ");
    filter.append(family);
    filter.append(" and (tcp or (udp and (");
    filter.append(family);
    filter.append(".DstAddr != ");
    filter.append(server.ip.text().as_str());
    filter.append(" or udp.DstPort != ");
    text::push_decimal(&mut filter, server.port as u128);
    filter.append(")))");
    filter
}

/// The sample endpoint that the built-in filter is checked with.
pub fn sample_endpoint() -> (server: SocketAddr)
    ensures
        server.ip matches IpAddr::V4(a) && ip::octet(a.bits, 0) == 203 && ip::octet(a.bits, 1) == 0
            && ip::octet(a.bits, 2) == 113 && ip::octet(a.bits, 3) == 10,
        server.port == 51820,
{
    SocketAddr { ip: IpAddr::V4(Ipv4Addr::new(203, 0, 113, 10)), port: 51820 }
}

/// What the report says of one filter: accepted, or rejected with `rejection`.
pub open spec fn verdict_line(candidate: Seq<char>, rejection: Option<Seq<char>>) -> Seq<char> {
    match rejection {
        None => "OK  "@ + candidate + "\n"@,
        Some(error) => "FAIL "@ + error + "\n     "@ + candidate + "\n"@,
    }
}

/// The verdict on each of the first `n` filters.
pub open spec fn verdict_lines(candidates: Seq<String>, rejections: Seq<Option<String>>, n: int) -> Seq<
    char,
>
    decreases n,
{
    if n <= 0 {
        Seq::<char>::empty()
    } else {
        verdict_lines(candidates, rejections, n - 1) + verdict_line(
            candidates[n - 1]@,
            match rejections[n - 1] {
                Some(error) => Some(error@),
                None => None,
            },
        )
    }
}

/// Reports the verdict of the filter compiler on each candidate.
pub fn check_capture_filters(candidates: &Vec<String>, rejections: &Vec<Option<String>>) -> (report:
    String)
    requires
        candidates@.len() == rejections@.len(),
    ensures
        report@ == verdict_lines(candidates@, rejections@, candidates@.len() as int),
{
    let mut report = String::new();
    let mut i: usize = 0;
    while i < candidates.len()
        invariant
            i <= candidates@.len(),
            candidates@.len() == rejections@.len(),
            report@ == verdict_lines(candidates@, rejections@, i as int),
        decreases candidates@.len() - i,
    {
        let ghost before = report@;
        match &rejections[i] {
            None => {
                report.append("OK  ");
                report.append(candidates[i].as_str());
                report.append("\n");
                assert(report@ =~= before + ("OK  "@ + candidates@[i as int]@ + "\n"@));
            },
            Some(error) => {
                report.append("FAIL ");
                report.append(error.as_str());
                report.append("\n     ");
                report.append(candidates[i].as_str());
                report.append("\n");
                assert(report@ =~= before + ("FAIL "@ + error@ + "\n     "@
                    + candidates@[i as int]@ + "\n"@));
            },
        }
        i = i + 1;
    }
    report
}

/// The key of the flow a packet with these ports belongs to.
pub open spec fn packet_key(s: Seq<u8>) -> FlowKey {
    FlowKey {
        protocol: packet::protocol_of(s),
        local: packet::source_of(s),
        local_port: (packet::ports_of(s)->0).0,
        remote: packet::destination_of(s),
        remote_port: (packet::ports_of(s)->0).1,
    }
}

/// Whether an outbound packet takes the tunnel.
///
/// Name queries to the session's resolver always do. Of the rest a packet to a
/// geo-direct address never does, and any other does exactly when its flow was
/// classified as routed.
pub open spec fn is_routed(
    s: Seq<u8>,
    table: FlowTable,
    translation: Translation,
    geo: Option<GeoRouter>,
    now: u128,
) -> bool {
    &&& packet::editable(s)
    &&& packet::ports_of(s) is Some
    &&& {
        let remote = packet::destination_of(s);
        if remote == translation.resolver && (packet::ports_of(s)->0).1 == 53 {
            true
        } else if geo is Some && (geo->0.direct_ip(remote) || table.is_direct_at(remote, now)) {
            false
        } else {
            table.decision(packet_key(s)) == Some(Disposition::Tunnel)
        }
    }
}

/// A routed packet with the source the server recognises.
pub open spec fn outbound(s: Seq<u8>, translation: Translation) -> Seq<u8> {
    packet::clamped(
        bytes::overwrite(
            s,
            packet::source_at(packet::version_of(s)),
            packet::address_bytes(translation.tunnel),
        ),
        translation.max_segment_size,
    )
}

/// Rewrites a captured outbound packet when it belongs in the tunnel.
///
/// Returns [`Outcome::PassThrough`] for anything not positively identified as
/// routed: unparseable packets, protocols without ports, and flows that have
/// not been classified. Defaulting to "leave it alone" means an unknown packet
/// keeps working over the physical link instead of vanishing into a tunnel
/// that may not expect it.
///
/// A routed packet of the other address family has no tunnel address to take.
/// Handing it back would put protected traffic onto the physical link, so it
/// is discarded: the application sees the family fail and falls back.
pub fn prepare_outbound(
    data: &mut [u8],
    table: &FlowTable,
    translation: Translation,
    geo: Option<&GeoRouter>,
    now: u128,
) -> (outcome: Outcome)
    ensures
        ({
            let s = old(data)@;
            let router = match geo {
                Some(g) => Some(*g),
                None => None,
            };
            if !is_routed(s, *table, translation, router, now) {
                outcome is PassThrough && final(data)@ == s
            } else if !packet::same_family(packet::version_of(s), translation.tunnel) {
                outcome is Discard && final(data)@ == s
            } else {
                outcome is Tunnel && final(data)@ == outbound(s, translation)
            }
        }),
{
    let mut packet = match Packet::parse(data) {
        Some(packet) => packet,
        None => {
            return Outcome::PassThrough;
        },
    };
    let protocol = packet.protocol();
    let (source_port, destination_port) = match packet.ports() {
        Some(ports) => ports,
        None => {
            return Outcome::PassThrough;
        },
    };
    let remote = packet.destination();
    let key = FlowKey {
        protocol,
        local: packet.source(),
        local_port: source_port,
        remote,
        remote_port: destination_port,
    };
    if !(remote == translation.resolver && destination_port == DNS_PORT) {
        // Geo-direct is decided from the destination before the connection is
        // rewritten, so a domain that resolves to a foreign network can still
        // bypass the tunnel.
        if let Some(router) = geo {
            if router.is_direct_ip(remote) || table.is_geo_direct_ip(remote, now) {
                return Outcome::PassThrough;
            }
        }
        match table.lookup(&key) {
            Some(Disposition::Tunnel) => {},
            _ => {
                return Outcome::PassThrough;
            },
        }
    }
    if !packet.set_source(translation.tunnel) {
        return Outcome::Discard;
    }
    packet.clamp_mss(translation.max_segment_size);
    Outcome::Tunnel
}

/// Whether a packet from the tunnel is meant for an application here.
pub open spec fn is_inbound(s: Seq<u8>, translation: Translation) -> bool {
    &&& packet::editable(s)
    &&& packet::destination_of(s) == translation.tunnel
    &&& packet::same_family(packet::version_of(s), translation.physical)
}

/// A packet from the tunnel with the destination the application knows.
pub open spec fn inbound(s: Seq<u8>, translation: Translation) -> Seq<u8> {
    packet::clamped(
        bytes::overwrite(
            s,
            packet::destination_at(packet::version_of(s)),
            packet::address_bytes(translation.physical),
        ),
        translation.max_segment_size,
    )
}

/// Restores the physical destination on a packet arriving from the tunnel.
///
/// Returns `false` when the packet is not addressed to the tunnel address, so
/// traffic meant for something else is never redirected at an application.
///
/// Clamping only the outbound handshake limits what the peer sends us, not
/// what we send it: our segment size comes from the option in its reply.
pub fn prepare_inbound(data: &mut [u8], translation: Translation) -> (deliver: bool)
    ensures
        deliver == is_inbound(old(data)@, translation),
        final(data)@ == (if deliver {
            inbound(old(data)@, translation)
        } else {
            old(data)@
        }),
{
    let mut packet = match Packet::parse(data) {
        Some(packet) => packet,
        None => {
            return false;
        },
    };
    if packet.destination() != translation.tunnel {
        return false;
    }
    if !packet.set_destination(translation.physical) {
        return false;
    }
    packet.clamp_mss(translation.max_segment_size);
    true
}

/// A batch of captured packets, concatenated with no framing of its own.
///
/// The driver reports how many bytes it wrote and how many addresses it
/// filled; each packet's length is found by asking it in turn.
#[derive(Clone, Copy, Debug, PartialEq, Eq, Structural)]
pub struct Batch {
    pub bytes: usize,
    pub count: usize,
    /// The packets found so far.
    pub index: usize,
    /// Where the packets found so far end.
    pub offset: usize,
}

impl Batch {
    pub open spec fn well_formed(&self) -> bool {
        self.offset <= self.bytes && self.index <= self.count
    }

    pub fn new(bytes: usize, count: usize) -> (batch: Batch)
        ensures
            batch == (Batch { bytes, count, index: 0, offset: 0 }),
            batch.well_formed(),
    {
        Batch { bytes, count, index: 0, offset: 0 }
    }

    /// Whether another packet is to be found in `offset..bytes`.
    pub fn pending(&self) -> (more: bool)
        ensures
            more == (self.index < self.count && self.offset < self.bytes),
    {
        self.index < self.count && self.offset < self.bytes
    }

    /// Takes the next packet, whose length is `length` as the driver tells it.
    ///
    /// Returns where the packet stands. A packet whose bounds cannot be found
    /// takes every packet behind it with it: guessing would corrupt them.
    pub fn take(&mut self, length: Option<usize>) -> (range: Option<(usize, usize)>)
        requires
            old(self).well_formed(),
            old(self).index < old(self).count,
        ensures
            final(self).well_formed(),
            final(self).bytes == old(self).bytes,
            final(self).count == old(self).count,
            match length {
                Some(l) => {
                    &&& range == Some((old(self).offset, final(self).offset))
                    &&& final(self).index == old(self).index + 1
                    &&& final(self).offset == (if old(self).offset + l <= old(self).bytes {
                        old(self).offset + l
                    } else {
                        old(self).bytes as int
                    })
                },
                None => {
                    &&& range is None
                    &&& final(self).index == final(self).count
                    &&& final(self).offset == old(self).offset
                },
            },
    {
        match length {
            Some(l) => {
                let start = self.offset;
                let end: usize = if l <= self.bytes - start {
                    start + l
                } else {
                    self.bytes
                };
                self.offset = end;
                self.index = self.index + 1;
                Some((start, end))
            },
            None => {
                self.index = self.count;
                None
            },
        }
    }
}

/// What the capture loop does with one packet.
#[derive(Clone, Copy, Debug, PartialEq, Eq, Structural)]
pub enum CaptureAction {
    /// Hand the packet back, injecting what is staged first where there is no
    /// room left.
    Reinject { flush_first: bool },
    /// Recompute the checksums that the rewrite invalidated, then queue the
    /// packet for the data plane.
    Encrypt,
    /// Let the packet go.
    Drop,
}

/// The state of the capture loop.
pub struct Capture {
    pub stats: Stats,
    pub reinject: Reinject,
    /// Where the packets bound for the tunnel stand in the buffer.
    pub tunnelled: Vec<(usize, usize)>,
    pub discarded: u64,
    pub unsplittable: u64,
}

/// The warning for `n` discarded packets.
pub open spec fn discard_warning(n: u64) -> Seq<char> {
    "MOUSEVPN_DIVERT_WARNING=discarded "@ + text::decimal(n as nat)
        + " packet(s) of routed applications that this session cannot carry, usually IPv6"@
}

/// The warning for `n` abandoned batches.
pub open spec fn abandon_warning(n: u64) -> Seq<char> {
    "MOUSEVPN_DIVERT_WARNING=abandoned "@ + text::decimal(n as nat)
        + " batch(es) after a packet WinDivert could not parse"@
}

/// The warning for the `n`th occurrence, at each power of two.
pub open spec fn is_warning(line: Option<String>, n: u64, wording: Seq<char>) -> bool {
    match line {
        Some(l) => counter::is_power_of_two(n as nat) && l@ == wording,
        None => !counter::is_power_of_two(n as nat),
    }
}

impl Capture {
    pub fn new(now: u128) -> (capture: Capture)
        ensures
            capture.stats == (Stats {
                tunnelled: 0,
                passed: 0,
                discarded: 0,
                batches: 0,
                reported: now,
            }),
            capture.reinject.targets().len() == 0,
            capture.reinject.data().len() == 0,
            capture.reinject.sizes().len() == 0,
            capture.tunnelled@.len() == 0,
            capture.discarded == 0,
            capture.unsplittable == 0,
    {
        Capture {
            stats: Stats::new(now),
            reinject: Reinject::new(),
            tunnelled: Vec::new(),
            discarded: 0,
            unsplittable: 0,
        }
    }

    /// Counts a received batch.
    pub fn batch_received(&mut self)
        ensures
            final(self).stats == (Stats {
                batches: counter::capped(old(self).stats.batches + 1),
                ..old(self).stats
            }),
            final(self).reinject == old(self).reinject,
            final(self).tunnelled == old(self).tunnelled,
            final(self).discarded == old(self).discarded,
            final(self).unsplittable == old(self).unsplittable,
    {
        self.stats.batches = counter::sum(self.stats.batches, 1);
    }

    /// Counts a batch that had to be abandoned, and words the warning.
    pub fn batch_abandoned(&mut self) -> (warning: Option<String>)
        ensures
            final(self).unsplittable == counter::capped(old(self).unsplittable + 1),
            is_warning(
                warning,
                final(self).unsplittable,
                abandon_warning(final(self).unsplittable),
            ),
            final(self).stats == old(self).stats,
            final(self).reinject == old(self).reinject,
            final(self).tunnelled == old(self).tunnelled,
            final(self).discarded == old(self).discarded,
    {
        self.unsplittable = counter::sum(self.unsplittable, 1);
        if !counter::power_of_two(self.unsplittable) {
            return None;
        }
        let mut line = text::owned("MOUSEVPN_DIVERT_WARNING=abandoned ");
        text::push_decimal(&mut line, self.unsplittable as u128);
        line.append(" batch(es) after a packet WinDivert could not parse");
        Some(line)
    }

    /// Prepares the packet in `packet` and decides what becomes of it.
    ///
    /// A packet that stays on the physical link is left exactly as captured,
    /// so its checksums still hold. One that is routed has been rewritten.
    pub fn packet_captured(
        &mut self,
        packet: &mut [u8],
        table: &FlowTable,
        translation: Translation,
        geo: Option<&GeoRouter>,
        now: u128,
    ) -> (step: (CaptureAction, Option<String>))
        ensures
            ({
                let s = old(packet)@;
                let router = match geo {
                    Some(g) => Some(*g),
                    None => None,
                };
                let before = *old(self);
                let after = *final(self);
                &&& after.reinject == before.reinject
                &&& after.tunnelled == before.tunnelled
                &&& after.unsplittable == before.unsplittable
                &&& if !is_routed(s, *table, translation, router, now) {
                    &&& final(packet)@ == s
                    &&& step.0 == (CaptureAction::Reinject {
                        flush_first: before.reinject.targets().len() >= BATCH_MAX
                            || before.reinject.data().len() + s.len() > CAPTURE_BUFFER,
                    })
                    &&& step.1 is None
                    &&& after.discarded == before.discarded
                    &&& after.stats == (Stats {
                        passed: counter::capped(before.stats.passed + 1),
                        ..before.stats
                    })
                } else if !packet::same_family(packet::version_of(s), translation.tunnel) {
                    &&& final(packet)@ == s
                    &&& step.0 is Drop
                    &&& after.discarded == counter::capped(before.discarded + 1)
                    &&& is_warning(step.1, after.discarded, discard_warning(after.discarded))
                    &&& after.stats == (Stats {
                        discarded: counter::capped(before.stats.discarded + 1),
                        ..before.stats
                    })
                } else {
                    &&& final(packet)@ == outbound(s, translation)
                    &&& step.0 is Encrypt
                    &&& step.1 is None
                    &&& after.discarded == before.discarded
                    &&& after.stats == (Stats {
                        tunnelled: counter::capped(before.stats.tunnelled + 1),
                        ..before.stats
                    })
                }
            }),
    {
        let length = packet.len();
        match prepare_outbound(packet, table, translation, geo, now) {
            Outcome::PassThrough => {
                self.stats.passed = counter::sum(self.stats.passed, 1);
                (CaptureAction::Reinject { flush_first: self.reinject.is_full(length) }, None)
            },
            Outcome::Discard => {
                self.stats.discarded = counter::sum(self.stats.discarded, 1);
                self.discarded = counter::sum(self.discarded, 1);
                if !counter::power_of_two(self.discarded) {
                    return (CaptureAction::Drop, None);
                }
                let mut line = text::owned("MOUSEVPN_DIVERT_WARNING=discarded ");
                text::push_decimal(&mut line, self.discarded as u128);
                line.append(
                    " packet(s) of routed applications that this session cannot carry, usually IPv6",
                );
                (CaptureAction::Drop, Some(line))
            },
            Outcome::Tunnel => {
                self.stats.tunnelled = counter::sum(self.stats.tunnelled, 1);
                (CaptureAction::Encrypt, None)
            },
        }
    }

    /// Queues the packet at `range` for the data plane.
    pub fn queue(&mut self, range: (usize, usize))
        ensures
            final(self).tunnelled@ == old(self).tunnelled@.push(range),
            final(self).stats == old(self).stats,
            final(self).reinject == old(self).reinject,
            final(self).discarded == old(self).discarded,
            final(self).unsplittable == old(self).unsplittable,
    {
        self.tunnelled.push(range);
    }

    /// Hands over the queued packets, in the order they were captured.
    ///
    /// Called once the staged packets are injected: an application that was
    /// excluded from the tunnel must not wait behind the tunnel's own work.
    pub fn drain(&mut self) -> (ranges: Vec<(usize, usize)>)
        ensures
            ranges@ == old(self).tunnelled@,
            final(self).tunnelled@.len() == 0,
            final(self).stats == old(self).stats,
            final(self).reinject == old(self).reinject,
            final(self).discarded == old(self).discarded,
            final(self).unsplittable == old(self).unsplittable,
    {
        let mut ranges: Vec<(usize, usize)> = Vec::new();
        std::mem::swap(&mut ranges, &mut self.tunnelled);
        ranges
    }
}

/// A packet that is left on the physical link is byte for byte what was
/// captured, and one that cannot be translated never leaves: a routed packet
/// goes out through the tunnel or not at all.
pub proof fn routed_traffic_never_leaves_untranslated(
    s: Seq<u8>,
    table: FlowTable,
    translation: Translation,
    geo: Option<GeoRouter>,
    now: u128,
)
    requires
        is_routed(s, table, translation, geo, now),
        packet::same_family(packet::version_of(s), translation.tunnel),
    ensures
        packet::source_of(outbound(s, translation)) == translation.tunnel,
        packet::destination_of(outbound(s, translation)) == packet::destination_of(s),
        packet::ports_of(outbound(s, translation)) == packet::ports_of(s),
        outbound(s, translation).len() == s.len(),
{
    packet::rewriting_the_source_changes_nothing_else(s, translation.tunnel);
    let rewritten = bytes::overwrite(
        s,
        packet::source_at(packet::version_of(s)),
        packet::address_bytes(translation.tunnel),
    );
    packet::clamping_only_limits_the_segment_size(rewritten, translation.max_segment_size);
}

/// What comes back over the tunnel reaches the address the application bound:
/// the destination becomes the physical address and nothing else an
/// application could tell apart changes.
pub proof fn replies_reach_the_physical_address(s: Seq<u8>, translation: Translation)
    requires
        is_inbound(s, translation),
    ensures
        packet::destination_of(inbound(s, translation)) == translation.physical,
        packet::source_of(inbound(s, translation)) == packet::source_of(s),
        packet::ports_of(inbound(s, translation)) == packet::ports_of(s),
        inbound(s, translation).len() == s.len(),
{
    packet::rewriting_the_destination_changes_nothing_else(s, translation.physical);
    let rewritten = bytes::overwrite(
        s,
        packet::destination_at(packet::version_of(s)),
        packet::address_bytes(translation.physical),
    );
    packet::clamping_only_limits_the_segment_size(rewritten, translation.max_segment_size);
}

/// What a direct domain resolved to is left on the physical link for as long as
/// the answer holds, whatever application asks for it. The last answer for an
/// address counts. Questions to the resolver of the session are the exception.
pub proof fn resolved_direct_addresses_bypass_the_tunnel(
    before: FlowTable,
    after: FlowTable,
    response: Seq<u8>,
    learned_at: u128,
    i: int,
    s: Seq<u8>,
    translation: Translation,
    router: GeoRouter,
    now: u128,
)
    requires
        ({
            let learned = geo::learned_addresses(response, router);
            &&& after.direct_addresses() == geo::entered(
                before.direct_addresses(),
                learned,
                learned_at,
            )
            &&& 0 <= i < learned.len()
            &&& forall|j: int| i < j < learned.len() ==> (#[trigger] learned[j]).0 != learned[i].0
            &&& now < clock::later(learned_at, learned[i].1)
            &&& packet::destination_of(s) == learned[i].0
            &&& packet::ports_of(s) is Some ==> packet::destination_of(s) != translation.resolver
                || (packet::ports_of(s)->0).1 != 53
        }),
    ensures
        !is_routed(s, after, translation, Some(router), now),
{
    geo::lemma_last_entry_stands(
        before.direct_addresses(),
        geo::learned_addresses(response, router),
        learned_at,
        i,
    );
}

/// Where the packets of a flow go. A query to port 53 of the session's resolver
/// takes the tunnel whoever asks. Any other packet to a direct address stays on
/// the physical link. Of the rest, those whose own five-tuple was classified as
/// routed take the tunnel, and no others.
pub proof fn packets_follow_the_decision_for_their_flow(
    s: Seq<u8>,
    table: FlowTable,
    translation: Translation,
    geo: Option<GeoRouter>,
    now: u128,
)
    requires
        packet::editable(s),
        packet::ports_of(s) is Some,
    ensures
        ({
            let ports = packet::ports_of(s)->0;
            let query = packet::destination_of(s) == translation.resolver && ports.1 == 53;
            let direct = geo is Some && (geo->0.direct_ip(packet::destination_of(s))
                || table.is_direct_at(packet::destination_of(s), now));
            let key = FlowKey {
                protocol: packet::protocol_of(s),
                local: packet::source_of(s),
                local_port: ports.0,
                remote: packet::destination_of(s),
                remote_port: ports.1,
            };
            let taken = is_routed(s, table, translation, geo, now);
            &&& query ==> taken
            &&& !query && direct ==> !taken
            &&& !query && !direct && table.decision(key) == Some(Disposition::Tunnel) ==> taken
            &&& !query && table.decision(key) != Some(Disposition::Tunnel) ==> !taken
        }),
{
}

/// What cannot be read stays on the physical link: a packet that is not edited,
/// and one without ports.
pub proof fn unreadable_packets_are_left_alone(
    s: Seq<u8>,
    table: FlowTable,
    translation: Translation,
    geo: Option<GeoRouter>,
    now: u128,
)
    requires
        !packet::editable(s) || packet::ports_of(s) is None,
    ensures
        !is_routed(s, table, translation, geo, now),
{
}

/// A routed IPv4 packet is sent under the four octets of the tunnel address,
/// and a reply is delivered under those of the physical address, whatever they
/// were before.
pub proof fn translated_packets_carry_the_new_octets(s: Seq<u8>, translation: Translation)
    requires
        packet::editable(s),
        s[0] / 16 == 4,
        translation.tunnel is V4,
        translation.physical is V4,
    ensures
        ({
            let out = outbound(s, translation);
            let back = inbound(s, translation);
            &&& out[12] * 16777216 + out[13] * 65536 + out[14] * 256 + out[15]
                == translation.tunnel->V4_0.bits
            &&& back[16] * 16777216 + back[17] * 65536 + back[18] * 256 + back[19]
                == translation.physical->V4_0.bits
            &&& forall|i: int| 16 <= i < 20 ==> out[i] == s[i]
            &&& forall|i: int| 12 <= i < 16 ==> back[i] == s[i]
        }),
{
    packet::rewriting_the_source_changes_nothing_else(s, translation.tunnel);
    packet::rewriting_the_destination_changes_nothing_else(s, translation.physical);
    let sent = bytes::overwrite(s, 12, packet::address_bytes(translation.tunnel));
    let delivered = bytes::overwrite(s, 16, packet::address_bytes(translation.physical));
    packet::clamping_only_limits_the_segment_size(sent, translation.max_segment_size);
    packet::clamping_only_limits_the_segment_size(delivered, translation.max_segment_size);
    let out = outbound(s, translation);
    let back = inbound(s, translation);
    packet::clamping_keeps_the_header(sent, translation.max_segment_size);
    packet::clamping_keeps_the_header(delivered, translation.max_segment_size);
    packet::ipv4_addresses_stand_in_the_header(out);
    packet::ipv4_addresses_stand_in_the_header(back);
    bytes::lemma_be_bytes_len(translation.tunnel->V4_0.bits as nat, 4);
    bytes::lemma_be_bytes_len(translation.physical->V4_0.bits as nat, 4);
}

/// A packet from the tunnel is delivered exactly when it is addressed to the
/// tunnel address and the physical address is of its family.
pub proof fn only_replies_to_the_tunnel_address_are_delivered(
    s: Seq<u8>,
    translation: Translation,
)
    requires
        packet::editable(s),
    ensures
        packet::destination_of(s) != translation.tunnel ==> !is_inbound(s, translation),
        packet::destination_of(s) == translation.tunnel && (translation.physical is V4
            <==> translation.tunnel is V4) ==> is_inbound(s, translation),
        (translation.physical is V4) != (s[0] / 16 == 4) ==> !is_inbound(s, translation),
{
}

/// The flags beside the fragment offset do not decide whether a packet is
/// routed, nor whether it is delivered.
pub proof fn fragment_flags_do_not_decide(
    s: Seq<u8>,
    flags: u8,
    table: FlowTable,
    translation: Translation,
    geo: Option<GeoRouter>,
    now: u128,
)
    requires
        packet::editable(s),
        s[0] / 16 == 4,
    ensures
        ({
            let t = s.update(6, (s[6] % 32 + (flags % 8) * 32) as u8);
            &&& is_routed(t, table, translation, geo, now) == is_routed(
                s,
                table,
                translation,
                geo,
                now,
            )
            &&& is_inbound(t, translation) == is_inbound(s, translation)
        }),
{
    packet::fragment_flags_do_not_matter(s, flags);
}

/// The report counts the packets per batch in tenths.
pub proof fn totals_are_counted_in_tenths(stats: Stats)
    requires
        (stats.tunnelled + stats.passed + stats.discarded) * 10 <= u64::MAX,
        stats.batches > 0,
    ensures
        tenths_per_batch(stats) == (stats.tunnelled + stats.passed + stats.discarded) * 10 / (
        stats.batches as int),
{
}

/// Everything that goes out is captured but what is local and the datagrams of
/// the tunnel itself, which are told by the address and the port of the server.
pub proof fn the_tunnel_is_not_captured(server: SocketAddr)
    ensures
        server.ip is V4 ==> filter_text(server) == "outbound and !loopback and "@ + "ip"@
            + " and (tcp or (udp and ("@ + "ip"@ + ".DstAddr != "@ + ip::ip_text(server.ip)
            + " or udp.DstPort != "@ + text::decimal(server.port as nat) + ")))"@,
        server.ip is V6 ==> filter_text(server) == "outbound and !loopback and "@ + "ipv6"@
            + " and (tcp or (udp and ("@ + "ipv6"@ + ".DstAddr != "@ + ip::ip_text(server.ip)
            + " or udp.DstPort != "@ + text::decimal(server.port as nat) + ")))"@,
{
}

/// Warnings come at the powers of two, say how often it happened, and what.
pub proof fn warnings_count_what_happened(n: u64, line: Option<String>)
    ensures
        is_warning(line, 1, discard_warning(1)) ==> line is Some,
        is_warning(line, 3, discard_warning(3)) ==> line is None,
        is_warning(line, n, discard_warning(n)) ==> (line matches Some(l) ==> l@
            == "MOUSEVPN_DIVERT_WARNING=discarded "@ + text::decimal(n as nat)
            + " packet(s) of routed applications that this session cannot carry, usually IPv6"@),
        is_warning(line, n, abandon_warning(n)) ==> (line matches Some(l) ==> l@
            == "MOUSEVPN_DIVERT_WARNING=abandoned "@ + text::decimal(n as nat)
            + " batch(es) after a packet WinDivert could not parse"@),
{
    reveal_with_fuel(counter::is_power_of_two, 3);
}

/// A translation leaves room for the headers: forty bytes of the tunnel's
/// packets are not payload.
pub proof fn translations_leave_room_for_the_headers(
    physical: IpAddr,
    tunnel: IpAddr,
    resolver: IpAddr,
    mtu: u16,
    translation: Translation,
)
    requires
        call_ensures(Translation::new, (physical, tunnel, resolver, mtu), translation),
    ensures
        mtu >= 40 ==> translation.max_segment_size + 40 == mtu,
        mtu < 40 ==> translation.max_segment_size == 0,
        translation.physical == physical,
        translation.tunnel == tunnel,
        translation.resolver == resolver,
{
}

/// The verdicts are listed in the order of the filters, one after another.
pub proof fn verdicts_follow_the_filters(
    candidates: Seq<String>,
    rejections: Seq<Option<String>>,
    n: int,
)
    requires
        0 < n <= candidates.len(),
        n <= rejections.len(),
    ensures
        rejections[n - 1] is None ==> verdict_lines(candidates, rejections, n) == verdict_lines(
            candidates,
            rejections,
            n - 1,
        ) + ("OK  "@ + candidates[n - 1]@ + "\n"@),
        rejections[n - 1] matches Some(error) ==> verdict_lines(candidates, rejections, n)
            == verdict_lines(candidates, rejections, n - 1) + ("FAIL "@ + error@ + "\n     "@
            + candidates[n - 1]@ + "\n"@),
        verdict_lines(candidates, rejections, 0).len() == 0,
{
}

} // verus!
