//! Minimal in-place editing of captured IP packets.

use vstd::prelude::*;

use crate::bytes;
use crate::ip::{IpAddr, Ipv4Addr, Ipv6Addr};

verus! {

pub const PROTOCOL_TCP: u8 = 6;

pub const PROTOCOL_UDP: u8 = 17;

/// Offset of the protocol field in an IPv4 header.
const V4_PROTOCOL: usize = 9;

const V4_SOURCE: usize = 12;

const V4_DESTINATION: usize = 16;

const V4_FRAGMENT: usize = 6;

const V4_MIN_HEADER: usize = 20;

/// Offset of the next-header field in an IPv6 header.
const V6_NEXT_HEADER: usize = 6;

const V6_SOURCE: usize = 8;

const V6_DESTINATION: usize = 24;

const V6_HEADER: usize = 40;

/// A TCP header without options.
const TCP_MIN_HEADER: usize = 20;

/// The length of a UDP header.
const UDP_HEADER: usize = 8;

/// The two IP versions.
#[derive(Clone, Copy, Debug, PartialEq, Eq, Structural)]
pub enum Version {
    V4,
    V6,
}

/// The version a packet declares in its first four bits.
pub open spec fn declared_version(s: Seq<u8>) -> nat {
    s[0] as nat / 16
}

/// The length of the IP header: as declared for IPv4, where options may extend
/// it, and fixed for IPv6.
pub open spec fn header_length(s: Seq<u8>) -> nat {
    if declared_version(s) == 4 {
        (s[0] as nat % 16) * 4
    } else {
        40
    }
}

/// The packets whose header can be edited without guessing: a complete IPv4
/// header, or a complete IPv6 header followed directly by TCP or UDP.
pub open spec fn editable(s: Seq<u8>) -> bool {
    &&& s.len() > 0
    &&& {
        ||| declared_version(s) == 4 && header_length(s) >= 20
        ||| declared_version(s) == 6 && s.len() > 6 && (s[6] == PROTOCOL_TCP || s[6]
            == PROTOCOL_UDP)
    }
    &&& s.len() >= header_length(s)
}

pub open spec fn version_of(s: Seq<u8>) -> Version {
    if declared_version(s) == 4 {
        Version::V4
    } else {
        Version::V6
    }
}

pub open spec fn protocol_of(s: Seq<u8>) -> u8 {
    if declared_version(s) == 4 {
        s[9]
    } else {
        s[6]
    }
}

/// The address stored at `at`.
pub open spec fn address_at(s: Seq<u8>, version: Version, at: int) -> IpAddr {
    match version {
        Version::V4 => IpAddr::V4(
            Ipv4Addr { bits: bytes::be_value(s.subrange(at, at + 4)) as u32 },
        ),
        Version::V6 => IpAddr::V6(
            Ipv6Addr { bits: bytes::be_value(s.subrange(at, at + 16)) as u128 },
        ),
    }
}

pub open spec fn source_at(version: Version) -> int {
    match version {
        Version::V4 => 12,
        Version::V6 => 8,
    }
}

pub open spec fn destination_at(version: Version) -> int {
    match version {
        Version::V4 => 16,
        Version::V6 => 24,
    }
}

pub open spec fn source_of(s: Seq<u8>) -> IpAddr {
    address_at(s, version_of(s), source_at(version_of(s)))
}

pub open spec fn destination_of(s: Seq<u8>) -> IpAddr {
    address_at(s, version_of(s), destination_at(version_of(s)))
}

/// The octets of an address in network order.
pub open spec fn address_bytes(address: IpAddr) -> Seq<u8> {
    match address {
        IpAddr::V4(a) => bytes::be_bytes(a.bits as nat, 4),
        IpAddr::V6(a) => bytes::be_bytes(a.bits as nat, 16),
    }
}

pub open spec fn same_family(version: Version, address: IpAddr) -> bool {
    (version is V4) == (address is V4)
}

/// Whether the packet carries its transport header: every packet but the
/// later fragments of an IPv4 datagram.
pub open spec fn is_first_fragment(s: Seq<u8>) -> bool {
    declared_version(s) == 4 ==> bytes::be16(s, 6) % 8192 == 0
}

/// The length of a transport header without options.
pub open spec fn transport_header(protocol: u8) -> int {
    if protocol == PROTOCOL_TCP {
        20
    } else {
        8
    }
}

/// The transport ports, where the packet carries a complete TCP or UDP header.
pub open spec fn ports_of(s: Seq<u8>) -> Option<(u16, u16)> {
    let at = header_length(s) as int;
    if (protocol_of(s) == PROTOCOL_TCP || protocol_of(s) == PROTOCOL_UDP) && is_first_fragment(s)
        && s.len() >= at + transport_header(protocol_of(s)) {
        Some((bytes::be16(s, at), bytes::be16(s, at + 2)))
    } else {
        None
    }
}

/// Where the value of the first maximum-segment-size option among the TCP
/// options `s[at..end]` is stored.
pub open spec fn mss_at(s: Seq<u8>, at: int, end: int) -> Option<int>
    decreases end - at,
{
    if at >= end || s[at] == 0 {
        // The end of the list.
        None
    } else if s[at] == 1 {
        // Padding, the one option without a length.
        mss_at(s, at + 1, end)
    } else if at + 1 >= end || s[at + 1] < 2 || at + s[at + 1] > end {
        None
    } else if s[at] == 2 && s[at + 1] == 4 {
        Some(at + 2)
    } else {
        mss_at(s, at + s[at + 1] as int, end)
    }
}

/// The end of the TCP header that starts at `at`.
pub open spec fn tcp_end(s: Seq<u8>, at: int) -> int {
    at + (s[at + 12] as int / 16) * 4
}

/// Where a connection-opening TCP segment offers its maximum segment size.
pub open spec fn offered_mss_at(s: Seq<u8>) -> Option<int> {
    let at = header_length(s) as int;
    if protocol_of(s) == PROTOCOL_TCP && is_first_fragment(s) && s.len() >= at + 20 && (s[at
        + 13] / 2) % 2 == 1 && at + 20 <= tcp_end(s, at) <= s.len() {
        mss_at(s, at + 20, tcp_end(s, at))
    } else {
        None
    }
}

/// `s` with an offered maximum segment size above `limit` lowered to it.
pub open spec fn clamped(s: Seq<u8>, limit: u16) -> Seq<u8> {
    match offered_mss_at(s) {
        Some(at) => if bytes::be16(s, at) > limit {
            bytes::overwrite(s, at, seq![(limit / 256) as u8, (limit % 256) as u8])
        } else {
            s
        },
        None => s,
    }
}

/// A borrowed IP packet that can have its addresses rewritten.
///
/// Rewriting invalidates the IP, TCP and UDP checksums, and nothing here
/// recomputes them: the driver fixes every checksum a packet carries in one
/// pass once the edit is complete.
pub struct Packet<'a> {
    pub bytes: &'a mut [u8],
    pub header_length: usize,
    pub version: Version,
}

impl<'a> Packet<'a> {
    /// The bytes of the packet.
    pub open spec fn data(&self) -> Seq<u8> {
        self.bytes@
    }

    pub open spec fn well_formed(&self) -> bool {
        &&& editable(self.data())
        &&& self.header_length == header_length(self.data())
        &&& self.version == version_of(self.data())
    }

    /// Parses the IP header of `bytes`.
    ///
    /// Returns `None` for anything this module refuses to edit blindly:
    /// truncated headers, a declared header length that runs past the buffer,
    /// or an IPv6 packet carrying extension headers. Guessing at any of those
    /// would mean writing an address over the wrong bytes.
    pub fn parse(bytes: &'a mut [u8]) -> (packet: Option<Packet<'a>>)
        ensures
            packet is Some <==> editable(old(bytes)@),
            packet matches Some(p) ==> p.well_formed() && p.data() == old(bytes)@
                && final(p.bytes)@ == final(bytes)@,
            packet is None ==> final(bytes)@ == old(bytes)@,
    {
        if bytes.len() == 0 {
            return None;
        }
        let (version, header_length): (Version, usize) = match bytes[0] / 16 {
            4 => (Version::V4, (bytes[0] % 16) as usize * 4),
            6 => (Version::V6, V6_HEADER),
            _ => return None,
        };
        match version {
            Version::V4 => {
                if header_length < V4_MIN_HEADER {
                    return None;
                }
            },
            Version::V6 => {
                // Extension headers would displace the transport header, and
                // the port offsets assume that it starts immediately.
                if bytes.len() <= V6_NEXT_HEADER || (bytes[V6_NEXT_HEADER] != PROTOCOL_TCP
                    && bytes[V6_NEXT_HEADER] != PROTOCOL_UDP) {
                    return None;
                }
            },
        }
        if bytes.len() >= header_length {
            Some(Packet { bytes, header_length, version })
        } else {
            None
        }
    }

    /// The transport protocol.
    pub fn protocol(&self) -> (protocol: u8)
        requires
            self.well_formed(),
        ensures
            protocol == protocol_of(self.data()),
    {
        match self.version {
            Version::V4 => self.bytes[V4_PROTOCOL],
            Version::V6 => self.bytes[V6_NEXT_HEADER],
        }
    }

    pub fn source(&self) -> (address: IpAddr)
        requires
            self.well_formed(),
        ensures
            address == source_of(self.data()),
    {
        self.address(self.source_offset())
    }

    pub fn destination(&self) -> (address: IpAddr)
        requires
            self.well_formed(),
        ensures
            address == destination_of(self.data()),
    {
        self.address(self.destination_offset())
    }

    /// Replaces the source address.
    ///
    /// Returns `false` when `address` belongs to the other family, which would
    /// otherwise write four bytes into a sixteen-byte field or vice versa.
    pub fn set_source(&mut self, address: IpAddr) -> (written: bool)
        requires
            old(self).well_formed(),
        ensures
            final(self).well_formed(),
            final(final(self).bytes)@ == final(old(self).bytes)@,
            written == same_family(version_of(old(self).data()), address),
            written ==> final(self).data() == bytes::overwrite(
                old(self).data(),
                source_at(version_of(old(self).data())),
                address_bytes(address),
            ),
            !written ==> final(self).data() == old(self).data(),
    {
        let offset = self.source_offset();
        self.set_address(offset, address)
    }

    /// Replaces the destination address.
    ///
    /// Returns `false` on an address family mismatch.
    pub fn set_destination(&mut self, address: IpAddr) -> (written: bool)
        requires
            old(self).well_formed(),
        ensures
            final(self).well_formed(),
            final(final(self).bytes)@ == final(old(self).bytes)@,
            written == same_family(version_of(old(self).data()), address),
            written ==> final(self).data() == bytes::overwrite(
                old(self).data(),
                destination_at(version_of(old(self).data())),
                address_bytes(address),
            ),
            !written ==> final(self).data() == old(self).data(),
    {
        let offset = self.destination_offset();
        self.set_address(offset, address)
    }

    /// Reads the transport source and destination ports.
    ///
    /// Returns `None` unless the packet carries a complete TCP or UDP header.
    /// A trailing IPv4 fragment has no transport header at all, so it reports
    /// `None` rather than reading payload bytes as ports.
    pub fn ports(&self) -> (ports: Option<(u16, u16)>)
        requires
            self.well_formed(),
        ensures
            ports == ports_of(self.data()),
    {
        let protocol = self.protocol();
        if (protocol != PROTOCOL_TCP && protocol != PROTOCOL_UDP) || !self.is_first_fragment() {
            return None;
        }
        let needed: usize = if protocol == PROTOCOL_TCP {
            TCP_MIN_HEADER
        } else {
            UDP_HEADER
        };
        if self.bytes.len() - self.header_length < needed {
            return None;
        }
        Some(
            (
                bytes::read_be16(self.bytes, self.header_length),
                bytes::read_be16(self.bytes, self.header_length + 2),
            ),
        )
    }

    /// Lowers the maximum segment size that a connection-opening TCP segment
    /// offers to `limit`, and leaves every other packet alone.
    ///
    /// The option governs what the peer sends, so limiting it keeps segments
    /// from growing past what the tunnel can carry.
    pub fn clamp_mss(&mut self, limit: u16)
        requires
            old(self).well_formed(),
        ensures
            final(self).well_formed(),
            final(final(self).bytes)@ == final(old(self).bytes)@,
            final(self).data() == clamped(old(self).data(), limit),
    {
        let start = self.header_length;
        if self.protocol() != PROTOCOL_TCP || !self.is_first_fragment() || self.bytes.len() - start
            < TCP_MIN_HEADER {
            return ;
        }
        if (self.bytes[start + 13] / 2) % 2 != 1 {
            return ;
        }
        let length = (self.bytes[start + 12] / 16) as usize * 4;
        if length < TCP_MIN_HEADER || length > self.bytes.len() - start {
            return ;
        }
        match find_mss(self.bytes, start + TCP_MIN_HEADER, start + length) {
            None => {},
            Some(at) => {
                if bytes::read_be16(self.bytes, at) > limit {
                    let patch: Vec<u8> = vec![(limit / 256) as u8, (limit % 256) as u8];
                    bytes::write_at(self.bytes, at, &patch);
                    assert(patch@ =~= seq![(limit / 256) as u8, (limit % 256) as u8]);
                }
            },
        }
    }

    /// Reports whether this packet carries the transport header.
    ///
    /// Only the first fragment of a fragmented IPv4 datagram does. The later
    /// ones still need their addresses rewritten, so they are not rejected
    /// outright: they simply have no ports to read.
    fn is_first_fragment(&self) -> (first: bool)
        requires
            self.well_formed(),
        ensures
            first == is_first_fragment(self.data()),
    {
        match self.version {
            Version::V4 => bytes::read_be16(self.bytes, V4_FRAGMENT) % 8192 == 0,
            Version::V6 => true,
        }
    }

    fn source_offset(&self) -> (offset: usize)
        requires
            self.well_formed(),
        ensures
            offset == source_at(version_of(self.data())),
    {
        match self.version {
            Version::V4 => V4_SOURCE,
            Version::V6 => V6_SOURCE,
        }
    }

    fn destination_offset(&self) -> (offset: usize)
        requires
            self.well_formed(),
        ensures
            offset == destination_at(version_of(self.data())),
    {
        match self.version {
            Version::V4 => V4_DESTINATION,
            Version::V6 => V6_DESTINATION,
        }
    }

    fn address(&self, offset: usize) -> (address: IpAddr)
        requires
            self.well_formed(),
            offset == source_at(version_of(self.data())) || offset == destination_at(
                version_of(self.data()),
            ),
        ensures
            address == address_at(self.data(), version_of(self.data()), offset as int),
    {
        proof {
            bytes::lemma_pow256_16();
            bytes::lemma_be_value_bound(self.data().subrange(offset as int, offset + 4));
        }
        match self.version {
            Version::V4 => IpAddr::V4(
                Ipv4Addr { bits: bytes::read_be(self.bytes, offset, 4) as u32 },
            ),
            Version::V6 => IpAddr::V6(Ipv6Addr { bits: bytes::read_be(self.bytes, offset, 16) }),
        }
    }

    fn set_address(&mut self, offset: usize, address: IpAddr) -> (written: bool)
        requires
            old(self).well_formed(),
            offset == source_at(version_of(old(self).data())) || offset == destination_at(
                version_of(old(self).data()),
            ),
        ensures
            final(self).well_formed(),
            final(final(self).bytes)@ == final(old(self).bytes)@,
            written == same_family(version_of(old(self).data()), address),
            written ==> final(self).data() == bytes::overwrite(
                old(self).data(),
                offset as int,
                address_bytes(address),
            ),
            !written ==> final(self).data() == old(self).data(),
    {
        let octets: Vec<u8> = match (self.version, address) {
            (Version::V4, IpAddr::V4(a)) => bytes::be_octets(a.bits as u128, 4),
            (Version::V6, IpAddr::V6(a)) => bytes::be_octets(a.bits, 16),
            _ => return false,
        };
        proof {
            match address {
                IpAddr::V4(a) => bytes::lemma_be_bytes_len(a.bits as nat, 4),
                IpAddr::V6(a) => bytes::lemma_be_bytes_len(a.bits as nat, 16),
            }
        }
        bytes::write_at(self.bytes, offset, &octets);
        true
    }
}

/// Finds the value of the first maximum-segment-size option in `bytes[from..end]`.
fn find_mss(bytes: &[u8], from: usize, end: usize) -> (found: Option<usize>)
    requires
        from <= end <= bytes.len(),
    ensures
        match mss_at(bytes@, from as int, end as int) {
            Some(at) => found matches Some(f) && f == at && from < f && f + 2 <= end,
            None => found is None,
        },
{
    let mut at: usize = from;
    while at < end
        invariant
            from <= at <= end <= bytes.len(),
            mss_at(bytes@, from as int, end as int) == mss_at(bytes@, at as int, end as int),
        decreases end - at,
    {
        let kind = bytes[at];
        if kind == 0 {
            return None;
        }
        if kind == 1 {
            at = at + 1;
            continue ;
        }
        if at + 1 >= end {
            return None;
        }
        let length = bytes[at + 1] as usize;
        if length < 2 || length > end - at {
            return None;
        }
        if kind == 2 && length == 4 {
            return Some(at + 2);
        }
        at = at + length;
    }
    None
}

proof fn lemma_address_round_trip(s: Seq<u8>, version: Version, at: int, address: IpAddr)
    requires
        same_family(version, address),
        0 <= at,
        at + address_bytes(address).len() <= s.len(),
    ensures
        address_at(bytes::overwrite(s, at, address_bytes(address)), version, at) == address,
{
    bytes::lemma_pow256_16();
    let t = bytes::overwrite(s, at, address_bytes(address));
    match address {
        IpAddr::V4(a) => {
            bytes::lemma_be_bytes_len(a.bits as nat, 4);
            bytes::lemma_be_value_of_be_bytes(a.bits as nat, 4);
            assert(t.subrange(at, at + 4) =~= address_bytes(address));
        },
        IpAddr::V6(a) => {
            bytes::lemma_be_bytes_len(a.bits as nat, 16);
            bytes::lemma_be_value_of_be_bytes(a.bits as nat, 16);
            assert(t.subrange(at, at + 16) =~= address_bytes(address));
        },
    }
}

proof fn lemma_address_bytes_len(address: IpAddr)
    ensures
        address_bytes(address).len() == (if address is V4 { 4nat } else { 16nat }),
{
    match address {
        IpAddr::V4(a) => bytes::lemma_be_bytes_len(a.bits as nat, 4),
        IpAddr::V6(a) => bytes::lemma_be_bytes_len(a.bits as nat, 16),
    }
}

/// Rewriting the source of a packet makes `address` its source and leaves the
/// destination, the protocol, the ports and every byte outside the address
/// field as they were.
pub proof fn rewriting_the_source_changes_nothing_else(s: Seq<u8>, address: IpAddr)
    requires
        editable(s),
        same_family(version_of(s), address),
    ensures
        ({
            let at = source_at(version_of(s));
            let t = bytes::overwrite(s, at, address_bytes(address));
            &&& editable(t)
            &&& version_of(t) == version_of(s)
            &&& source_of(t) == address
            &&& destination_of(t) == destination_of(s)
            &&& protocol_of(t) == protocol_of(s)
            &&& ports_of(t) == ports_of(s)
            &&& t.len() == s.len()
            &&& forall|i: int|
                0 <= i < s.len() && !(at <= i < at + address_bytes(address).len()) ==> t[i] == s[i]
        }),
{
    lemma_address_bytes_len(address);
    let at = source_at(version_of(s));
    let t = bytes::overwrite(s, at, address_bytes(address));
    lemma_address_round_trip(s, version_of(s), at, address);
    let to = destination_at(version_of(s));
    assert(t.subrange(to, to + 4) =~= s.subrange(to, to + 4));
    if version_of(s) is V6 {
        assert(t.subrange(to, to + 16) =~= s.subrange(to, to + 16));
    }
}

/// Rewriting the destination of a packet makes `address` its destination and
/// leaves the source, the protocol, the ports and every byte outside the
/// address field as they were.
pub proof fn rewriting_the_destination_changes_nothing_else(s: Seq<u8>, address: IpAddr)
    requires
        editable(s),
        same_family(version_of(s), address),
    ensures
        ({
            let at = destination_at(version_of(s));
            let t = bytes::overwrite(s, at, address_bytes(address));
            &&& editable(t)
            &&& version_of(t) == version_of(s)
            &&& destination_of(t) == address
            &&& source_of(t) == source_of(s)
            &&& protocol_of(t) == protocol_of(s)
            &&& ports_of(t) == ports_of(s)
            &&& t.len() == s.len()
            &&& forall|i: int|
                0 <= i < s.len() && !(at <= i < at + address_bytes(address).len()) ==> t[i] == s[i]
        }),
{
    lemma_address_bytes_len(address);
    let at = destination_at(version_of(s));
    let t = bytes::overwrite(s, at, address_bytes(address));
    lemma_address_round_trip(s, version_of(s), at, address);
    let from = source_at(version_of(s));
    assert(t.subrange(from, from + 4) =~= s.subrange(from, from + 4));
    if version_of(s) is V6 {
        assert(t.subrange(from, from + 16) =~= s.subrange(from, from + 16));
    }
}

proof fn lemma_mss_at_bounds(s: Seq<u8>, at: int, end: int)
    requires
        0 <= at,
    ensures
        mss_at(s, at, end) matches Some(m) ==> at + 2 <= m && m + 2 <= end,
    decreases end - at,
{
    if at < end && s[at] != 0 {
        if s[at] == 1 {
            lemma_mss_at_bounds(s, at + 1, end);
        } else if at + 1 < end && s[at + 1] >= 2 && at + s[at + 1] <= end {
            lemma_mss_at_bounds(s, at + s[at + 1] as int, end);
        }
    }
}

/// The option list up to the value found does not depend on that value.
proof fn lemma_mss_at_stable(s: Seq<u8>, t: Seq<u8>, at: int, end: int)
    requires
        0 <= at,
        end <= s.len(),
        s.len() == t.len(),
        mss_at(s, at, end) is Some,
        forall|i: int|
            at <= i < s.len() && !(mss_at(s, at, end)->0 <= i < mss_at(s, at, end)->0 + 2)
                ==> t[i] == s[i],
    ensures
        mss_at(t, at, end) == mss_at(s, at, end),
    decreases end - at,
{
    lemma_mss_at_bounds(s, at, end);
    assert(t[at] == s[at]);
    if s[at] == 1 {
        lemma_mss_at_stable(s, t, at + 1, end);
    } else {
        assert(t[at + 1] == s[at + 1]);
        if !(s[at] == 2 && s[at + 1] == 4) {
            lemma_mss_at_bounds(s, at + s[at + 1] as int, end);
            lemma_mss_at_stable(s, t, at + s[at + 1] as int, end);
        }
    }
}

/// Clamping leaves the addresses, the ports and the length of a packet alone,
/// and the segment size it still offers, if any, is within the limit.
/// Clamping again changes nothing.
pub proof fn clamping_only_limits_the_segment_size(s: Seq<u8>, limit: u16)
    requires
        editable(s),
    ensures
        editable(clamped(s, limit)),
        clamped(s, limit).len() == s.len(),
        source_of(clamped(s, limit)) == source_of(s),
        destination_of(clamped(s, limit)) == destination_of(s),
        ports_of(clamped(s, limit)) == ports_of(s),
        offered_mss_at(clamped(s, limit)) == offered_mss_at(s),
        offered_mss_at(s) matches Some(at) ==> bytes::be16(clamped(s, limit), at) <= limit,
        clamped(clamped(s, limit), limit) == clamped(s, limit),
{
    let t = clamped(s, limit);
    let start = header_length(s) as int;
    if let Some(at) = offered_mss_at(s) {
        let end = tcp_end(s, start);
        lemma_mss_at_bounds(s, start + 20, end);
        assert(forall|i: int| 0 <= i < s.len() && !(at <= i < at + 2) ==> t[i] == s[i]);
        lemma_mss_at_stable(s, t, start + 20, end);
        assert(t[start + 12] == s[start + 12]);
        assert(t[start + 13] == s[start + 13]);
        assert(t[0] == s[0] && t[6] == s[6] && t[7] == s[7] && t[9] == s[9]);
        if bytes::be16(s, at) > limit {
            assert(bytes::be16(t, at) == limit);
        }
        let from = source_at(version_of(s));
        let to = destination_at(version_of(s));
        assert(t.subrange(from, from + 4) =~= s.subrange(from, from + 4));
        assert(t.subrange(to, to + 4) =~= s.subrange(to, to + 4));
        if version_of(s) is V6 {
            assert(t.subrange(from, from + 16) =~= s.subrange(from, from + 16));
            assert(t.subrange(to, to + 16) =~= s.subrange(to, to + 16));
        }
    }
}

/// The ports of an IPv4 packet are the two words behind its header, where the
/// packet is TCP or UDP, its 13-bit fragment offset is zero and the transport
/// header is complete: 20 bytes of TCP, 8 of UDP. The three flags beside the
/// offset do not matter.
pub proof fn ipv4_ports_stand_behind_the_header(s: Seq<u8>)
    requires
        s.len() >= 20,
        s[0] / 16 == 4,
        s[0] % 16 >= 5,
        s.len() >= (s[0] % 16) * 4,
    ensures
        ({
            let at = (s[0] % 16) * 4;
            let carried = ((s[9] == 6 && s.len() >= at + 20) || (s[9] == 17 && s.len() >= at + 8))
                && s[6] % 32 == 0 && s[7] == 0;
            &&& carried ==> ports_of(s) == Some(
                (
                    (s[at] * 256 + s[at + 1]) as u16,
                    (s[at + 2] * 256 + s[at + 3]) as u16,
                ),
            )
            &&& !carried ==> ports_of(s) is None
        }),
{
    let field = s[6] as int * 256 + s[7] as int;
    assert(field % 8192 == (s[6] as int % 32) * 256 + s[7] as int);
}

/// The ports of an IPv6 packet stand behind the fixed header of 40 bytes.
pub proof fn ipv6_ports_stand_behind_the_header(s: Seq<u8>)
    requires
        s.len() >= 40,
        s[0] / 16 == 6,
    ensures
        ({
            let carried = (s[6] == 6 && s.len() >= 60) || (s[6] == 17 && s.len() >= 48);
            &&& carried ==> ports_of(s) == Some(
                ((s[40] * 256 + s[41]) as u16, (s[42] * 256 + s[43]) as u16),
            )
            &&& !carried ==> ports_of(s) is None
        }),
{
}

/// A packet is edited exactly when its header is complete: an IPv4 header of
/// the length that it declares, at least 20 bytes, or the 40 bytes of an IPv6
/// header that TCP or UDP follows.
pub proof fn complete_headers_are_edited(s: Seq<u8>)
    ensures
        editable(s) <==> s.len() > 0 && ((s[0] / 16 == 4 && s[0] % 16 >= 5 && s.len() >= (s[0] % 16)
            * 4) || (s[0] / 16 == 6 && s.len() >= 40 && (s[6] == 6 || s[6] == 17))),
        editable(s) ==> protocol_of(s) == (if s[0] / 16 == 4 {
            s[9]
        } else {
            s[6]
        }),
{
}

/// Changing the flags of the fragment field of an IPv4 packet changes neither
/// its addresses nor its ports, nor whether it is edited.
pub proof fn fragment_flags_do_not_matter(s: Seq<u8>, flags: u8)
    requires
        editable(s),
        s[0] / 16 == 4,
    ensures
        ({
            let t = s.update(6, (s[6] % 32 + (flags % 8) * 32) as u8);
            &&& editable(t)
            &&& protocol_of(t) == protocol_of(s)
            &&& source_of(t) == source_of(s)
            &&& destination_of(t) == destination_of(s)
            &&& ports_of(t) == ports_of(s)
            &&& offered_mss_at(t) == offered_mss_at(s)
        }),
{
    let t = s.update(6, (s[6] % 32 + (flags % 8) * 32) as u8);
    assert(t[6] % 32 == s[6] % 32);
    ipv4_ports_stand_behind_the_header(s);
    ipv4_ports_stand_behind_the_header(t);
    assert(t.subrange(12, 16) =~= s.subrange(12, 16));
    assert(t.subrange(16, 20) =~= s.subrange(16, 20));
    let at = header_length(s) as int;
    let a = s[6] as int * 256 + s[7] as int;
    let b = t[6] as int * 256 + t[7] as int;
    assert(a % 8192 == (s[6] as int % 32) * 256 + s[7] as int);
    assert(b % 8192 == (t[6] as int % 32) * 256 + t[7] as int);
    if offered_mss_at(s) is Some || offered_mss_at(t) is Some {
        lemma_mss_at_same(s, t, at + 20, tcp_end(s, at));
    }
}

/// The option list is read from its own bytes alone.
proof fn lemma_mss_at_same(s: Seq<u8>, t: Seq<u8>, at: int, end: int)
    requires
        0 <= at,
        end <= s.len(),
        s.len() == t.len(),
        forall|i: int| at <= i < s.len() ==> t[i] == s[i],
    ensures
        mss_at(t, at, end) == mss_at(s, at, end),
    decreases end - at,
{
    if at < end && s[at] != 0 {
        if s[at] == 1 {
            lemma_mss_at_same(s, t, at + 1, end);
        } else if at + 1 < end && s[at + 1] >= 2 && at + s[at + 1] <= end {
            lemma_mss_at_same(s, t, at + s[at + 1] as int, end);
        }
    }
}

proof fn lemma_be_value_of_four(s: Seq<u8>)
    requires
        s.len() == 4,
    ensures
        bytes::be_value(s) == s[0] * 16777216 + s[1] * 65536 + s[2] * 256 + s[3],
{
    let c = s.drop_last();
    let b = c.drop_last();
    let a = b.drop_last();
    assert(a.drop_last() =~= Seq::<u8>::empty());
    assert(bytes::be_value(a.drop_last()) == 0);
    assert(bytes::be_value(a) == s[0]);
    assert(bytes::be_value(b) == s[0] * 256 + s[1]);
    assert(bytes::be_value(c) == (s[0] * 256 + s[1]) * 256 + s[2]);
}

/// An IPv4 header names its sender in the bytes 12 to 15 and its receiver in
/// the bytes 16 to 19, the most significant first.
pub proof fn ipv4_addresses_stand_in_the_header(s: Seq<u8>)
    requires
        s.len() >= 20,
        s[0] / 16 == 4,
    ensures
        source_of(s) matches IpAddr::V4(a) && a.bits == s[12] * 16777216 + s[13] * 65536 + s[14] * 256
            + s[15],
        destination_of(s) matches IpAddr::V4(a) && a.bits == s[16] * 16777216 + s[17] * 65536 + s[18]
            * 256 + s[19],
{
    lemma_be_value_of_four(s.subrange(12, 16));
    lemma_be_value_of_four(s.subrange(16, 20));
}

/// An IPv6 header names its sender in the 16 bytes from byte 8 on and its
/// receiver in the 16 bytes from byte 24 on, the most significant first.
pub proof fn ipv6_addresses_stand_in_the_header(s: Seq<u8>, i: int)
    requires
        s.len() >= 40,
        s[0] / 16 == 6,
        0 <= i < 16,
    ensures
        source_of(s) matches IpAddr::V6(a) && bytes::be_bytes(a.bits as nat, 16)[i] == s[8 + i],
        destination_of(s) matches IpAddr::V6(a) && bytes::be_bytes(a.bits as nat, 16)[i] == s[24 + i],
{
    let from = s.subrange(8, 24);
    let to = s.subrange(24, 40);
    bytes::lemma_pow256_16();
    bytes::lemma_be_value_bound(from);
    bytes::lemma_be_value_bound(to);
    bytes::lemma_be_bytes_of_be_value(from);
    bytes::lemma_be_bytes_of_be_value(to);
    assert(from[i] == s[8 + i]);
    assert(to[i] == s[24 + i]);
}

/// Whether `at` lists the positions of TCP options that follow one another:
/// each but the last is padding of one byte, or an option of another kind whose
/// length leads to the next.
pub open spec fn follow_one_another(s: Seq<u8>, at: Seq<int>) -> bool {
    forall|i: int|
        0 <= i < at.len() - 1 ==> {
            let here = #[trigger] at[i];
            ||| s[here] == 1 && at[i + 1] == here + 1
            ||| s[here] >= 2 && s[here + 1] >= 2 && !(s[here] == 2 && s[here + 1] == 4) && at[i + 1]
                == here + s[here + 1]
        }
}

proof fn lemma_mss_found(s: Seq<u8>, at: Seq<int>, end: int)
    requires
        at.len() > 0,
        0 <= at[0],
        end <= s.len(),
        follow_one_another(s, at),
        s[at.last()] == 2 && s[at.last() + 1] == 4,
        at.last() + 4 <= end,
    ensures
        mss_at(s, at[0], end) == Some(at.last() + 2),
        at[0] <= at.last(),
    decreases at.len(),
{
    if at.len() > 1 {
        let rest = at.drop_first();
        assert(at[0] + 1 <= at[1]);
        assert forall|i: int| 0 <= i < rest.len() - 1 implies {
            let here = #[trigger] rest[i];
            ||| s[here] == 1 && rest[i + 1] == here + 1
            ||| s[here] >= 2 && s[here + 1] >= 2 && !(s[here] == 2 && s[here + 1] == 4) && rest[i
                + 1] == here + s[here + 1]
        } by {
            assert(rest[i] == at[i + 1] && rest[i + 1] == at[i + 2]);
        }
        lemma_mss_found(s, rest, end);
        assert(rest.last() == at.last());
    }
}

/// A connection that opens offers no larger segments than the tunnel carries:
/// wherever the segment size stands among the TCP options of a segment with the
/// SYN flag, it becomes the smaller of what it was and the limit, and no other
/// byte changes.
pub proof fn opening_segments_offer_what_fits(s: Seq<u8>, limit: u16, at: Seq<int>)
    requires
        editable(s),
        protocol_of(s) == 6,
        ports_of(s) is Some,
        ({
            let start = if s[0] / 16 == 4 {
                (s[0] % 16) * 4
            } else {
                40
            };
            let end = start + (s[start + 12] / 16) * 4;
            &&& (s[start + 13] / 2) % 2 == 1
            &&& end <= s.len()
            &&& at.len() > 0
            &&& at[0] == start + 20
            &&& follow_one_another(s, at)
            &&& s[at.last()] == 2 && s[at.last() + 1] == 4
            &&& at.last() + 4 <= end
        }),
    ensures
        ({
            let value = s[at.last() + 2] * 256 + s[at.last() + 3];
            let t = clamped(s, limit);
            &&& t[at.last() + 2] * 256 + t[at.last() + 3] == if value > limit {
                limit as int
            } else {
                value
            }
            &&& t.len() == s.len()
            &&& forall|i: int|
                0 <= i < s.len() && i != at.last() + 2 && i != at.last() + 3 ==> t[i] == s[i]
        }),
{
    let start = header_length(s) as int;
    lemma_mss_found(s, at, tcp_end(s, start));
}

/// A packet that is no TCP segment with a complete header and the SYN flag, or
/// a later fragment, is left alone whatever the limit.
pub proof fn only_opening_segments_are_clamped(s: Seq<u8>, limit: u16)
    requires
        editable(s),
        protocol_of(s) != 6 || ports_of(s) is None || (s[(if s[0] / 16 == 4 {
            (s[0] % 16) * 4
        } else {
            40
        }) + 13] / 2) % 2 == 0,
    ensures
        clamped(s, limit) == s,
{
}

/// Clamping changes no byte of the IP header.
pub proof fn clamping_keeps_the_header(s: Seq<u8>, limit: u16)
    requires
        editable(s),
    ensures
        clamped(s, limit).len() == s.len(),
        forall|i: int|
            0 <= i < (if s[0] / 16 == 4 {
                (s[0] % 16) * 4
            } else {
                40
            }) ==> clamped(s, limit)[i] == s[i],
{
    let start = header_length(s) as int;
    if offered_mss_at(s) is Some {
        lemma_mss_at_bounds(s, start + 20, tcp_end(s, start));
    }
}

} // verus!
