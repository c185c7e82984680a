//! Geo-direct routing data and the correlation of name lookups with it.
//!
//! The packet layer knows no names, so the answers to ordinary name queries
//! are watched: an address that a direct domain resolved to is routed directly
//! until the answer expires.

use vstd::prelude::*;

use crate::error::is_platform;
use crate::flow::FlowTable;
use crate::ip::{IpAddr, Ipv4Addr, Ipv6Addr};
use crate::trie::Ipv4Trie;
use crate::{bytes, clock, ip, text, trie, ClientError};

verus! {

/// The packets that the name watcher is shown.
pub const DNS_FILTER: &'static str = "inbound and !loopback and udp and udp.SrcPort == 53";

/// The size of the buffer an answer is received in.
pub const DNS_BUFFER: usize = 4096;

/// How long an answer without a lifetime is kept, in seconds.
pub const DNS_TTL_FALLBACK: u32 = 60;

/// The network and prefix length that a line of the address list denotes.
pub open spec fn cidr_of(line: Seq<char>) -> Option<(u32, u8)> {
    let slash = text::first_index(line, '/') as int;
    if slash < line.len() {
        match (
            ip::ipv4_parsed(line.subrange(0, slash)),
            text::unsigned_value(line.subrange(slash + 1, line.len() as int), 255),
        ) {
            (Some(address), Some(prefix)) => if prefix <= 32 {
                Some((address.bits, prefix as u8))
            } else {
                None
            },
            _ => None,
        }
    } else {
        None
    }
}

/// Reads a line of the address list.
pub fn parse_cidr(line: &str) -> (cidr: Option<(u32, u8)>)
    ensures
        cidr == cidr_of(line@),
{
    let chars = text::chars_of(line);
    let slash = text::index_of(&chars, '/');
    proof {
        text::lemma_first_index(chars@, '/');
    }
    if slash >= chars.len() {
        return None;
    }
    let address = Ipv4Addr::parse(text::range_text(&chars, 0, slash).as_str());
    let prefix = text::parse_unsigned(
        text::range_text(&chars, slash + 1, chars.len()).as_str(),
        255,
    );
    match (address, prefix) {
        (Some(a), Some(p)) => {
            if p <= 32 {
                Some((a.bits, p as u8))
            } else {
                None
            }
        },
        _ => None,
    }
}

/// A domain name as it is compared: trimmed, without trailing dots, in lower
/// case.
pub open spec fn normal_domain(domain: Seq<char>) -> Seq<char> {
    text::ascii_lower(text::trim_end_char(text::trim(domain), '.'))
}

/// The domain name that `domain` is compared as.
pub fn normalize_domain(domain: &str) -> (normal: String)
    ensures
        normal@ == normal_domain(domain@),
{
    let trimmed = text::trimmed(domain);
    let undotted = text::trimmed_end_char(trimmed.as_str(), '.');
    text::lowered_ascii(undotted.as_str())
}

pub open spec fn has_space(s: Seq<char>) -> bool {
    exists|i: int| 0 <= i < s.len() && text::is_space(#[trigger] s[i])
}

/// The part of a line before a comment, trimmed.
pub open spec fn uncommented(line: Seq<char>) -> Seq<char> {
    text::trim(line.subrange(0, text::first_index(line, '#') as int))
}

/// What follows the optional `domain:` tag, trimmed.
pub open spec fn untagged(line: Seq<char>) -> Seq<char> {
    text::trim(
        if text::starts_with(line, "domain:"@) {
            text::after_prefix(line, "domain:"@)
        } else {
            line
        },
    )
}

/// The domain that a line of a domain list names.
pub open spec fn domain_of(line: Seq<char>) -> Option<Seq<char>> {
    let content = uncommented(line);
    let domain = untagged(content);
    if content.len() == 0 || domain.len() == 0 || has_space(domain) {
        None
    } else {
        Some(normal_domain(domain))
    }
}

/// Reads a line of a domain list.
pub fn parse_domain(line: &str) -> (domain: Option<String>)
    ensures
        match domain_of(line@) {
            Some(d) => domain matches Some(s) && s@ == d,
            None => domain is None,
        },
{
    let chars = text::chars_of(line);
    proof {
        text::lemma_first_index(chars@, '#');
    }
    let comment = text::index_of(&chars, '#');
    let content = text::trimmed(text::range_text(&chars, 0, comment).as_str());
    if content.as_str().is_empty() {
        return None;
    }
    let tagless = match text::strip_prefix(content.as_str(), "domain:") {
        Some(rest) => rest,
        None => content,
    };
    let domain = text::trimmed(tagless.as_str());
    let letters = text::chars_of(domain.as_str());
    if letters.len() == 0 {
        return None;
    }
    let mut i: usize = 0;
    while i < letters.len()
        invariant
            i <= letters@.len(),
            letters@ == domain@,
            domain@ == untagged(uncommented(line@)),
            forall|j: int| 0 <= j < i ==> !text::is_space(#[trigger] letters@[j]),
        decreases letters@.len() - i,
    {
        if text::space(letters[i]) {
            assert(text::is_space(domain@[i as int]));
            return None;
        }
        i = i + 1;
    }
    Some(normalize_domain(domain.as_str()))
}

/// Whether a domain equals `candidate` or lies below it.
pub open spec fn is_within(domain: Seq<char>, candidate: Seq<char>) -> bool {
    domain == candidate || text::ends_with(domain, "."@ + candidate)
}

/// Whether the address list `lines` holds a network that `address` lies in.
pub open spec fn listed_address(lines: Seq<Seq<char>>, address: u32) -> bool {
    exists|i: int| #[trigger] line_covers(lines, i, address)
}

pub open spec fn line_covers(lines: Seq<Seq<char>>, i: int, address: u32) -> bool {
    &&& 0 <= i < lines.len()
    &&& cidr_of(text::trim(lines[i])) matches Some((network, prefix))
    &&& trie::agree(address, network, prefix as int)
}

/// Whether `domain` is named by one of `lines`.
pub open spec fn names_domain(lines: Seq<Seq<char>>, domain: Seq<char>) -> bool {
    exists|i: int| 0 <= i < lines.len() && domain_of(#[trigger] lines[i]) == Some(domain)
}

/// Decides which addresses and domains are reached without the tunnel.
pub struct GeoRouter {
    cidrs: Ipv4Trie,
    domains: Vec<String>,
}

impl GeoRouter {
    /// Whether `address` lies in a direct network.
    pub closed spec fn direct_v4(&self, address: u32) -> bool {
        self.cidrs.holds(address)
    }

    /// The direct domains.
    pub closed spec fn domain_list(&self) -> Seq<Seq<char>> {
        text::texts(self.domains@)
    }

    pub open spec fn direct_ip(&self, address: IpAddr) -> bool {
        match address {
            IpAddr::V4(a) => self.direct_v4(a.bits),
            IpAddr::V6(_) => false,
        }
    }

    pub open spec fn direct_domain(&self, domain: Seq<char>) -> bool {
        exists|i: int|
            0 <= i < self.domain_list().len() && is_within(
                normal_domain(domain),
                #[trigger] self.domain_list()[i],
            )
    }

    /// Builds the router from the text of the address list and of the two
    /// domain lists.
    ///
    /// # Errors
    ///
    /// Returns [`ClientError::Platform`] when the lists name no domain.
    pub fn from_lists(direct_ips: &str, category: &str, whitelist: &str) -> (router: Result<
        GeoRouter,
        ClientError,
    >)
        ensures
            ({
                let lines = text::split(category@, '\n') + text::split(whitelist@, '\n');
                &&& router is Ok <==> exists|d: Seq<char>| names_domain(lines, d)
                &&& router matches Ok(r) ==> {
                    &&& forall|address: u32|
                        r.direct_v4(address) == #[trigger] listed_address(
                            text::split(direct_ips@, '\n'),
                            address,
                        )
                    &&& forall|d: Seq<char>|
                        r.domain_list().contains(d) <==> #[trigger] names_domain(lines, d)
                    &&& r.domain_list().no_duplicates()
                }
                &&& router matches Err(e) ==> is_platform(
                    e,
                    "embedded RoscomVPN geo-direct data is empty"@,
                )
            }),
    {
        let cidrs = read_addresses(direct_ips);
        let mut domains: Vec<String> = Vec::new();
        let ghost first = text::split(category@, '\n');
        let ghost second = text::split(whitelist@, '\n');
        read_domains(category, &mut domains);
        let ghost middle = text::texts(domains@);
        read_domains(whitelist, &mut domains);
        let ghost list = text::texts(domains@);
        proof {
            let lines = first + second;
            assert forall|d: Seq<char>| list.contains(d) <==> #[trigger] names_domain(lines, d) by {
                lemma_names_domain_concat(first, second, d);
                assert(middle.contains(d) <==> names_domain(first, d));
                assert(list.contains(d) <==> middle.contains(d) || names_domain(second, d));
            }
        }
        if domains.len() == 0 {
            proof {
                assert forall|d: Seq<char>| !names_domain(first + second, d) by {
                    assert(!list.contains(d));
                }
            }
            return Err(ClientError::platform("embedded RoscomVPN geo-direct data is empty"));
        }
        proof {
            assert(list.contains(list[0]));
            assert(names_domain(first + second, list[0]));
        }
        Ok(GeoRouter { cidrs, domains })
    }

    /// Whether `address` is reached without the tunnel.
    pub fn is_direct_ip(&self, address: IpAddr) -> (direct: bool)
        ensures
            direct == self.direct_ip(address),
    {
        match address {
            IpAddr::V4(a) => self.cidrs.contains(a.bits),
            IpAddr::V6(_) => false,
        }
    }

    /// Whether `domain` is reached without the tunnel.
    pub fn is_direct_domain(&self, domain: &str) -> (direct: bool)
        ensures
            direct == self.direct_domain(domain@),
    {
        let normal = normalize_domain(domain);
        let mut i: usize = 0;
        while i < self.domains.len()
            invariant
                i <= self.domains@.len(),
                normal@ == normal_domain(domain@),
                forall|j: int|
                    0 <= j < i ==> !is_within(normal@, #[trigger] self.domain_list()[j]),
            decreases self.domains@.len() - i,
        {
            assert(self.domain_list()[i as int] == self.domains@[i as int]@);
            let dotted = String::from_str(".").concat(self.domains[i].as_str());
            if text::same(normal.as_str(), self.domains[i].as_str()) || text::has_suffix(
                normal.as_str(),
                dotted.as_str(),
            ) {
                return true;
            }
            i = i + 1;
        }
        false
    }
}

proof fn lemma_names_domain_concat(a: Seq<Seq<char>>, b: Seq<Seq<char>>, d: Seq<char>)
    ensures
        names_domain(a + b, d) <==> names_domain(a, d) || names_domain(b, d),
{
    let all = a + b;
    if names_domain(a, d) {
        let i = choose|i: int| 0 <= i < a.len() && domain_of(#[trigger] a[i]) == Some(d);
        assert(all[i] == a[i]);
    }
    if names_domain(b, d) {
        let i = choose|i: int| 0 <= i < b.len() && domain_of(#[trigger] b[i]) == Some(d);
        assert(all[a.len() + i] == b[i]);
    }
    if names_domain(all, d) {
        let i = choose|i: int| 0 <= i < all.len() && domain_of(#[trigger] all[i]) == Some(d);
        if i < a.len() {
            assert(a[i] == all[i]);
        } else {
            assert(b[i - a.len()] == all[i]);
        }
    }
}

/// The networks of an address list.
fn read_addresses(list: &str) -> (cidrs: Ipv4Trie)
    ensures
        forall|address: u32|
            cidrs.holds(address) == #[trigger] listed_address(text::split(list@, '\n'), address),
{
    let pieces = text::split_text(list, '\n');
    let ghost lines = text::texts(pieces@);
    let mut cidrs = Ipv4Trie::new();
    let mut i: usize = 0;
    while i < pieces.len()
        invariant
            i <= pieces@.len(),
            lines == text::texts(pieces@),
            forall|address: u32|
                #[trigger] cidrs.holds(address) <==> exists|j: int|
                    j < i && #[trigger] line_covers(lines, j, address),
        decreases pieces@.len() - i,
    {
        let line = text::trimmed(pieces[i].as_str());
        let ghost before = cidrs;
        assert(lines[i as int] == pieces@[i as int]@);
        if let Some((network, prefix)) = parse_cidr(line.as_str()) {
            cidrs.insert(network, prefix);
        }
        proof {
            assert forall|address: u32| #[trigger] cidrs.holds(address) <==> exists|j: int|
                j < i + 1 && #[trigger] line_covers(lines, j, address) by {
                assert(before.holds(address) <==> exists|j: int|
                    j < i && #[trigger] line_covers(lines, j, address));
                if exists|j: int| j < i + 1 && #[trigger] line_covers(lines, j, address) {
                    let j = choose|j: int| j < i + 1 && #[trigger] line_covers(lines, j, address);
                    if j < i {
                        assert(before.holds(address));
                    }
                }
                if cidrs.holds(address) && !before.holds(address) {
                    assert(line_covers(lines, i as int, address));
                }
            }
        }
        i = i + 1;
    }
    proof {
        assert forall|address: u32| cidrs.holds(address) == #[trigger] listed_address(
            lines,
            address,
        ) by {
            if listed_address(lines, address) {
                let j = choose|j: int| #[trigger] line_covers(lines, j, address);
                assert(j < i && line_covers(lines, j, address));
            }
        }
    }
    cidrs
}

/// Adds the domains of a domain list that `domains` does not hold yet.
fn read_domains(list: &str, domains: &mut Vec<String>)
    requires
        text::texts(old(domains)@).no_duplicates(),
    ensures
        text::texts(final(domains)@).no_duplicates(),
        forall|d: Seq<char>| #[trigger]
            text::texts(final(domains)@).contains(d) <==> text::texts(old(domains)@).contains(d)
                || names_domain(text::split(list@, '\n'), d),
{
    let pieces = text::split_text(list, '\n');
    let ghost lines = text::texts(pieces@);
    let ghost initial = text::texts(domains@);
    let mut i: usize = 0;
    assert forall|d: Seq<char>| !names_domain(lines.subrange(0, 0), d) by {}
    while i < pieces.len()
        invariant
            i <= pieces@.len(),
            lines == text::texts(pieces@),
            text::texts(domains@).no_duplicates(),
            forall|d: Seq<char>| #[trigger]
                text::texts(domains@).contains(d) <==> initial.contains(d) || names_domain(
                    lines.subrange(0, i as int),
                    d,
                ),
        decreases pieces@.len() - i,
    {
        let ghost before = text::texts(domains@);
        let ghost line = lines[i as int];
        assert(line == pieces@[i as int]@);
        let parsed = parse_domain(pieces[i].as_str());
        if let Some(domain) = parsed {
            if !text::holds(domains, domain.as_str()) {
                let ghost d = domain@;
                domains.push(domain);
                proof {
                    assert(text::texts(domains@) =~= before.push(d));
                    text::lemma_push_no_duplicates(before, d);
                }
            }
        }
        proof {
            let longer = lines.subrange(0, i + 1);
            let shorter = lines.subrange(0, i as int);
            assert(longer =~= shorter + seq![line]);
            assert forall|d: Seq<char>| #[trigger] text::texts(domains@).contains(d)
                <==> initial.contains(d) || names_domain(longer, d) by {
                lemma_names_domain_concat(shorter, seq![line], d);
                assert(names_domain(seq![line], d) <==> domain_of(line) == Some(d)) by {
                    assert(seq![line][0] == line);
                }
                assert(before.contains(d) <==> initial.contains(d) || names_domain(shorter, d));
                text::lemma_push_contains(before, domain_of(line)->0, d);
            }
        }
        i = i + 1;
    }
    assert(lines.subrange(0, i as int) =~= lines);
}

/// Where the payload of a UDP packet starts.
pub open spec fn udp_payload_at(s: Seq<u8>) -> Option<int> {
    if s.len() == 0 {
        None
    } else if s[0] / 16 == 4 {
        let header = (s[0] as int % 16) * 4;
        if header >= 20 && s.len() >= header + 8 && s[9] == 17 {
            Some(header + 8)
        } else {
            None
        }
    } else if s[0] / 16 == 6 {
        if s.len() >= 48 && s[6] == 17 {
            Some(48int)
        } else {
            None
        }
    } else {
        None
    }
}

/// Where the payload of a UDP packet starts.
pub fn udp_payload(packet: &[u8]) -> (start: Option<usize>)
    ensures
        match udp_payload_at(packet@) {
            Some(at) => start matches Some(s) && s == at && s <= packet@.len(),
            None => start is None,
        },
{
    if packet.len() == 0 {
        return None;
    }
    match packet[0] / 16 {
        4 => {
            let header: usize = (packet[0] % 16) as usize * 4;
            if header < 20 || packet.len() < header + 8 || packet[9] != 17 {
                return None;
            }
            Some(header + 8)
        },
        6 => {
            if packet.len() < 48 || packet[6] != 17 {
                return None;
            }
            Some(48)
        },
        _ => None,
    }
}

/// The target of the compression pointer at `at`.
pub open spec fn pointer_at(p: Seq<u8>, at: int) -> int {
    (p[at] as int % 64) * 256 + p[at + 1] as int
}

/// The labels of the domain name at `at`, followed through at most `steps`
/// labels and compression pointers.
pub open spec fn name_labels(p: Seq<u8>, at: int, steps: nat) -> Option<Seq<Seq<char>>>
    decreases steps,
{
    if steps == 0 || at < 0 || at >= p.len() {
        None
    } else if p[at] == 0 {
        Some(Seq::<Seq<char>>::empty())
    } else if p[at] >= 0xc0 {
        if at + 1 < p.len() && pointer_at(p, at) < p.len() {
            name_labels(p, pointer_at(p, at), (steps - 1) as nat)
        } else {
            None
        }
    } else if p[at] < 64 && at + 1 + p[at] <= p.len() && vstd::utf8::valid_utf8(
        p.subrange(at + 1, at + 1 + p[at]),
    ) {
        match name_labels(p, at + 1 + p[at], (steps - 1) as nat) {
            Some(rest) => Some(
                seq![vstd::utf8::decode_utf8(p.subrange(at + 1, at + 1 + p[at]))] + rest,
            ),
            None => None,
        }
    } else {
        None
    }
}

/// Where the name at `at` ends in place: behind the terminating zero or behind
/// its first compression pointer.
pub open spec fn name_end(p: Seq<u8>, at: int) -> int
    decreases p.len() - at,
{
    if at < 0 || at >= p.len() || p[at] == 0 {
        at + 1
    } else if p[at] >= 0xc0 || at + 1 + p[at] > p.len() {
        at + 2
    } else {
        name_end(p, at + 1 + p[at])
    }
}

/// The dotted form of the name at `at`.
pub open spec fn dns_name(p: Seq<u8>, at: int) -> Option<Seq<char>> {
    match name_labels(p, at, 64) {
        Some(labels) => Some(text::join(labels, "."@)),
        None => None,
    }
}

/// Where the name at `at` goes on elsewhere: behind the first compression
/// pointer that is followed within `steps` labels.
pub open spec fn jump_end(p: Seq<u8>, at: int, steps: nat) -> Option<int>
    decreases steps,
{
    if steps == 0 || at < 0 || at >= p.len() || p[at] == 0 {
        None
    } else if p[at] >= 0xc0 {
        if at + 1 < p.len() && pointer_at(p, at) < p.len() {
            Some(at + 2)
        } else {
            None
        }
    } else if p[at] < 64 && at + 1 + p[at] <= p.len() && vstd::utf8::valid_utf8(
        p.subrange(at + 1, at + 1 + p[at]),
    ) {
        jump_end(p, at + 1 + p[at], (steps - 1) as nat)
    } else {
        None
    }
}

/// Reads the domain name at `*offset` and moves `*offset` behind it.
///
/// A chain of compression pointers may loop, so the name is given up after
/// sixty-four steps. Where a name is given up once a pointer was followed,
/// `*offset` stands behind that pointer.
pub fn read_dns_name(packet: &[u8], offset: &mut usize) -> (name: Option<String>)
    ensures
        match dns_name(packet@, *old(offset) as int) {
            Some(n) => name matches Some(s) && s@ == n && *final(offset) == name_end(
                packet@,
                *old(offset) as int,
            ) && *final(offset) <= packet@.len(),
            None => name is None && *final(offset) == (match jump_end(
                packet@,
                *old(offset) as int,
                64,
            ) {
                Some(end) => end,
                None => *old(offset) as int,
            }),
        },
{
    let start: usize = *offset;
    let mut cursor: usize = start;
    let mut jumped: bool = false;
    let mut labels: Vec<String> = Vec::new();
    let mut step: usize = 0;
    assert(text::texts(labels@) =~= Seq::<Seq<char>>::empty());
    proof {
        if name_labels(packet@, start as int, 64) is Some {
            let rest = name_labels(packet@, start as int, 64)->0;
            assert(text::texts(labels@) + rest =~= rest);
        }
    }
    while step < 64
        invariant
            step <= 64,
            start == *old(offset),
            match name_labels(packet@, start as int, 64) {
                Some(all) => name_labels(packet@, cursor as int, (64 - step) as nat) is Some && all
                    == text::texts(labels@) + name_labels(
                    packet@,
                    cursor as int,
                    (64 - step) as nat,
                )->0,
                None => name_labels(packet@, cursor as int, (64 - step) as nat) is None,
            },
            if jumped {
                &&& jump_end(packet@, start as int, 64) == Some(*offset as int)
                &&& *offset == name_end(packet@, start as int)
                &&& *offset <= packet@.len()
            } else {
                &&& *offset == start
                &&& jump_end(packet@, start as int, 64) == jump_end(
                    packet@,
                    cursor as int,
                    (64 - step) as nat,
                )
                &&& name_end(packet@, cursor as int) == name_end(packet@, start as int)
            },
        decreases 64 - step,
    {
        if cursor >= packet.len() {
            return None;
        }
        let length = packet[cursor];
        if length == 0 {
            if !jumped {
                *offset = cursor + 1;
            }
            proof {
                let rest = Seq::<Seq<char>>::empty();
                assert(text::texts(labels@) + rest =~= text::texts(labels@));
            }
            return Some(text::joined(&labels, "."));
        }
        if length >= 0xc0 {
            if cursor + 1 >= packet.len() {
                return None;
            }
            let pointer: usize = (length % 64) as usize * 256 + packet[cursor + 1] as usize;
            if pointer >= packet.len() {
                return None;
            }
            if !jumped {
                *offset = cursor + 2;
                jumped = true;
            }
            cursor = pointer;
        } else {
            if length >= 64 || length as usize > packet.len() - cursor - 1 {
                return None;
            }
            let label = bytes::copy_range(packet, cursor + 1, length as usize);
            match text::utf8_text(&label) {
                None => {
                    return None;
                },
                Some(part) => {
                    let ghost before = text::texts(labels@);
                    labels.push(text::owned(part));
                    proof {
                        let next = cursor + 1 + length;
                        assert(text::texts(labels@) =~= before.push(part@));
                        if let Some(rest) = name_labels(packet@, next, (63 - step) as nat) {
                            assert(before + (seq![part@] + rest) =~= before.push(part@) + rest);
                        }
                    }
                },
            }
            cursor = cursor + 1 + length as usize;
        }
        step = step + 1;
    }
    None
}

/// One answer record: its address, if it carries one, and its lifetime.
pub open spec fn record_address(p: Seq<u8>, at: int) -> Option<(IpAddr, u128)> {
    let length = bytes::be16(p, at + 8) as int;
    let ttl = bytes::be32(p, at + 4);
    let span = (if ttl == 0 { DNS_TTL_FALLBACK } else { ttl }) as u128;
    if bytes::be16(p, at + 2) != 1 {
        None
    } else if bytes::be16(p, at) == 1 && length == 4 {
        Some(
            (
                IpAddr::V4(Ipv4Addr { bits: bytes::be32(p, at + 10) }),
                (span * clock::SECOND) as u128,
            ),
        )
    } else if bytes::be16(p, at) == 28 && length == 16 {
        Some(
            (
                IpAddr::V6(
                    Ipv6Addr { bits: bytes::be_value(p.subrange(at + 10, at + 26)) as u128 },
                ),
                (span * clock::SECOND) as u128,
            ),
        )
    } else {
        None
    }
}

/// The addresses and lifetimes in the `count` answer records that start at
/// `at`, up to the first that is malformed.
pub open spec fn answer_addresses(p: Seq<u8>, at: int, count: nat) -> Seq<(IpAddr, u128)>
    decreases count,
{
    let none = Seq::<(IpAddr, u128)>::empty();
    if count == 0 || dns_name(p, at) is None {
        none
    } else {
        let fixed = name_end(p, at);
        if fixed + 10 > p.len() || fixed + 10 + bytes::be16(p, fixed + 8) > p.len() {
            none
        } else {
            let rest = answer_addresses(
                p,
                fixed + 10 + bytes::be16(p, fixed + 8),
                (count - 1) as nat,
            );
            match record_address(p, fixed) {
                Some(found) => seq![found] + rest,
                None => rest,
            }
        }
    }
}

/// What the name response `p` says about a domain that `router` routes
/// directly.
pub open spec fn response_addresses(p: Seq<u8>, router: GeoRouter) -> Seq<(IpAddr, u128)> {
    let none = Seq::<(IpAddr, u128)>::empty();
    if p.len() < 12 || p[2] < 0x80 || bytes::be16(p, 4) == 0 || bytes::be16(p, 6) == 0 {
        none
    } else {
        match dns_name(p, 12) {
            None => none,
            Some(domain) => if router.direct_domain(domain) && name_end(p, 12) + 4 <= p.len() {
                answer_addresses(p, name_end(p, 12) + 4, bytes::be16(p, 6) as nat)
            } else {
                none
            },
        }
    }
}

/// What the packet `packet` says about a domain that `router` routes directly.
pub open spec fn learned_addresses(packet: Seq<u8>, router: GeoRouter) -> Seq<(IpAddr, u128)> {
    match udp_payload_at(packet) {
        Some(at) => response_addresses(packet.subrange(at, packet.len() as int), router),
        None => Seq::<(IpAddr, u128)>::empty(),
    }
}

/// `known` with each of `learned` entered from `now` on for its lifetime, the
/// later ones over the earlier.
pub open spec fn entered(known: Map<IpAddr, u128>, learned: Seq<(IpAddr, u128)>, now: u128) -> Map<
    IpAddr,
    u128,
>
    decreases learned.len(),
{
    if learned.len() == 0 {
        known
    } else {
        entered(
            known.insert(learned[0].0, clock::later(now, learned[0].1)),
            learned.drop_first(),
            now,
        )
    }
}

/// What is entered last for an address stands.
pub proof fn lemma_last_entry_stands(
    known: Map<IpAddr, u128>,
    learned: Seq<(IpAddr, u128)>,
    now: u128,
    i: int,
)
    requires
        0 <= i < learned.len(),
        forall|j: int| i < j < learned.len() ==> (#[trigger] learned[j]).0 != learned[i].0,
    ensures
        entered(known, learned, now).dom().contains(learned[i].0),
        entered(known, learned, now)[learned[i].0] == clock::later(now, learned[i].1),
    decreases learned.len(),
{
    let rest = learned.drop_first();
    let with_first = known.insert(learned[0].0, clock::later(now, learned[0].1));
    if i > 0 {
        assert(rest[i - 1] == learned[i]);
        lemma_last_entry_stands(with_first, rest, now, i - 1);
    } else {
        assert forall|j: int| 0 <= j < rest.len() implies (#[trigger] rest[j]).0 != learned[0].0 by {
            assert(rest[j] == learned[j + 1]);
        }
        lemma_other_entries_stand(with_first, rest, now, learned[0].0);
    }
}

proof fn lemma_other_entries_stand(
    known: Map<IpAddr, u128>,
    learned: Seq<(IpAddr, u128)>,
    now: u128,
    address: IpAddr,
)
    requires
        known.dom().contains(address),
        forall|j: int| 0 <= j < learned.len() ==> (#[trigger] learned[j]).0 != address,
    ensures
        entered(known, learned, now).dom().contains(address),
        entered(known, learned, now)[address] == known[address],
    decreases learned.len(),
{
    if learned.len() > 0 {
        let rest = learned.drop_first();
        assert forall|j: int| 0 <= j < rest.len() implies (#[trigger] rest[j]).0 != address by {
            assert(rest[j] == learned[j + 1]);
        }
        assert(learned[0].0 != address);
        lemma_other_entries_stand(
            known.insert(learned[0].0, clock::later(now, learned[0].1)),
            rest,
            now,
            address,
        );
    }
}

/// Learns from a captured name response which addresses to route directly.
pub fn observe_dns_response(packet: &[u8], router: &GeoRouter, table: &mut FlowTable, now: u128)
    ensures
        final(table).flows() == old(table).flows(),
        final(table).direct_addresses() == entered(
            old(table).direct_addresses(),
            learned_addresses(packet@, *router),
            now,
        ),
{
    let start = match udp_payload(packet) {
        Some(start) => start,
        None => {
            return ;
        },
    };
    let content = bytes::copy_range(packet, start, packet.len() - start);
    let payload: &[u8] = &content;
    if payload.len() < 12 {
        return ;
    }
    if payload[2] < 0x80 {
        // A query, not a response.
        return ;
    }
    let questions = bytes::read_be16(payload, 4);
    let answers = bytes::read_be16(payload, 6);
    if questions == 0 || answers == 0 {
        return ;
    }
    let mut offset: usize = 12;
    let domain = match read_dns_name(payload, &mut offset) {
        Some(domain) => domain,
        None => {
            return ;
        },
    };
    if !router.is_direct_domain(domain.as_str()) || payload.len() - offset < 4 {
        return ;
    }
    // The type and the class of the question.
    offset = offset + 4;
    let ghost all = learned_addresses(packet@, *router);
    let ghost initial = table.direct_addresses();
    let mut done: u16 = 0;
    while done < answers
        invariant
            done <= answers,
            offset <= payload.len(),
            table.flows() == old(table).flows(),
            initial == old(table).direct_addresses(),
            all == learned_addresses(packet@, *router),
            entered(initial, all, now) == entered(
                table.direct_addresses(),
                answer_addresses(payload@, offset as int, (answers - done) as nat),
                now,
            ),
        decreases answers - done,
    {
        if read_dns_name(payload, &mut offset).is_none() {
            return ;
        }
        if payload.len() - offset < 10 {
            return ;
        }
        let record_type = bytes::read_be16(payload, offset);
        let class = bytes::read_be16(payload, offset + 2);
        let ttl = bytes::read_be32(payload, offset + 4);
        let length = bytes::read_be16(payload, offset + 8) as usize;
        let ghost record = offset as int;
        offset = offset + 10;
        if length > payload.len() - offset {
            return ;
        }
        let seconds: u32 = if ttl == 0 {
            DNS_TTL_FALLBACK
        } else {
            ttl
        };
        let lifetime: u128 = seconds as u128 * clock::SECOND;
        let ghost rest = answer_addresses(payload@, offset + length, (answers - done - 1) as nat);
        if class == 1 && record_type == 1 && length == 4 {
            let address = IpAddr::V4(Ipv4Addr { bits: bytes::read_be32(payload, offset) });
            proof {
                let found = seq![(address, lifetime)];
                assert(record_address(payload@, record) == Some((address, lifetime)));
                assert((found + rest).drop_first() =~= rest);
            }
            table.route_direct_ip(address, now, lifetime);
        } else if class == 1 && record_type == 28 && length == 16 {
            let address = IpAddr::V6(Ipv6Addr { bits: bytes::read_be(payload, offset, 16) });
            proof {
                let found = seq![(address, lifetime)];
                assert(record_address(payload@, record) == Some((address, lifetime)));
                assert((found + rest).drop_first() =~= rest);
            }
            table.route_direct_ip(address, now, lifetime);
        }
        offset = offset + length;
        done = done + 1;
    }
}

/// A domain lies within another exactly when it is the other, or the other
/// behind some labels and a dot: a mere common ending does not count.
pub proof fn subdomains_end_in_a_dot_and_the_domain(domain: Seq<char>, candidate: Seq<char>)
    ensures
        is_within(candidate, candidate),
        is_within(domain + "."@ + candidate, candidate),
        is_within(domain, candidate) && domain != candidate ==> {
            let cut = domain.len() - candidate.len();
            &&& cut >= 1
            &&& domain[cut - 1] == '.'
            &&& domain.subrange(cut, domain.len() as int) == candidate
        },
{
    reveal_strlit(".");
    let longer = domain + "."@ + candidate;
    let suffix = "."@ + candidate;
    assert(longer.subrange(domain.len() as int, longer.len() as int) =~= suffix);
    if is_within(domain, candidate) && domain != candidate {
        let cut = domain.len() - candidate.len();
        let tail = domain.subrange(cut - 1, domain.len() as int);
        assert(tail == suffix);
        assert(tail[0] == '.');
        assert(domain.subrange(cut, domain.len() as int) =~= tail.subrange(1, tail.len() as int));
        assert(suffix.subrange(1, suffix.len() as int) =~= candidate);
    }
}

/// Every direct domain is direct together with all that lies below it.
pub proof fn direct_domains_hold_all_below(router: GeoRouter, labels: Seq<char>, i: int)
    requires
        0 <= i < router.domain_list().len(),
    ensures
        forall|name: Seq<char>|
            #![trigger router.direct_domain(name)]
            normal_domain(name) == router.domain_list()[i] || normal_domain(name) == labels + "."@
                + router.domain_list()[i] ==> router.direct_domain(name),
{
    subdomains_end_in_a_dot_and_the_domain(labels, router.domain_list()[i]);
}

/// A name is compared without its case and without the dots at its end.
pub proof fn names_are_compared_without_case_and_end(domain: Seq<char>)
    requires
        forall|i: int| 0 <= i < domain.len() ==> !text::is_space(#[trigger] domain[i]),
        domain.len() > 0,
        domain.last() != '.',
    ensures
        normal_domain(domain) == text::ascii_lower(domain),
        normal_domain(domain.push('.')) == text::ascii_lower(domain),
        normal_domain(text::ascii_lower(domain)) == text::ascii_lower(domain),
{
    text::lemma_nothing_to_trim(domain);
    let dotted = domain.push('.');
    assert forall|i: int| 0 <= i < dotted.len() implies !text::is_space(#[trigger] dotted[i]) by {
        if i < domain.len() {
            assert(dotted[i] == domain[i]);
        }
    }
    text::lemma_nothing_to_trim(dotted);
    assert(dotted.drop_last() =~= domain);
    assert(text::trim_end_char(domain, '.') == domain);
    assert(text::trim_end_char(dotted, '.') == domain);
    let lower = text::ascii_lower(domain);
    assert forall|i: int| 0 <= i < lower.len() implies !text::is_space(#[trigger] lower[i]) by {
        assert(lower[i] == text::ascii_lower_char(domain[i]));
        assert(!text::is_space(domain[i]));
    }
    text::lemma_nothing_to_trim(lower);
    assert(lower.last() == text::ascii_lower_char(domain.last()));
    assert(text::trim_end_char(lower, '.') == lower);
    assert(text::ascii_lower(lower) =~= lower);
}

/// A line names the domain that stands on it, plain or behind `domain:`, up to
/// a comment. A comment alone names none.
pub proof fn domain_lines_name_their_domain(domain: Seq<char>, comment: Seq<char>)
    requires
        forall|i: int|
            0 <= i < domain.len() ==> !text::is_space(#[trigger] domain[i]) && domain[i] != '#',
        domain.len() > 0,
        !text::starts_with(domain, "domain:"@),
    ensures
        domain_of(domain) == Some(normal_domain(domain)),
        domain_of("domain:"@ + domain) == Some(normal_domain(domain)),
        domain_of(domain + seq!['#'] + comment) == Some(normal_domain(domain)),
        domain_of(seq!['#'] + comment) is None,
{
    reveal_strlit("domain:");
    let tagged = "domain:"@ + domain;
    let commented = domain + seq!['#'] + comment;
    let alone = seq!['#'] + comment;
    assert forall|i: int| 0 <= i < tagged.len() implies !text::is_space(#[trigger] tagged[i])
        && tagged[i] != '#' by {
        if i >= 7 {
            assert(tagged[i] == domain[i - 7]);
        }
    }
    text::lemma_first_index(domain, '#');
    text::lemma_first_index(tagged, '#');
    if text::first_index(domain, '#') < domain.len() {
        assert(domain[text::first_index(domain, '#') as int] != '#');
    }
    if text::first_index(tagged, '#') < tagged.len() {
        assert(tagged[text::first_index(tagged, '#') as int] != '#');
    }
    text::lemma_first_index_behind(domain, comment, '#');
    assert(domain.subrange(0, domain.len() as int) =~= domain);
    assert(tagged.subrange(0, tagged.len() as int) =~= tagged);
    assert(commented.subrange(0, domain.len() as int) =~= domain);
    text::lemma_nothing_to_trim(domain);
    text::lemma_nothing_to_trim(tagged);
    assert(tagged.subrange(0, 7) =~= "domain:"@);
    assert(text::after_prefix(tagged, "domain:"@) =~= domain);
    text::lemma_first_index(alone, '#');
    assert(alone[0] == '#');
    assert(text::first_index(alone, '#') == 0);
    assert(alone.subrange(0, 0) =~= Seq::<char>::empty());
    text::lemma_nothing_to_trim(Seq::<char>::empty());
}

/// A network is read from the notation of its address, a slash and the length
/// of its prefix, which is at most 32.
pub proof fn networks_are_read_from_their_notation(address: Ipv4Addr, prefix: nat)
    ensures
        prefix <= 32 ==> cidr_of(ip::ipv4_text(address) + seq!['/'] + text::decimal(prefix)) == Some(
            (address.bits, prefix as u8),
        ),
        prefix > 32 ==> cidr_of(ip::ipv4_text(address) + seq!['/'] + text::decimal(prefix)) is None,
        cidr_of(ip::ipv4_text(address)) is None,
{
    let notation = ip::ipv4_text(address);
    let digits = text::decimal(prefix);
    let line = notation + seq!['/'] + digits;
    ip::lemma_ipv4_text_chars(address, '/');
    text::lemma_first_index_behind(notation, digits, '/');
    assert(line.subrange(0, notation.len() as int) =~= notation);
    assert(line.subrange(notation.len() as int + 1, line.len() as int) =~= digits);
    ip::lemma_read_back(address);
    text::numbers_read_back(prefix, 255, Seq::<char>::empty(), 0);
    text::lemma_first_index(notation, '/');
    if text::first_index(notation, '/') < notation.len() {
        assert(text::contains_char(notation, '/'));
    }
}

/// The labels of a name as a message carries them, each behind its length.
pub open spec fn carried_labels(labels: Seq<Seq<u8>>) -> Seq<u8>
    decreases labels.len(),
{
    if labels.len() == 0 {
        Seq::<u8>::empty()
    } else {
        seq![labels[0].len() as u8] + labels[0] + carried_labels(labels.drop_first())
    }
}

/// Whether labels can be carried: of 1 to 63 bytes each, all of them text.
pub open spec fn are_labels(labels: Seq<Seq<u8>>) -> bool {
    forall|i: int|
        0 <= i < labels.len() ==> 1 <= (#[trigger] labels[i]).len() <= 63
            && vstd::utf8::valid_utf8(labels[i])
}

/// The texts of labels.
pub open spec fn label_texts(labels: Seq<Seq<u8>>) -> Seq<Seq<char>> {
    labels.map_values(|label: Seq<u8>| vstd::utf8::decode_utf8(label))
}

/// Whether the bytes `part` stand at `at` in `p`.
pub open spec fn stands_at(p: Seq<u8>, part: Seq<u8>, at: int) -> bool {
    0 <= at && at + part.len() <= p.len() && p.subrange(at, at + part.len()) == part
}

proof fn lemma_labels_are_read(p: Seq<u8>, labels: Seq<Seq<u8>>, at: int, steps: nat)
    requires
        are_labels(labels),
        stands_at(p, carried_labels(labels), at),
        at + carried_labels(labels).len() < p.len(),
        steps >= labels.len(),
    ensures
        ({
            let end = at + carried_labels(labels).len();
            let rest = name_labels(p, end, (steps - labels.len()) as nat);
            &&& rest is Some ==> name_labels(p, at, steps) == Some(label_texts(labels) + rest->0)
            &&& rest is None ==> name_labels(p, at, steps) is None
            &&& name_end(p, at) == name_end(p, end)
        }),
    decreases labels.len(),
{
    let carried = carried_labels(labels);
    if labels.len() > 0 {
        let first = labels[0];
        let others = labels.drop_first();
        assert(1 <= first.len() <= 63);
        let behind = carried_labels(others);
        assert(carried == seq![first.len() as u8] + first + behind);
        assert(p.subrange(at, at + carried.len())[0] == carried[0]);
        assert(p[at] == first.len());
        let next = at + 1 + first.len();
        assert(p.subrange(at + 1, next) =~= first) by {
            assert forall|i: int| 0 <= i < first.len() implies p[at + 1 + i] == first[i] by {
                assert(p.subrange(at, at + carried.len())[1 + i] == carried[1 + i]);
            }
        }
        assert(p.subrange(next, next + behind.len()) =~= behind) by {
            assert forall|i: int| 0 <= i < behind.len() implies p[next + i] == behind[i] by {
                assert(p.subrange(at, at + carried.len())[1 + first.len() + i] == carried[1
                    + first.len() + i]);
            }
        }
        assert forall|i: int| 0 <= i < others.len() implies 1 <= (#[trigger] others[i]).len() <= 63
            && vstd::utf8::valid_utf8(others[i]) by {
            assert(others[i] == labels[i + 1]);
        }
        lemma_labels_are_read(p, others, next, (steps - 1) as nat);
        let end = at + carried.len();
        let rest = name_labels(p, end, (steps - labels.len()) as nat);
        if rest is Some {
            assert(label_texts(labels) + rest->0 =~= seq![vstd::utf8::decode_utf8(first)] + (
            label_texts(others) + rest->0));
        }
    } else {
        let rest = name_labels(p, at, steps);
        if rest is Some {
            assert(label_texts(labels) + rest->0 =~= rest->0);
        }
    }
}

/// A name is read as it was written: its labels, each behind its length, up to
/// the terminating zero, with dots between them. Reading ends behind the zero.
pub proof fn names_are_read_as_written(p: Seq<u8>, labels: Seq<Seq<u8>>, at: int)
    requires
        are_labels(labels),
        labels.len() < 64,
        stands_at(p, carried_labels(labels).push(0), at),
    ensures
        dns_name(p, at) == Some(text::join(label_texts(labels), "."@)),
        name_end(p, at) == at + carried_labels(labels).len() + 1,
{
    let carried = carried_labels(labels);
    let whole = carried.push(0);
    assert(p.subrange(at, at + carried.len()) =~= carried) by {
        assert forall|i: int| 0 <= i < carried.len() implies p[at + i] == carried[i] by {
            assert(p.subrange(at, at + whole.len())[i] == whole[i]);
        }
    }
    assert(p.subrange(at, at + whole.len())[carried.len() as int] == 0);
    lemma_labels_are_read(p, labels, at, 64);
    assert(label_texts(labels) + Seq::<Seq<char>>::empty() =~= label_texts(labels));
}

/// A name may go on elsewhere: behind its own labels a pointer, its 14 low bits,
/// leads to the rest. Reading ends behind the pointer.
pub proof fn pointers_lead_to_the_rest_of_a_name(
    p: Seq<u8>,
    labels: Seq<Seq<u8>>,
    rest: Seq<Seq<u8>>,
    at: int,
    target: int,
)
    requires
        are_labels(labels),
        are_labels(rest),
        labels.len() + rest.len() < 63,
        stands_at(p, carried_labels(labels), at),
        ({
            let end = at + carried_labels(labels).len();
            &&& end + 1 < p.len()
            &&& p[end] >= 0xc0
            &&& target == (p[end] - 0xc0) * 256 + p[end + 1]
        }),
        stands_at(p, carried_labels(rest).push(0), target),
    ensures
        dns_name(p, at) == Some(text::join(label_texts(labels) + label_texts(rest), "."@)),
        name_end(p, at) == at + carried_labels(labels).len() + 2,
{
    let end = at + carried_labels(labels).len();
    lemma_labels_are_read(p, labels, at, 64);
    assert(p[end] as int % 64 == p[end] - 0xc0);
    assert(pointer_at(p, end) == target);
    let carried = carried_labels(rest);
    let whole = carried.push(0);
    assert(p.subrange(target, target + carried.len()) =~= carried) by {
        assert forall|i: int| 0 <= i < carried.len() implies p[target + i] == carried[i] by {
            assert(p.subrange(target, target + whole.len())[i] == whole[i]);
        }
    }
    assert(p.subrange(target, target + whole.len())[carried.len() as int] == 0);
    let left = (64 - labels.len()) as nat;
    lemma_labels_are_read(p, rest, target, (left - 1) as nat);
    assert(label_texts(rest) + Seq::<Seq<char>>::empty() =~= label_texts(rest));
}

/// Where the records of an answer start and where their fixed parts stand: each
/// starts with a name, its fixed part of ten bytes stands behind the name, and
/// the next starts behind the data whose length the last two of those tell.
pub open spec fn are_records(p: Seq<u8>, starts: Seq<int>, fixed: Seq<int>) -> bool {
    &&& starts.len() == fixed.len()
    &&& forall|i: int| 0 <= i < starts.len() ==> #[trigger] is_record(p, starts, fixed, i)
}

pub open spec fn is_record(p: Seq<u8>, starts: Seq<int>, fixed: Seq<int>, i: int) -> bool {
    let f = fixed[i];
    &&& dns_name(p, starts[i]) is Some
    &&& f == name_end(p, starts[i])
    &&& 0 <= f && f + 10 + p[f + 8] * 256 + p[f + 9] <= p.len()
    &&& i + 1 < starts.len() ==> starts[i + 1] == f + 10 + p[f + 8] * 256 + p[f + 9]
}

/// The lifetime that a record tells, in nanoseconds: 60 seconds where it tells
/// none.
pub open spec fn told_lifetime(p: Seq<u8>, f: int) -> int {
    let seconds = p[f + 4] * 16777216 + p[f + 5] * 65536 + p[f + 6] * 256 + p[f + 7];
    if seconds == 0 {
        60_000_000_000
    } else {
        seconds * 1_000_000_000
    }
}

/// Every address record of a response is learned with its lifetime, whatever
/// records stand before it. Record `k` is one where its class is 1 and it is of
/// type 1 with four bytes of data, or of type 28 with sixteen.
pub proof fn every_address_record_is_learned(
    p: Seq<u8>,
    starts: Seq<int>,
    fixed: Seq<int>,
    k: int,
    count: nat,
)
    requires
        are_records(p, starts, fixed),
        0 <= k < fixed.len(),
        k < count,
    ensures
        ({
            let f = fixed[k];
            let learned = answer_addresses(p, starts[0], count);
            let of_class = p[f + 2] == 0 && p[f + 3] == 1;
            let kind = p[f] * 256 + p[f + 1];
            let length = p[f + 8] * 256 + p[f + 9];
            &&& of_class && kind == 1 && length == 4 ==> learned.contains(
                (
                    IpAddr::V4(
                        Ipv4Addr {
                            bits: (p[f + 10] * 16777216 + p[f + 11] * 65536 + p[f + 12] * 256 + p[f
                                + 13]) as u32,
                        },
                    ),
                    told_lifetime(p, f) as u128,
                ),
            )
            &&& of_class && kind == 28 && length == 16 ==> learned.contains(
                (
                    IpAddr::V6(
                        Ipv6Addr { bits: bytes::be_value(p.subrange(f + 10, f + 26)) as u128 },
                    ),
                    told_lifetime(p, f) as u128,
                ),
            )
        }),
    decreases k,
{
    let f = fixed[0];
    assert(is_record(p, starts, fixed, 0));
    let next = f + 10 + p[f + 8] * 256 + p[f + 9];
    let rest = answer_addresses(p, next, (count - 1) as nat);
    let learned = answer_addresses(p, starts[0], count);
    assert(bytes::be16(p, f + 8) == p[f + 8] * 256 + p[f + 9]);
    let head = match record_address(p, f) {
        Some(found) => seq![found],
        None => Seq::<(IpAddr, u128)>::empty(),
    };
    assert(learned =~= head + rest);
    if k == 0 {
        if head.len() > 0 {
            assert(learned[0] == head[0]);
        }
    } else {
        let later_starts = starts.drop_first();
        let later_fixed = fixed.drop_first();
        assert forall|i: int| 0 <= i < later_starts.len() implies #[trigger] is_record(
            p,
            later_starts,
            later_fixed,
            i,
        ) by {
            assert(is_record(p, starts, fixed, i + 1));
        }
        every_address_record_is_learned(p, later_starts, later_fixed, k - 1, (count - 1) as nat);
        assert(later_starts[0] == next);
        assert(later_fixed[k - 1] == fixed[k]);
        assert forall|x: (IpAddr, u128)| rest.contains(x) implies learned.contains(x) by {
            let j = choose|j: int| 0 <= j < rest.len() && rest[j] == x;
            assert(learned[head.len() + j] == x);
        }
    }
}

/// Nothing is learned but what an address record of class 1 tells.
pub proof fn only_address_records_are_learned(p: Seq<u8>, at: int, count: nat, j: int) -> (f: int)
    requires
        0 <= j < answer_addresses(p, at, count).len(),
    ensures
        ({
            let found = answer_addresses(p, at, count)[j];
            let kind = p[f] * 256 + p[f + 1];
            let length = p[f + 8] * 256 + p[f + 9];
            &&& f + 10 + length <= p.len()
            &&& p[f + 2] == 0 && p[f + 3] == 1
            &&& found.1 == told_lifetime(p, f)
            &&& (kind == 1 && length == 4 && found.0 is V4) || (kind == 28 && length == 16
                && found.0 is V6)
        }),
    decreases count,
{
    let here = name_end(p, at);
    let next = here + 10 + bytes::be16(p, here + 8);
    let rest = answer_addresses(p, next, (count - 1) as nat);
    match record_address(p, here) {
        Some(found) => {
            if j == 0 {
                here
            } else {
                assert((seq![found] + rest)[j] == rest[j - 1]);
                only_address_records_are_learned(p, next, (count - 1) as nat, j - 1)
            }
        },
        None => only_address_records_are_learned(p, next, (count - 1) as nat, j),
    }
}

/// A record without an address in front of the answers changes nothing of what
/// is learned from the rest.
pub proof fn other_records_do_not_stop_the_reading(p: Seq<u8>, at: int, count: nat)
    requires
        count > 0,
        dns_name(p, at) is Some,
        ({
            let f = name_end(p, at);
            &&& 0 <= f
            &&& f + 10 + p[f + 8] * 256 + p[f + 9] <= p.len()
            &&& !(p[f] == 0 && (p[f + 1] == 1 || p[f + 1] == 28)) || !(p[f + 2] == 0 && p[f + 3]
                == 1)
        }),
    ensures
        ({
            let f = name_end(p, at);
            answer_addresses(p, at, count) == answer_addresses(
                p,
                f + 10 + p[f + 8] * 256 + p[f + 9],
                (count - 1) as nat,
            )
        }),
{
}

/// The answers of a response are read where it answers a question about a
/// direct domain: they start behind the question, and as many are read as it
/// announces.
pub proof fn responses_for_direct_domains_are_read(p: Seq<u8>, router: GeoRouter)
    requires
        p.len() >= 12,
    ensures
        ({
            let answers = p[6] * 256 + p[7];
            let start = name_end(p, 12) + 4;
            let asked = dns_name(p, 12);
            let read = p[2] >= 128 && (p[4] != 0 || p[5] != 0) && answers > 0 && asked is Some
                && router.direct_domain(asked->0) && start <= p.len();
            &&& read ==> response_addresses(p, router) == answer_addresses(
                p,
                start,
                answers as nat,
            )
            &&& !read ==> response_addresses(p, router).len() == 0
        }),
{
}

/// A response is the data of a UDP datagram: behind the 8 bytes of the UDP
/// header, which stands behind an IPv4 header of the length that it declares,
/// or behind the 40 bytes of an IPv6 header.
pub proof fn responses_stand_behind_the_udp_header(s: Seq<u8>, router: GeoRouter)
    requires
        s.len() > 0,
    ensures
        ({
            let header = if s[0] / 16 == 4 {
                (s[0] % 16) * 4
            } else {
                40
            };
            let carried = (s[0] / 16 == 4 && header >= 20 && s.len() >= header + 8 && s[9] == 17)
                || (s[0] / 16 == 6 && s.len() >= 48 && s[6] == 17);
            &&& carried ==> learned_addresses(s, router) == response_addresses(
                s.subrange(header + 8, s.len() as int),
                router,
            )
            &&& !carried ==> learned_addresses(s, router).len() == 0
        }),
{
}

/// What is learned holds for its lifetime from the moment it was learned, and
/// what was known of other addresses stays.
pub proof fn learned_addresses_hold_for_their_lifetime(
    known: Map<IpAddr, u128>,
    address: IpAddr,
    other: IpAddr,
    lifetime: u128,
    now: u128,
)
    requires
        now + lifetime <= u128::MAX,
        other != address,
    ensures
        ({
            let after = entered(known, seq![(address, lifetime)], now);
            &&& after.dom().contains(address) && after[address] == now + lifetime
            &&& after.dom().contains(other) == known.dom().contains(other)
            &&& known.dom().contains(other) ==> after[other] == known[other]
        }),
{
    let learned = seq![(address, lifetime)];
    assert(learned.drop_first() =~= Seq::<(IpAddr, u128)>::empty());
    reveal_with_fuel(entered, 2);
}

/// Listed networks are those whose notation stands on a line: an address is
/// direct exactly when it shares the prefix of one of them.
pub proof fn listed_networks_hold_their_addresses(
    lines: Seq<Seq<char>>,
    i: int,
    network: Ipv4Addr,
    prefix: nat,
    address: u32,
)
    requires
        0 <= i < lines.len(),
        0 < prefix <= 32,
        lines[i] == ip::ipv4_text(network) + seq!['/'] + text::decimal(prefix),
    ensures
        address >> ((32 - prefix) as u32) == network.bits >> ((32 - prefix) as u32)
            ==> listed_address(lines, address),
        lines.len() == 1 && address >> ((32 - prefix) as u32) != network.bits >> ((32
            - prefix) as u32) ==> !listed_address(lines, address),
{
    networks_are_read_from_their_notation(network, prefix);
    trie::agreement_is_equality_of_prefixes(address, network.bits, prefix as u32);
    let line = lines[i];
    assert forall|j: int| 0 <= j < line.len() implies !text::is_space(#[trigger] line[j]) by {
        let notation = ip::ipv4_text(network);
        text::lemma_decimal_digits(prefix);
        if j < notation.len() {
            assert(line[j] == notation[j]);
            if text::is_space(line[j]) {
                ip::lemma_ipv4_text_chars(network, line[j]);
                assert(text::contains_char(notation, line[j]));
            }
        } else if j > notation.len() {
            assert(line[j] == text::decimal(prefix)[j - notation.len() - 1]);
            assert(text::is_digit(line[j]));
        }
    }
    text::lemma_nothing_to_trim(line);
    if address >> ((32 - prefix) as u32) == network.bits >> ((32 - prefix) as u32) {
        assert(line_covers(lines, i, address));
    } else if lines.len() == 1 {
        assert forall|j: int| !#[trigger] line_covers(lines, j, address) by {
            if 0 <= j < lines.len() {
                assert(j == i);
            }
        }
    }
}

/// A name that breaks off behind a compression pointer leaves the reading
/// behind that pointer, whether the pointer comes first or behind a label. One
/// that ends or breaks off before any pointer does not move it.
pub proof fn reading_goes_on_behind_the_first_pointer(p: Seq<u8>, at: int, steps: nat)
    requires
        0 <= at < p.len(),
        steps >= 2,
    ensures
        p[at] >= 0xc0 && at + 1 < p.len() && (p[at] - 0xc0) * 256 + p[at + 1] < p.len() ==> jump_end(
            p,
            at,
            steps,
        ) == Some(at + 2),
        p[at] == 0 ==> jump_end(p, at, steps) is None,
        64 <= p[at] < 0xc0 ==> jump_end(p, at, steps) is None,
        0 < p[at] < 64 && at + 1 + p[at] + 1 < p.len() && vstd::utf8::valid_utf8(
            p.subrange(at + 1, at + 1 + p[at]),
        ) && p[at + 1 + p[at]] >= 0xc0 && (p[at + 1 + p[at]] - 0xc0) * 256 + p[at + 2 + p[at]]
            < p.len() ==> jump_end(p, at, steps) == Some(at + 1 + p[at] + 2),
{
    reveal_with_fuel(jump_end, 3);
}

/// The lists name IPv4 networks alone: no IPv6 address is direct by them, and
/// an IPv4 address is by its bits.
pub proof fn only_ipv4_addresses_are_listed(router: GeoRouter, v4: Ipv4Addr, v6: Ipv6Addr)
    ensures
        !router.direct_ip(IpAddr::V6(v6)),
        router.direct_ip(IpAddr::V4(v4)) <==> router.direct_v4(v4.bits),
{
}

} // verus!
