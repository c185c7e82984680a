//! Internet addresses.

use vstd::prelude::*;

use crate::{bytes, text};

verus! {

/// An IPv4 address, as the number its four octets denote.
#[derive(Clone, Copy, Debug, PartialEq, Eq, Structural)]
pub struct Ipv4Addr {
    pub bits: u32,
}

/// An IPv6 address, as the number its sixteen octets denote.
#[derive(Clone, Copy, Debug, PartialEq, Eq, Structural)]
pub struct Ipv6Addr {
    pub bits: u128,
}

/// An address of either family.
#[derive(Clone, Copy, Debug, PartialEq, Eq, Structural)]
pub enum IpAddr {
    V4(Ipv4Addr),
    V6(Ipv6Addr),
}

/// An address together with a port.
#[derive(Clone, Copy, Debug, PartialEq, Eq, Structural)]
pub struct SocketAddr {
    pub ip: IpAddr,
    pub port: u16,
}

/// Octet `i` of an IPv4 address, counted from the left.
pub open spec fn octet(bits: u32, i: int) -> nat {
    if i == 0 {
        (bits as nat / 16777216) % 256
    } else if i == 1 {
        (bits as nat / 65536) % 256
    } else if i == 2 {
        (bits as nat / 256) % 256
    } else {
        bits as nat % 256
    }
}

/// The dotted decimal notation of an IPv4 address.
pub open spec fn ipv4_text(address: Ipv4Addr) -> Seq<char> {
    text::decimal(octet(address.bits, 0)) + seq!['.'] + text::decimal(octet(address.bits, 1)) + seq!['.']
        + text::decimal(octet(address.bits, 2)) + seq!['.'] + text::decimal(octet(address.bits, 3))
}

/// The address that `s` is the notation of, if it is one's.
pub open spec fn ipv4_parsed(s: Seq<char>) -> Option<Ipv4Addr> {
    if exists|a: Ipv4Addr| ipv4_text(a) == s {
        Some(choose|a: Ipv4Addr| ipv4_text(a) == s)
    } else {
        None
    }
}

/// The decimal notations of the four octets.
pub open spec fn octet_texts(address: Ipv4Addr) -> Seq<Seq<char>> {
    seq![
        text::decimal(octet(address.bits, 0)),
        text::decimal(octet(address.bits, 1)),
        text::decimal(octet(address.bits, 2)),
        text::decimal(octet(address.bits, 3)),
    ]
}

impl Ipv4Addr {
    /// The address with the given octets.
    pub fn new(a: u8, b: u8, c: u8, d: u8) -> (address: Ipv4Addr)
        ensures
            address.bits == a * 16777216 + b * 65536 + c * 256 + d,
            octet(address.bits, 0) == a,
            octet(address.bits, 1) == b,
            octet(address.bits, 2) == c,
            octet(address.bits, 3) == d,
    {
        let bits: u32 = a as u32 * 16777216 + b as u32 * 65536 + c as u32 * 256 + d as u32;
        proof {
            assert(bits % 256 == d && bits / 256 == a * 65536 + b * 256 + c);
            assert(bits / 65536 == a * 256 + b);
            assert(bits / 16777216 == a);
        }
        Ipv4Addr { bits }
    }

    /// The four octets, left to right.
    pub fn octets(&self) -> (octets: [u8; 4])
        ensures
            forall|i: int| 0 <= i < 4 ==> #[trigger] octets@[i] as nat == octet(self.bits, i),
    {
        [
            (self.bits / 16777216) as u8,
            (self.bits / 65536 % 256) as u8,
            (self.bits / 256 % 256) as u8,
            (self.bits % 256) as u8,
        ]
    }

    /// The dotted decimal notation.
    pub fn text(&self) -> (text: String)
        ensures
            text@ == ipv4_text(*self),
    {
        let octets = self.octets();
        let mut text = text::decimal_text(octets[0] as u128);
        text.push('.');
        text::push_decimal(&mut text, octets[1] as u128);
        text.push('.');
        text::push_decimal(&mut text, octets[2] as u128);
        text.push('.');
        text::push_decimal(&mut text, octets[3] as u128);
        assert(text@ =~= ipv4_text(*self));
        text
    }

    /// Reads dotted decimal notation: the inverse of [`Ipv4Addr::text`].
    ///
    /// Anything that is not the notation of an address exactly, leading zeros
    /// included, is refused.
    pub fn parse(text: &str) -> (address: Option<Ipv4Addr>)
        ensures
            address matches Some(a) ==> text@ == ipv4_text(a),
            address is None ==> forall|a: Ipv4Addr| text@ != #[trigger] ipv4_text(a),
            address == ipv4_parsed(text@),
    {
        proof {
            assert forall|a: Ipv4Addr| text@ == #[trigger] ipv4_text(a) implies ipv4_parsed(text@)
                == Some(a) by {
                ipv4_text_is_injective(a, choose|b: Ipv4Addr| ipv4_text(b) == text@);
            }
        }
        let pieces = text::split_text(text, '.');
        proof {
            text::lemma_join_split(text@, '.');
            assert forall|a: Ipv4Addr| text@ == #[trigger] ipv4_text(a) implies text::split(text@, '.')
                == octet_texts(a) by {
                lemma_octet_texts(a);
            }
        }
        if pieces.len() != 4 {
            return None;
        }
        proof {
            assert forall|a: Ipv4Addr, i: int|
                0 <= i < 4 && text@ == #[trigger] ipv4_text(a) implies pieces@[i]@
                == #[trigger] text::decimal(octet(a.bits, i)) by {
                assert(text::texts(pieces@)[i] == octet_texts(a)[i]);
            }
        }
        let first = parse_octet(pieces[0].as_str());
        let second = parse_octet(pieces[1].as_str());
        let third = parse_octet(pieces[2].as_str());
        let fourth = parse_octet(pieces[3].as_str());
        match (first, second, third, fourth) {
            (Some(a), Some(b), Some(c), Some(d)) => {
                let address = Ipv4Addr::new(a, b, c, d);
                proof {
                    assert(text::texts(pieces@) =~= octet_texts(address));
                    lemma_octet_texts(address);
                }
                Some(address)
            },
            _ => {
                proof {
                    assert forall|a: Ipv4Addr| text@ != #[trigger] ipv4_text(a) by {
                        if text@ == ipv4_text(a) {
                            assert(pieces@[0]@ == text::decimal(octet(a.bits, 0)));
                            assert(pieces@[1]@ == text::decimal(octet(a.bits, 1)));
                            assert(pieces@[2]@ == text::decimal(octet(a.bits, 2)));
                            assert(pieces@[3]@ == text::decimal(octet(a.bits, 3)));
                        }
                    }
                }
                None
            },
        }
    }
}

proof fn lemma_octet_texts(a: Ipv4Addr)
    ensures
        text::join(octet_texts(a), seq!['.']) == ipv4_text(a),
        text::split(ipv4_text(a), '.') == octet_texts(a),
{
    let parts = octet_texts(a);
    assert(parts.drop_last().drop_last().drop_last() =~= seq![parts[0]]);
    assert(parts.drop_last().drop_last() =~= seq![parts[0], parts[1]]);
    assert(parts.drop_last() =~= seq![parts[0], parts[1], parts[2]]);
    reveal_with_fuel(text::join, 4);
    assert(text::join(parts, seq!['.']) =~= ipv4_text(a));
    assert forall|i: int| 0 <= i < parts.len() implies !text::contains_char(#[trigger] parts[i], '.') by {
        text::lemma_decimal_digits(octet(a.bits, i));
        assert(text::all_digits(parts[i]));
        assert forall|j: int| 0 <= j < parts[i].len() implies parts[i][j] != '.' by {
            assert(text::is_digit(parts[i][j]));
        }
    }
    text::lemma_split_join(parts, '.');
}

/// Reads one octet in canonical decimal notation.
fn parse_octet(text: &str) -> (value: Option<u8>)
    ensures
        value matches Some(v) ==> text@ == text::decimal(v as nat),
        value is None ==> forall|v: nat| v < 256 ==> text@ != #[trigger] text::decimal(v),
{
    let chars = text::chars_of(text);
    proof {
        assert(chars@.subrange(0, chars@.len() as int) =~= text@);
        assert forall|v: nat| v < 256 && text@ == #[trigger] text::decimal(v) implies text::all_digits(text@)
            && text::digits_value(text@) == v by {
            text::lemma_decimal_digits(v);
        }
    }
    match text::digits_number(&chars, 0, 255) {
        None => None,
        Some(value) => {
            if text::same(text::decimal_text(value as u128).as_str(), text) {
                Some(value as u8)
            } else {
                None
            }
        },
    }
}

/// No two IPv4 addresses have the same notation.
pub proof fn ipv4_text_is_injective(a: Ipv4Addr, b: Ipv4Addr)
    requires
        ipv4_text(a) == ipv4_text(b),
    ensures
        a == b,
{
    lemma_octet_texts(a);
    lemma_octet_texts(b);
    assert forall|i: int| 0 <= i < 4 implies octet(a.bits, i) == #[trigger] octet(b.bits, i) by {
        assert(octet_texts(a)[i] == octet_texts(b)[i]);
        text::lemma_decimal_injective(octet(a.bits, i), octet(b.bits, i));
    }
    assert(octet(a.bits, 0) == octet(b.bits, 0));
    assert(octet(a.bits, 1) == octet(b.bits, 1));
    assert(octet(a.bits, 2) == octet(b.bits, 2));
    assert(octet(a.bits, 3) == octet(b.bits, 3));
}

/// Segment `i` of an IPv6 address, counted from the left.
pub open spec fn segment(bits: u128, i: int) -> nat {
    (bits as nat / bytes::pow256((2 * (7 - i)) as nat)) % 65536
}

/// The eight segments of an IPv6 address.
pub open spec fn segments(bits: u128) -> Seq<nat> {
    Seq::new(8, |i: int| segment(bits, i))
}

/// The segments in hexadecimal, colons between them.
pub open spec fn segment_list(s: Seq<nat>) -> Seq<char> {
    text::join(s.map_values(|n: nat| text::hexadecimal(n)), seq![':'])
}

/// The number of consecutive zero segments that start at `i`.
pub open spec fn zero_run(s: Seq<nat>, i: int) -> nat
    decreases s.len() - i,
{
    if 0 <= i < s.len() && s[i] == 0 {
        1 + zero_run(s, i + 1)
    } else {
        0
    }
}

/// Where the longest run of zero segments that starts before `end` starts,
/// the leftmost one where several are longest.
pub open spec fn longest_run(s: Seq<nat>, end: int) -> int
    decreases end,
{
    if end <= 0 {
        0
    } else {
        let best = longest_run(s, end - 1);
        if zero_run(s, end - 1) > zero_run(s, best) {
            end - 1
        } else {
            best
        }
    }
}

/// Whether the address embeds an IPv4 one under the prefix `::ffff:0:0/96`.
pub open spec fn is_mapped(bits: u128) -> bool {
    bits / 0x1_0000_0000 == 0xffff
}

/// The canonical notation of an IPv6 address: hexadecimal segments, the
/// leftmost longest run of two or more zero segments contracted, an embedded
/// IPv4 address in dotted decimal.
pub open spec fn ipv6_text(address: Ipv6Addr) -> Seq<char> {
    let s = segments(address.bits);
    let start = longest_run(s, 8);
    let length = zero_run(s, start);
    if is_mapped(address.bits) {
        "::ffff:"@ + ipv4_text(Ipv4Addr { bits: (address.bits % 0x1_0000_0000) as u32 })
    } else if length > 1 {
        segment_list(s.subrange(0, start)) + "::"@ + segment_list(s.subrange(start + length, 8))
    } else {
        segment_list(s)
    }
}

pub open spec fn ip_text(address: IpAddr) -> Seq<char> {
    match address {
        IpAddr::V4(a) => ipv4_text(a),
        IpAddr::V6(a) => ipv6_text(a),
    }
}

proof fn lemma_zero_run(s: Seq<nat>, i: int)
    requires
        0 <= i <= s.len(),
    ensures
        i + zero_run(s, i) <= s.len(),
    decreases s.len() - i,
{
    if i < s.len() && s[i] == 0 {
        lemma_zero_run(s, i + 1);
    }
}

proof fn lemma_longest_run(s: Seq<nat>, end: int)
    requires
        0 <= end <= s.len(),
        s.len() > 0,
    ensures
        0 <= longest_run(s, end) < s.len(),
    decreases end,
{
    if end > 0 {
        lemma_longest_run(s, end - 1);
    }
}

/// The numbers a vector of segments stands for.
pub open spec fn naturals(s: Seq<u16>) -> Seq<nat> {
    s.map_values(|n: u16| n as nat)
}

fn zero_run_length(list: &[u16], i: usize) -> (length: usize)
    requires
        i <= list.len(),
    ensures
        length == zero_run(naturals(list@), i as int),
        i + length <= list.len(),
    decreases list.len() - i,
{
    if i < list.len() && list[i] == 0 {
        1 + zero_run_length(list, i + 1)
    } else {
        0
    }
}

fn push_segments(text: &mut String, list: &[u16], from: usize, to: usize)
    requires
        from <= to <= list.len(),
    ensures
        final(text)@ == old(text)@ + segment_list(naturals(list@).subrange(from as int, to as int)),
{
    let ghost before = text@;
    let ghost all = naturals(list@);
    let mut i: usize = from;
    assert(before + text::join(Seq::<Seq<char>>::empty(), seq![':']) =~= before);
    assert(all.subrange(from as int, from as int).map_values(|n: nat| text::hexadecimal(n))
        =~= Seq::<Seq<char>>::empty());
    while i < to
        invariant
            from <= i <= to <= list.len(),
            all == naturals(list@),
            text@ == before + segment_list(all.subrange(from as int, i as int)),
        decreases to - i,
    {
        proof {
            let done = all.subrange(from as int, i as int).map_values(
                |n: nat| text::hexadecimal(n),
            );
            let longer = all.subrange(from as int, i + 1).map_values(
                |n: nat| text::hexadecimal(n),
            );
            assert(longer.drop_last() =~= done);
            assert(longer.last() == text::hexadecimal(list@[i as int] as nat));
        }
        if i > from {
            text.push(':');
        }
        text::push_hexadecimal(text, list[i] as u128);
        i = i + 1;
        assert(text@ =~= before + segment_list(all.subrange(from as int, i as int)));
    }
}

impl Ipv6Addr {
    /// The address with the given segments.
    pub fn new(a: u16, b: u16, c: u16, d: u16, e: u16, f: u16, g: u16, h: u16) -> (address:
        Ipv6Addr)
        ensures
            address.bits == ((((((a * 65536 + b) * 65536 + c) * 65536 + d) * 65536 + e) * 65536
                + f) * 65536 + g) * 65536 + h,
    {
        let high: u128 = ((a as u128 * 65536 + b as u128) * 65536 + c as u128) * 65536 + d as u128;
        Ipv6Addr {
            bits: (((high * 65536 + e as u128) * 65536 + f as u128) * 65536 + g as u128) * 65536
                + h as u128,
        }
    }

    /// The eight segments, left to right.
    pub fn segments(&self) -> (list: Vec<u16>)
        ensures
            naturals(list@) == segments(self.bits),
    {
        let mut list: Vec<u16> = Vec::new();
        let mut divisor: u128 = 0x1_0000_0000_0000_0000_0000_0000_0000;
        proof {
            bytes::lemma_pow256_16();
            reveal_with_fuel(bytes::pow256, 17);
            assert(divisor == bytes::pow256(14));
        }
        let mut i: usize = 0;
        while i < 8
            invariant
                i <= 8,
                i < 8 ==> divisor == bytes::pow256((2 * (7 - i)) as nat),
                divisor > 0,
                list@.len() == i,
                naturals(list@) =~= segments(self.bits).subrange(0, i as int),
            decreases 8 - i,
        {
            let ghost before = list@;
            list.push((self.bits / divisor % 65536) as u16);
            proof {
                assert(list@[i as int] as nat == segment(self.bits, i as int));
                assert(naturals(list@) =~= naturals(before).push(segment(self.bits, i as int)));
            }
            if i < 7 {
                proof {
                    reveal_with_fuel(bytes::pow256, 3);
                }
                divisor = divisor / 65536;
                proof {
                    assert(divisor == bytes::pow256((2 * (6 - i)) as nat));
                    lemma_pow256_positive((2 * (6 - i)) as nat);
                }
            }
            i = i + 1;
        }
        list
    }

    /// The canonical notation.
    pub fn text(&self) -> (text: String)
        ensures
            text@ == ipv6_text(*self),
    {
        if self.bits / 0x1_0000_0000 == 0xffff {
            let embedded = Ipv4Addr { bits: (self.bits % 0x1_0000_0000) as u32 };
            let mut text = String::from_str("::ffff:");
            text.append(embedded.text().as_str());
            return text;
        }
        let list = self.segments();
        let ghost all = naturals(list@);
        let mut start: usize = 0;
        let mut length: usize = zero_run_length(&list, 0);
        let mut i: usize = 0;
        assert(longest_run(all, 0) == 0);
        while i < 8
            invariant
                i <= 8,
                start < 8,
                list@.len() == 8,
                all == naturals(list@),
                start == longest_run(all, i as int),
                length == zero_run(all, start as int),
                start + length <= 8,
            decreases 8 - i,
        {
            let run = zero_run_length(&list, i);
            if run > length {
                start = i;
                length = run;
            }
            i = i + 1;
        }
        let mut text = String::new();
        if length > 1 {
            push_segments(&mut text, &list, 0, start);
            text.append("::");
            push_segments(&mut text, &list, start + length, 8);
            assert(text@ =~= ipv6_text(*self));
        } else {
            push_segments(&mut text, &list, 0, 8);
            assert(all.subrange(0, 8) =~= all);
            assert(text@ =~= ipv6_text(*self));
        }
        text
    }

    /// Whether the address is link-local, that is within `fe80::/10`.
    ///
    /// Such an address only means something together with an interface, so it
    /// can be neither a tunnel end nor the source of routed traffic.
    pub fn is_link_local(&self) -> (yes: bool)
        ensures
            yes == (segment(self.bits, 0) / 64 == 0x3fa),
    {
        proof {
            reveal_with_fuel(bytes::pow256, 15);
        }
        self.bits / 0x1_0000_0000_0000_0000_0000_0000_0000 / 64 == 0x3fa
    }
}

proof fn lemma_pow256_positive(n: nat)
    ensures
        bytes::pow256(n) > 0,
    decreases n,
{
    if n > 0 {
        lemma_pow256_positive((n - 1) as nat);
    }
}

impl IpAddr {
    pub open spec fn spec_is_ipv4(&self) -> bool {
        self is V4
    }

    /// Whether the address is an IPv4 one.
    #[verifier::when_used_as_spec(spec_is_ipv4)]
    pub fn is_ipv4(&self) -> (yes: bool)
        ensures
            yes == (self is V4),
    {
        match self {
            IpAddr::V4(_) => true,
            IpAddr::V6(_) => false,
        }
    }

    /// The notation of the address.
    pub fn text(&self) -> (text: String)
        ensures
            text@ == ip_text(*self),
    {
        match self {
            IpAddr::V4(address) => address.text(),
            IpAddr::V6(address) => address.text(),
        }
    }
}

/// An IPv4 address is read back from its four octets in decimal, and nothing
/// else is read as one.
pub proof fn ipv4_notation_reads_back(a: u8, b: u8, c: u8, d: u8)
    ensures
        ({
            let address = Ipv4Addr { bits: (a * 16777216 + b * 65536 + c * 256 + d) as u32 };
            let notation = text::decimal(a as nat) + seq!['.'] + text::decimal(b as nat) + seq!['.']
                + text::decimal(c as nat) + seq!['.'] + text::decimal(d as nat);
            &&& ipv4_text(address) == notation
            &&& ipv4_parsed(notation) == Some(address)
        }),
{
    let bits = (a * 16777216 + b * 65536 + c * 256 + d) as u32;
    let address = Ipv4Addr { bits };
    lemma_octets_of(a, b, c, d);
    lemma_read_back(address);
}

proof fn lemma_octets_of(a: u8, b: u8, c: u8, d: u8)
    ensures
        ({
            let bits = (a * 16777216 + b * 65536 + c * 256 + d) as u32;
            &&& octet(bits, 0) == a
            &&& octet(bits, 1) == b
            &&& octet(bits, 2) == c
            &&& octet(bits, 3) == d
        }),
{
    let bits = (a * 16777216 + b * 65536 + c * 256 + d) as u32;
    assert(bits % 256 == d && bits / 256 == a * 65536 + b * 256 + c);
    assert(bits / 65536 == a * 256 + b);
    assert(bits / 16777216 == a);
}

/// An address is read back from its own notation.
pub proof fn lemma_read_back(address: Ipv4Addr)
    ensures
        ipv4_parsed(ipv4_text(address)) == Some(address),
{
    assert(exists|a: Ipv4Addr| ipv4_text(a) == ipv4_text(address));
    ipv4_text_is_injective(
        address,
        choose|a: Ipv4Addr| ipv4_text(a) == ipv4_text(address),
    );
}

/// The notation of an IPv4 address holds digits and dots alone.
pub proof fn lemma_ipv4_text_chars(address: Ipv4Addr, c: char)
    requires
        !text::is_digit(c),
        c != '.',
    ensures
        !text::contains_char(ipv4_text(address), c),
{
    let s = ipv4_text(address);
    let parts = octet_texts(address);
    assert forall|i: int| 0 <= i < s.len() implies s[i] != c by {
        text::lemma_decimal_digits(octet(address.bits, 0));
        text::lemma_decimal_digits(octet(address.bits, 1));
        text::lemma_decimal_digits(octet(address.bits, 2));
        text::lemma_decimal_digits(octet(address.bits, 3));
        let first = parts[0].len() as int;
        let second = first + 1 + parts[1].len();
        let third = second + 1 + parts[2].len();
        if i < first {
            assert(s[i] == parts[0][i]);
        } else if first < i < second {
            assert(s[i] == parts[1][i - first - 1]);
        } else if second < i < third {
            assert(s[i] == parts[2][i - second - 1]);
        } else if i > third {
            assert(s[i] == parts[3][i - third - 1]);
        }
    }
}

/// The segments of an IPv6 address are its 16-bit words, the most significant
/// first.
pub proof fn segments_come_from_the_left(bits: u128)
    ensures
        segment(bits, 7) == bits % 0x1_0000,
        segment(bits, 6) == bits / 0x1_0000 % 0x1_0000,
        segment(bits, 5) == bits / 0x1_0000_0000 % 0x1_0000,
        segment(bits, 4) == bits / 0x1_0000_0000_0000 % 0x1_0000,
        segment(bits, 3) == bits / 0x1_0000_0000_0000_0000 % 0x1_0000,
        segment(bits, 2) == bits / 0x1_0000_0000_0000_0000_0000 % 0x1_0000,
        segment(bits, 1) == bits / 0x1_0000_0000_0000_0000_0000_0000 % 0x1_0000,
        segment(bits, 0) == bits / 0x1_0000_0000_0000_0000_0000_0000_0000 % 0x1_0000,
{
    reveal_with_fuel(bytes::pow256, 15);
    let one = bytes::pow256((2 * (7 - 7)) as nat);
    assert(one == 1);
    assert(bits as nat / one == bits) by (nonlinear_arith)
        requires
            one == 1,
    ;
    assert(bytes::pow256(2) == 0x1_0000);
    assert(bytes::pow256(4) == 0x1_0000_0000);
    assert(bytes::pow256(6) == 0x1_0000_0000_0000);
    assert(bytes::pow256(8) == 0x1_0000_0000_0000_0000);
    assert(bytes::pow256(10) == 0x1_0000_0000_0000_0000_0000);
    assert(bytes::pow256(12) == 0x1_0000_0000_0000_0000_0000_0000);
    assert(bytes::pow256(14) == 0x1_0000_0000_0000_0000_0000_0000_0000);
}

/// A run of zeros ends where the next segment is not zero or the address ends.
pub proof fn runs_end_at_the_next_segment(s: Seq<nat>, i: int)
    requires
        0 <= i <= s.len(),
    ensures
        i + zero_run(s, i) <= s.len(),
        forall|k: int| i <= k < i + zero_run(s, i) ==> #[trigger] s[k] == 0,
        i + zero_run(s, i) < s.len() ==> s[i + zero_run(s, i)] != 0,
    decreases s.len() - i,
{
    if i < s.len() && s[i] == 0 {
        runs_end_at_the_next_segment(s, i + 1);
    }
}

/// The run that is contracted is longer than every run to its left and at least
/// as long as every run to its right.
pub proof fn the_leftmost_longest_run_is_contracted(s: Seq<nat>, end: int, k: int)
    requires
        0 <= k < end,
    ensures
        0 <= longest_run(s, end) < end,
        zero_run(s, k) <= zero_run(s, longest_run(s, end)),
        k < longest_run(s, end) ==> zero_run(s, k) < zero_run(s, longest_run(s, end)),
    decreases end,
{
    reveal_with_fuel(longest_run, 2);
    if end > 1 {
        the_leftmost_longest_run_is_contracted(s, end - 1, if k < end - 1 { k } else { 0 });
    }
}

/// An address is written with its longest run of zeros contracted where it has
/// two zeros in a row, with all its segments where it has not, and as an IPv4
/// address behind `::ffff:` where it embeds one.
pub proof fn ipv6_notation_contracts_one_run(address: Ipv6Addr, a: nat, b: nat)
    ensures
        ({
            let s = segments(address.bits);
            let start = longest_run(s, 8);
            let end = start + zero_run(s, start);
            &&& address.bits / 0x1_0000_0000 == 0xffff ==> ipv6_text(address) == "::ffff:"@
                + ipv4_text(Ipv4Addr { bits: (address.bits % 0x1_0000_0000) as u32 })
            &&& address.bits / 0x1_0000_0000 != 0xffff && end - start >= 2 ==> ipv6_text(address)
                == segment_list(s.subrange(0, start)) + "::"@ + segment_list(s.subrange(end, 8))
            &&& address.bits / 0x1_0000_0000 != 0xffff && end - start < 2 ==> ipv6_text(address)
                == segment_list(s)
        }),
        segment_list(seq![a, b]) == text::hexadecimal(a) + seq![':'] + text::hexadecimal(b),
{
    let texts = seq![a, b].map_values(|n: nat| text::hexadecimal(n));
    assert(texts =~= seq![text::hexadecimal(a), text::hexadecimal(b)]);
    reveal_with_fuel(text::join, 3);
    assert(texts.drop_last() =~= seq![text::hexadecimal(a)]);
}

} // verus!
