//! Interface, address and route configuration.

use vstd::prelude::*;

use crate::error::is_platform;
use crate::ip::{IpAddr, Ipv4Addr, Ipv6Addr};
use crate::{bytes, ip, text, ClientError};

verus! {

pub const ERROR_FILE_NOT_FOUND: u32 = 2;

pub const ERROR_NOT_FOUND: u32 = 1168;

/// Route metric shared by every route the client installs, so cleanup can
/// recognise its own routes without consulting a journal.
pub const ROUTE_METRIC: u32 = 4242;

/// Interface metric for the tunnel. It has to beat every physical interface so
/// the two half-default routes win against the physical default route.
pub const TUNNEL_INTERFACE_METRIC: u32 = 1;

/// Reports whether a delete already had nothing to delete.
pub fn already_gone(status: u32) -> (gone: bool)
    ensures
        gone == (status == ERROR_NOT_FOUND || status == ERROR_FILE_NOT_FOUND),
{
    status == ERROR_NOT_FOUND || status == ERROR_FILE_NOT_FOUND
}

/// The physical addresses that excluded applications are bound to.
#[derive(Clone, Copy, Debug, PartialEq, Eq, Structural)]
pub struct PhysicalAddresses {
    pub ipv4: Ipv4Addr,
    pub ipv6: Option<Ipv6Addr>,
}

/// The physical IPv4 default route the tunnel endpoint has to keep using.
#[derive(Clone, Copy, Debug, PartialEq, Eq, Structural)]
pub struct DefaultRoute {
    pub interface_luid: u64,
    pub interface_index: u32,
    pub next_hop: Ipv4Addr,
}

/// One IPv4 route the client owns, for verification and cleanup.
#[derive(Clone, Copy, Debug, PartialEq, Eq, Structural)]
pub struct OwnedRoute {
    pub destination: Ipv4Addr,
    pub prefix_len: u8,
    pub interface_index: u32,
    pub next_hop: Ipv4Addr,
}

/// The error of a failed Windows call.
pub open spec fn win32_error_text(operation: Seq<char>, code: u32) -> Seq<char> {
    "failed to "@ + operation + ": Windows error "@ + text::decimal(code as nat)
}

/// The error of a failed Windows call.
pub fn win32_error(operation: &str, code: u32) -> (error: ClientError)
    ensures
        is_platform(error, win32_error_text(operation@, code)),
{
    let mut message = text::owned("failed to ");
    message.append(operation);
    message.append(": Windows error ");
    text::push_decimal(&mut message, code as u128);
    ClientError::Platform(message)
}

/// `Ok` for a Windows call that reported success.
pub fn check_status(code: u32, operation: &str) -> (result: Result<(), ClientError>)
    ensures
        result is Ok <==> code == 0,
        result matches Err(e) ==> is_platform(e, win32_error_text(operation@, code)),
{
    if code == 0 {
        Ok(())
    } else {
        Err(win32_error(operation, code))
    }
}

/// An IPv6 address that only means something together with an interface.
pub fn is_link_local_v6(address: Ipv6Addr) -> (yes: bool)
    ensures
        yes == (ip::segment(address.bits, 0) / 64 == 0x3fa),
{
    address.is_link_local()
}

/// An IPv4 route of the machine.
#[derive(Clone, Copy, Debug, PartialEq, Eq, Structural)]
pub struct RouteRow {
    pub prefix_len: u8,
    pub route: DefaultRoute,
    pub metric: u32,
    /// The metric of the interface, where it could be read.
    pub interface_metric: Option<u32>,
}

/// Whether `row` is a default route that does not leave by the tunnel.
pub open spec fn is_physical_default(row: RouteRow, tunnel: Option<u64>) -> bool {
    &&& row.prefix_len == 0
    &&& tunnel != Some(row.route.interface_luid)
    &&& row.interface_metric is Some
}

/// The metric that routes are compared by.
pub open spec fn route_metric(row: RouteRow) -> int {
    let sum = row.metric + row.interface_metric->0;
    if sum > u32::MAX {
        u32::MAX as int
    } else {
        sum
    }
}

/// Whether row `i` is the first among the first `n` that has the least metric
/// of the physical default routes.
pub open spec fn is_best_route(rows: Seq<RouteRow>, tunnel: Option<u64>, n: int, i: int) -> bool {
    &&& 0 <= i < n
    &&& is_physical_default(rows[i], tunnel)
    &&& forall|j: int|
        0 <= j < n && is_physical_default(#[trigger] rows[j], tunnel) ==> if j < i {
            route_metric(rows[i]) < route_metric(rows[j])
        } else {
            route_metric(rows[i]) <= route_metric(rows[j])
        }
}

/// The default route of least metric that does not leave by the tunnel.
///
/// # Errors
///
/// Returns an error when there is none.
pub fn physical_default_route(rows: &Vec<RouteRow>, tunnel: Option<u64>) -> (result: Result<
    DefaultRoute,
    ClientError,
>)
    ensures
        match result {
            Ok(route) => exists|i: int| #[trigger]
                is_best_route(rows@, tunnel, rows@.len() as int, i) && route == rows@[i].route,
            Err(e) => {
                &&& forall|i: int|
                    0 <= i < rows@.len() ==> !is_physical_default(#[trigger] rows@[i], tunnel)
                &&& is_platform(e, "no physical IPv4 default route is available"@)
            },
        },
{
    let mut best: Option<usize> = None;
    let mut i: usize = 0;
    while i < rows.len()
        invariant
            i <= rows@.len(),
            match best {
                Some(b) => is_best_route(rows@, tunnel, i as int, b as int),
                None => forall|j: int|
                    0 <= j < i ==> !is_physical_default(#[trigger] rows@[j], tunnel),
            },
        decreases rows@.len() - i,
    {
        let through_tunnel = match tunnel {
            Some(luid) => luid == rows[i].route.interface_luid,
            None => false,
        };
        if rows[i].prefix_len == 0 && !through_tunnel && rows[i].interface_metric.is_some() {
            let better = match best {
                Some(b) => total_metric(&rows[i]) < total_metric(&rows[b]),
                None => true,
            };
            if better {
                best = Some(i);
            }
        }
        i = i + 1;
    }
    match best {
        Some(b) => Ok(rows[b].route),
        None => Err(ClientError::platform("no physical IPv4 default route is available")),
    }
}

fn total_metric(row: &RouteRow) -> (metric: u32)
    requires
        row.interface_metric is Some,
    ensures
        metric == route_metric(*row),
{
    match row.interface_metric {
        Some(interface) => if row.metric > u32::MAX - interface {
            u32::MAX
        } else {
            row.metric + interface
        },
        None => row.metric,
    }
}

/// An address of the machine.
#[derive(Clone, Copy, Debug, PartialEq, Eq, Structural)]
pub struct AddressRow {
    pub interface_luid: u64,
    /// Whether the address is in use.
    pub preferred: bool,
    pub address: IpAddr,
}

/// The first IPv4 address in use of the interface, among the first `n` rows.
pub open spec fn first_ipv4(rows: Seq<AddressRow>, luid: u64, n: int) -> Option<Ipv4Addr>
    decreases n,
{
    if n <= 0 {
        None
    } else {
        match (first_ipv4(rows, luid, n - 1), rows[n - 1].address) {
            (None, IpAddr::V4(address)) if rows[n - 1].interface_luid == luid
                && rows[n - 1].preferred => Some(address),
            (found, _) => found,
        }
    }
}

/// The first IPv6 address in use of the interface that means something beyond
/// it, among the first `n` rows.
pub open spec fn first_ipv6(rows: Seq<AddressRow>, luid: u64, n: int) -> Option<Ipv6Addr>
    decreases n,
{
    if n <= 0 {
        None
    } else {
        match (first_ipv6(rows, luid, n - 1), rows[n - 1].address) {
            (None, IpAddr::V6(address)) if rows[n - 1].interface_luid == luid
                && rows[n - 1].preferred && ip::segment(address.bits, 0) / 64 != 0x3fa => Some(
                address,
            ),
            (found, _) => found,
        }
    }
}

/// The addresses of the interface that the default route leaves by.
///
/// # Errors
///
/// Returns an error when the interface has no IPv4 address.
pub fn interface_addresses(rows: &Vec<AddressRow>, luid: u64) -> (result: Result<
    PhysicalAddresses,
    ClientError,
>)
    ensures
        match first_ipv4(rows@, luid, rows@.len() as int) {
            Some(ipv4) => result == Ok::<PhysicalAddresses, ClientError>(
                PhysicalAddresses {
                    ipv4,
                    ipv6: first_ipv6(rows@, luid, rows@.len() as int),
                },
            ),
            None => result matches Err(e) && is_platform(
                e,
                "the physical interface has no IPv4 address"@,
            ),
        },
{
    let mut found_v4: Option<Ipv4Addr> = None;
    let mut found_v6: Option<Ipv6Addr> = None;
    let mut i: usize = 0;
    while i < rows.len()
        invariant
            i <= rows@.len(),
            found_v4 == first_ipv4(rows@, luid, i as int),
            found_v6 == first_ipv6(rows@, luid, i as int),
        decreases rows@.len() - i,
    {
        let row = rows[i];
        if row.interface_luid == luid && row.preferred {
            match row.address {
                IpAddr::V4(address) => {
                    if found_v4.is_none() {
                        found_v4 = Some(address);
                    }
                },
                IpAddr::V6(address) => {
                    if found_v6.is_none() && !is_link_local_v6(address) {
                        found_v6 = Some(address);
                    }
                },
            }
        }
        i = i + 1;
    }
    match found_v4 {
        Some(ipv4) => Ok(PhysicalAddresses { ipv4, ipv6: found_v6 }),
        None => Err(ClientError::platform("the physical interface has no IPv4 address")),
    }
}

/// The word a socket address carries an IPv4 address in: its octets in memory
/// order, read as a little-endian number.
pub open spec fn socket_word(address: Ipv4Addr) -> nat {
    ip::octet(address.bits, 0) + ip::octet(address.bits, 1) * 256 + ip::octet(address.bits, 2)
        * 65536 + ip::octet(address.bits, 3) * 16777216
}

/// The word a socket address carries `address` in.
pub fn sockaddr_v4(address: Ipv4Addr) -> (word: u32)
    ensures
        word == socket_word(address),
{
    let octets = address.octets();
    proof {
        assert(octets@[0] as nat == ip::octet(address.bits, 0));
        assert(octets@[1] as nat == ip::octet(address.bits, 1));
        assert(octets@[2] as nat == ip::octet(address.bits, 2));
        assert(octets@[3] as nat == ip::octet(address.bits, 3));
    }
    octets[0] as u32 + octets[1] as u32 * 256 + octets[2] as u32 * 65536 + octets[3] as u32
        * 16777216
}

/// The address that a socket address carries as `word`.
pub fn ipv4_from_sockaddr(word: u32) -> (address: Ipv4Addr)
    ensures
        socket_word(address) == word,
{
    let address = Ipv4Addr::new(
        (word % 256) as u8,
        (word / 256 % 256) as u8,
        (word / 65536 % 256) as u8,
        (word / 16777216) as u8,
    );
    assert(word == word % 256 + (word / 256 % 256) * 256 + (word / 65536 % 256) * 65536 + (word
        / 16777216) * 16777216);
    address
}

/// The bytes a socket address carries an IPv6 address in.
pub fn sockaddr_v6(address: Ipv6Addr) -> (octets: Vec<u8>)
    ensures
        octets@ == bytes::be_bytes(address.bits as nat, 16),
{
    bytes::be_octets(address.bits, 16)
}

/// The address that a socket address carries as `octets`.
pub fn ipv6_from_sockaddr(octets: &[u8]) -> (address: Ipv6Addr)
    requires
        octets@.len() == 16,
    ensures
        address.bits == bytes::be_value(octets@),
{
    assert(octets@.subrange(0, 16) =~= octets@);
    Ipv6Addr { bits: bytes::read_be(octets, 0, 16) }
}

/// What a socket address carries reads back as the address it was made of.
pub proof fn socket_addresses_round_trip(a: Ipv4Addr, b: Ipv4Addr, c: Ipv6Addr)
    ensures
        socket_word(a) == socket_word(b) ==> a == b,
        bytes::be_value(bytes::be_bytes(c.bits as nat, 16)) == c.bits,
{
    bytes::lemma_pow256_16();
    bytes::lemma_be_value_of_be_bytes(c.bits as nat, 16);
    if socket_word(a) == socket_word(b) {
        lemma_octets(a.bits);
        lemma_octets(b.bits);
        lemma_word(
            ip::octet(a.bits, 0),
            ip::octet(a.bits, 1),
            ip::octet(a.bits, 2),
            ip::octet(a.bits, 3),
        );
        lemma_word(
            ip::octet(b.bits, 0),
            ip::octet(b.bits, 1),
            ip::octet(b.bits, 2),
            ip::octet(b.bits, 3),
        );
    }
}

proof fn lemma_octets(bits: u32)
    ensures
        bits == ip::octet(bits, 0) * 16777216 + ip::octet(bits, 1) * 65536 + ip::octet(bits, 2)
            * 256 + ip::octet(bits, 3),
        forall|i: int| #[trigger] ip::octet(bits, i) < 256,
{
}

proof fn lemma_word(a: nat, b: nat, c: nat, d: nat)
    requires
        a < 256,
        b < 256,
        c < 256,
        d < 256,
    ensures
        ({
            let w = a + b * 256 + c * 65536 + d * 16777216;
            &&& w % 256 == a
            &&& w / 256 % 256 == b
            &&& w / 65536 % 256 == c
            &&& w / 16777216 == d
        }),
{
    let w = a + b * 256 + c * 65536 + d * 16777216;
    assert(w / 256 == b + c * 256 + d * 65536);
    assert(w / 65536 == c + d * 256);
}

/// No physical default route has a smaller metric than the chosen one, a
/// route through the tunnel is never chosen, and of equal ones the first is.
pub proof fn the_cheapest_physical_route_is_chosen(
    rows: &Vec<RouteRow>,
    tunnel: Option<u64>,
    result: Result<DefaultRoute, ClientError>,
    j: int,
)
    requires
        call_ensures(physical_default_route, (rows, tunnel), result),
        0 <= j < rows@.len(),
        rows@[j].prefix_len == 0,
        rows@[j].interface_metric is Some,
        tunnel != Some(rows@[j].route.interface_luid),
        rows@[j].metric + rows@[j].interface_metric->0 < u32::MAX,
    ensures
        result matches Ok(route) && exists|i: int|
            0 <= i < rows@.len() && #[trigger] rows@[i].route == route && rows@[i].prefix_len == 0
                && tunnel != Some(route.interface_luid) && rows@[i].metric
                + rows@[i].interface_metric->0 <= rows@[j].metric + rows@[j].interface_metric->0
                && (rows@[i].metric + rows@[i].interface_metric->0 == rows@[j].metric
                + rows@[j].interface_metric->0 ==> i <= j),
{
    assert(is_physical_default(rows@[j], tunnel));
    match result {
        Ok(route) => {
            let i = choose|i: int| #[trigger]
                is_best_route(rows@, tunnel, rows@.len() as int, i) && route == rows@[i].route;
            assert(rows@[i].route == route);
        },
        Err(_) => {},
    }
}

/// The address that is chosen is the first in use of the interface: none of an
/// earlier row qualifies, and for IPv6 none that lies in fe80::/10 does.
pub proof fn the_first_address_in_use_is_chosen(rows: Seq<AddressRow>, luid: u64, n: int, i: int)
    requires
        0 <= i < n <= rows.len(),
        rows[i].interface_luid == luid,
        rows[i].preferred,
        forall|j: int| 0 <= j < i ==> (#[trigger] rows[j]).interface_luid != luid,
    ensures
        match rows[i].address {
            IpAddr::V4(address) => first_ipv4(rows, luid, n) == Some(address),
            IpAddr::V6(address) => if address.bits / 0x40_0000_0000_0000_0000_0000_0000_0000
                == 0x3fa {
                first_ipv6(rows, luid, i + 1) is None
            } else {
                first_ipv6(rows, luid, n) == Some(address)
            },
        },
    decreases n,
{
    if n > i + 1 {
        the_first_address_in_use_is_chosen(rows, luid, n - 1, i);
    } else {
        lemma_no_address(rows, luid, i);
    }
    ip::segments_come_from_the_left(
        match rows[i].address {
            IpAddr::V6(address) => address.bits,
            IpAddr::V4(_) => 0,
        },
    );
}

proof fn lemma_no_address(rows: Seq<AddressRow>, luid: u64, n: int)
    requires
        0 <= n <= rows.len(),
        forall|j: int| 0 <= j < n ==> (#[trigger] rows[j]).interface_luid != luid,
    ensures
        first_ipv4(rows, luid, n) is None,
        first_ipv6(rows, luid, n) is None,
    decreases n,
{
    if n > 0 {
        lemma_no_address(rows, luid, n - 1);
        assert(rows[n - 1].interface_luid != luid);
    }
}

/// Addresses that are not in use, or are those of another interface, are
/// passed over.
pub proof fn other_addresses_are_passed_over(rows: Seq<AddressRow>, luid: u64, row: AddressRow)
    requires
        row.interface_luid != luid || !row.preferred,
    ensures
        first_ipv4(rows.push(row), luid, rows.len() as int + 1) == first_ipv4(
            rows,
            luid,
            rows.len() as int,
        ),
        first_ipv6(rows.push(row), luid, rows.len() as int + 1) == first_ipv6(
            rows,
            luid,
            rows.len() as int,
        ),
{
    lemma_first_of_prefix(rows, rows.push(row), luid, rows.len() as int);
}

proof fn lemma_first_of_prefix(a: Seq<AddressRow>, b: Seq<AddressRow>, luid: u64, n: int)
    requires
        0 <= n <= a.len(),
        n <= b.len(),
        forall|i: int| 0 <= i < n ==> #[trigger] a[i] == b[i],
    ensures
        first_ipv4(a, luid, n) == first_ipv4(b, luid, n),
        first_ipv6(a, luid, n) == first_ipv6(b, luid, n),
    decreases n,
{
    if n > 0 {
        lemma_first_of_prefix(a, b, luid, n - 1);
        assert(a[n - 1] == b[n - 1]);
    }
}

/// The octets of an address stand in memory in the order they are written in.
pub proof fn socket_words_hold_the_octets_in_order(a: u8, b: u8, c: u8, d: u8)
    ensures
        socket_word(Ipv4Addr { bits: (a * 16777216 + b * 65536 + c * 256 + d) as u32 }) == a + b
            * 256 + c * 65536 + d * 16777216,
{
    let bits: u32 = (a * 16777216 + b * 65536 + c * 256 + d) as u32;
    lemma_word(d as nat, c as nat, b as nat, a as nat);
}

/// Routes, interfaces and failures are known by fixed numbers.
pub proof fn routes_are_recognised_by_their_metric(status: u32, gone: bool)
    requires
        call_ensures(already_gone, (status,), gone),
    ensures
        gone <==> status == 2 || status == 1168,
        ROUTE_METRIC == 4242,
        TUNNEL_INTERFACE_METRIC == 1,
{
}

/// A failed call names the operation and the number that Windows gave.
pub proof fn windows_errors_name_the_operation(
    operation: &str,
    code: u32,
    result: Result<(), ClientError>,
)
    requires
        call_ensures(check_status, (code, operation), result),
    ensures
        result is Ok <==> code == 0,
        result matches Err(e) ==> is_platform(
            e,
            "failed to "@ + operation@ + ": Windows error "@ + text::decimal(code as nat),
        ),
{
}

} // verus!
