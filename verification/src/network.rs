//! The network policy of a full tunnel: routes, firewall and recovery.

use vstd::prelude::*;

use crate::error::{is_platform, IoErrorKind};
use crate::ip::Ipv4Addr;
use crate::netcfg::{DefaultRoute, OwnedRoute};
use crate::session::SessionParameters;
use crate::{error, ip, text, trie, ClientError};

verus! {

pub const ADAPTER_NAME: &'static str = "MouseVPN";

pub const STATE_FILE: &'static str = "network-state.toml";

/// The network whose first `index` bits are those of `server` and whose next
/// bit is not.
pub open spec fn sibling(server: u32, index: int) -> u32 {
    ((server >> (31 - index) as u32) ^ 1) << (31 - index) as u32
}

/// The networks that together hold every address but `server`.
///
/// Network `i` has a prefix of `i + 1` bits: it is the half of the address
/// space that leaves the path to the server at bit `i`.
pub fn blocked_networks(server: Ipv4Addr) -> (networks: Vec<(Ipv4Addr, u8)>)
    ensures
        networks@.len() == 32,
        forall|i: int|
            0 <= i < 32 ==> (#[trigger] networks@[i]).0.bits == sibling(server.bits, i)
                && networks@[i].1 == i + 1,
{
    let mut networks: Vec<(Ipv4Addr, u8)> = Vec::new();
    let mut i: u32 = 0;
    while i < 32
        invariant
            i <= 32,
            networks@.len() == i,
            forall|j: int|
                0 <= j < i ==> (#[trigger] networks@[j]).0.bits == sibling(server.bits, j)
                    && networks@[j].1 == j + 1,
        decreases 32 - i,
    {
        let shift: u32 = 31 - i;
        let bits: u32 = ((server.bits >> shift) ^ 1) << shift;
        networks.push((Ipv4Addr { bits }, (i + 1) as u8));
        i = i + 1;
    }
    networks
}

/// An address lies in network `index` exactly where it agrees with the server
/// up to that bit and differs from it there.
proof fn lemma_sibling(server: u32, index: int, x: u32)
    requires
        0 <= index < 32,
    ensures
        trie::agree(x, sibling(server, index), index + 1) <==> trie::agree(x, server, index)
            && trie::bit(x, index) != trie::bit(server, index),
{
    let n: u32 = (31 - index) as u32;
    let s = sibling(server, index);
    trie::agreement_is_equality_of_prefixes(x, s, (index + 1) as u32);
    assert(((((server >> n) ^ 1u32) << n) >> n) == (server >> n) ^ 1u32) by (bit_vector)
        requires
            n < 32,
    ;
    if index == 0 {
        assert(x >> 31u32 == (server >> 31u32) ^ 1u32 <==> ((x >> 31u32) & 1 != 0) != ((server
            >> 31u32) & 1 != 0)) by (bit_vector);
    } else {
        trie::agreement_is_equality_of_prefixes(x, server, index as u32);
        let m: u32 = (32 - index) as u32;
        assert(x >> n == (server >> n) ^ 1u32 <==> (x >> m == server >> m && ((x >> n) & 1 != 0)
            != ((server >> n) & 1 != 0))) by (bit_vector)
            requires
                n < 31,
                m == n + 1,
        ;
    }
}

/// The first bit in which two addresses differ.
proof fn lemma_first_difference(x: u32, y: u32, n: int) -> (i: int)
    requires
        0 <= n <= 32,
        !trie::agree(x, y, n),
    ensures
        0 <= i < n,
        trie::agree(x, y, i),
        trie::bit(x, i) != trie::bit(y, i),
    decreases n,
{
    if trie::agree(x, y, n - 1) {
        assert(trie::bit(x, n - 1) != trie::bit(y, n - 1));
        n - 1
    } else {
        lemma_first_difference(x, y, n - 1)
    }
}

/// The blocked networks leave out the server and nothing but the server.
pub proof fn the_blocked_networks_hold_all_but_the_server(server: u32, address: u32)
    ensures
        (exists|i: int|
            0 <= i < 32 && #[trigger] trie::agree(address, sibling(server, i), i + 1)) <==> address
            != server,
{
    trie::agreement_is_equality_of_prefixes(address, server, 32);
    assert(address >> 0u32 == address && server >> 0u32 == server) by (bit_vector);
    if address != server {
        let i = lemma_first_difference(address, server, 32);
        lemma_sibling(server, i, address);
        assert(trie::agree(address, sibling(server, i), i + 1));
    } else if exists|i: int|
        0 <= i < 32 && #[trigger] trie::agree(address, sibling(server, i), i + 1) {
        let i = choose|i: int|
            0 <= i < 32 && #[trigger] trie::agree(address, sibling(server, i), i + 1);
        lemma_sibling(server, i, address);
    }
}

/// A network in prefix notation.
pub open spec fn prefix_text(network: Ipv4Addr, length: nat) -> Seq<char> {
    ip::ipv4_text(network) + "/"@ + text::decimal(length)
}

/// The notations of the networks that together hold every address but the
/// server's.
pub open spec fn blocked_prefixes(server: Ipv4Addr) -> Seq<Seq<char>> {
    Seq::new(
        32,
        |i: int| prefix_text(Ipv4Addr { bits: sibling(server.bits, i) }, (i + 1) as nat),
    )
}

/// The notations of the networks that together hold every address but the
/// server's.
pub fn blocked_ipv4_prefixes(server: Ipv4Addr) -> (prefixes: Vec<String>)
    ensures
        text::texts(prefixes@) == blocked_prefixes(server),
{
    let networks = blocked_networks(server);
    let mut prefixes: Vec<String> = Vec::new();
    let mut i: usize = 0;
    while i < 32
        invariant
            i <= 32,
            networks@.len() == 32,
            prefixes@.len() == i,
            forall|j: int|
                0 <= j < 32 ==> (#[trigger] networks@[j]).0.bits == sibling(server.bits, j)
                    && networks@[j].1 == j + 1,
            forall|j: int| 0 <= j < i ==> (#[trigger] prefixes@[j])@ == blocked_prefixes(server)[j],
        decreases 32 - i,
    {
        let (network, length) = networks[i];
        assert(networks@[i as int].0.bits == sibling(server.bits, i as int));
        let mut prefix = network.text();
        prefix.append("/");
        text::push_decimal(&mut prefix, length as u128);
        prefixes.push(prefix);
        i = i + 1;
    }
    assert(text::texts(prefixes@) =~= blocked_prefixes(server));
    prefixes
}

// Routes

/// The two halves of the default route the tunnel installs. Two routes with a
/// prefix of one bit beat a physical default route on prefix length without
/// replacing it, so the original survives for the tunnel endpoint itself.
pub open spec fn tunnel_halves() -> Seq<Ipv4Addr> {
    seq![Ipv4Addr { bits: 0 }, Ipv4Addr { bits: 0x8000_0000 }]
}

pub open spec fn serves(route: OwnedRoute, server: Ipv4Addr) -> bool {
    route.destination == server && route.prefix_len == 32
}

/// Whether a route leads to the tunnel endpoint.
pub fn is_server_route(route: &OwnedRoute, server: Ipv4Addr) -> (yes: bool)
    ensures
        yes == serves(*route, server),
{
    route.destination == server && route.prefix_len == 32
}

/// The routes that lead to the tunnel endpoint.
pub open spec fn server_routes(routes: Seq<OwnedRoute>, server: Ipv4Addr) -> Seq<OwnedRoute> {
    routes.filter(|route: OwnedRoute| serves(route, server))
}

/// Reports whether the endpoint route needs replacing.
///
/// It is stale when it is missing, duplicated, or points somewhere other than
/// the current physical default gateway, which is exactly what happens when
/// the machine roams to another network.
pub fn server_route_is_stale(
    routes: &[OwnedRoute],
    server: Ipv4Addr,
    interface_index: u32,
    next_hop: Ipv4Addr,
) -> (stale: bool)
    ensures
        !stale <==> ({
            let found = server_routes(routes@, server);
            &&& found.len() == 1
            &&& found[0].interface_index == interface_index
            &&& found[0].next_hop == next_hop
        }),
{
    let mut total: usize = 0;
    let mut matching: bool = false;
    let mut i: usize = 0;
    assert(routes@.subrange(0, 0) =~= Seq::<OwnedRoute>::empty());
    proof {
        reveal(Seq::filter);
    }
    while i < routes.len()
        invariant
            i <= routes.len(),
            total <= i,
            total == server_routes(routes@.subrange(0, i as int), server).len(),
            total > 0 ==> ({
                let last = server_routes(routes@.subrange(0, i as int), server).last();
                matching == (last.interface_index == interface_index && last.next_hop == next_hop)
            }),
        decreases routes.len() - i,
    {
        let route = routes[i];
        proof {
            reveal(Seq::filter);
            let longer = routes@.subrange(0, i + 1);
            assert(longer.drop_last() =~= routes@.subrange(0, i as int));
            assert(longer.last() == route);
        }
        if is_server_route(&route, server) {
            total = total + 1;
            matching = route.interface_index == interface_index && route.next_hop == next_hop;
        }
        i = i + 1;
    }
    assert(routes@.subrange(0, i as int) =~= routes@);
    total != 1 || !matching
}

/// Whether the tunnel half at `destination` is routed into the tunnel.
pub open spec fn half_present(
    routes: Seq<OwnedRoute>,
    destination: Ipv4Addr,
    tunnel_index: u32,
) -> bool {
    exists|i: int|
        0 <= i < routes.len() && (#[trigger] routes[i]).destination == destination
            && routes[i].prefix_len == 1 && routes[i].interface_index == tunnel_index
}

fn has_half(routes: &[OwnedRoute], destination: Ipv4Addr, tunnel_index: u32) -> (present: bool)
    ensures
        present == half_present(routes@, destination, tunnel_index),
{
    let mut i: usize = 0;
    while i < routes.len()
        invariant
            i <= routes.len(),
            forall|j: int|
                0 <= j < i ==> !((#[trigger] routes@[j]).destination == destination
                    && routes@[j].prefix_len == 1 && routes@[j].interface_index == tunnel_index),
        decreases routes.len() - i,
    {
        let route = routes[i];
        if route.destination == destination && route.prefix_len == 1 && route.interface_index
            == tunnel_index {
            return true;
        }
        i = i + 1;
    }
    false
}

/// What has to be done to restore the routes of the tunnel.
#[derive(Clone, Copy, Debug, PartialEq, Eq, Structural)]
pub struct RouteRepair {
    /// Remove every endpoint route and add one over the default route.
    pub replace_server_route: bool,
    /// Add the lower half of the default route.
    pub add_lower_half: bool,
    /// Add the upper half of the default route.
    pub add_upper_half: bool,
}

/// Decides how to restore any route that roaming or another VPN removed.
pub fn repair_routes(
    routes: &[OwnedRoute],
    server: Ipv4Addr,
    default: &DefaultRoute,
    tunnel_index: u32,
) -> (repair: RouteRepair)
    ensures
        repair.replace_server_route <==> !({
            let found = server_routes(routes@, server);
            &&& found.len() == 1
            &&& found[0].interface_index == default.interface_index
            &&& found[0].next_hop == default.next_hop
        }),
        repair.add_lower_half == !half_present(routes@, tunnel_halves()[0], tunnel_index),
        repair.add_upper_half == !half_present(routes@, tunnel_halves()[1], tunnel_index),
{
    RouteRepair {
        replace_server_route: server_route_is_stale(
            routes,
            server,
            default.interface_index,
            default.next_hop,
        ),
        add_lower_half: !has_half(routes, Ipv4Addr { bits: 0 }, tunnel_index),
        add_upper_half: !has_half(routes, Ipv4Addr { bits: 0x8000_0000 }, tunnel_index),
    }
}

/// Routing only the two halves into the tunnel catches every address.
pub proof fn the_halves_hold_every_address(address: u32)
    ensures
        trie::agree(address, tunnel_halves()[0].bits, 1) || trie::agree(
            address,
            tunnel_halves()[1].bits,
            1,
        ),
{
    assert((address >> 31u32) & 1 != 0 || !((address >> 31u32) & 1 != 0));
    assert(!((0u32 >> 31u32) & 1 != 0)) by (bit_vector);
    assert((0x8000_0000u32 >> 31u32) & 1 != 0) by (bit_vector);
    if trie::bit(address, 0) {
        assert(trie::agree(address, tunnel_halves()[1].bits, 1));
    } else {
        assert(trie::agree(address, tunnel_halves()[0].bits, 1));
    }
}

// Installation

/// The steps that put the policy of a full tunnel in place.
#[derive(Clone, Copy, Debug, PartialEq, Eq, Structural)]
pub enum InstallStep {
    ResolveTunnel,
    KillSwitch,
    ResolveDefaultRoute,
    TunnelAddress,
    TunnelDns,
    TunnelMetric,
    ServerRoute,
    LowerHalf,
    UpperHalf,
}

/// The place of a step in the order of installation.
pub open spec fn install_rank(step: InstallStep) -> int {
    match step {
        InstallStep::ResolveTunnel => 0,
        InstallStep::KillSwitch => 1,
        InstallStep::ResolveDefaultRoute => 2,
        InstallStep::TunnelAddress => 3,
        InstallStep::TunnelDns => 4,
        InstallStep::TunnelMetric => 5,
        InstallStep::ServerRoute => 6,
        InstallStep::LowerHalf => 7,
        InstallStep::UpperHalf => 8,
    }
}

/// The step that follows `step`.
///
/// The kill switch has to be in place before the default route moves, or
/// traffic leaks over the physical interface during the switchover.
pub fn next_install_step(step: InstallStep) -> (next: Option<InstallStep>)
    ensures
        match next {
            Some(n) => install_rank(n) == install_rank(step) + 1,
            None => install_rank(step) == 8,
        },
{
    match step {
        InstallStep::ResolveTunnel => Some(InstallStep::KillSwitch),
        InstallStep::KillSwitch => Some(InstallStep::ResolveDefaultRoute),
        InstallStep::ResolveDefaultRoute => Some(InstallStep::TunnelAddress),
        InstallStep::TunnelAddress => Some(InstallStep::TunnelDns),
        InstallStep::TunnelDns => Some(InstallStep::TunnelMetric),
        InstallStep::TunnelMetric => Some(InstallStep::ServerRoute),
        InstallStep::ServerRoute => Some(InstallStep::LowerHalf),
        InstallStep::LowerHalf => Some(InstallStep::UpperHalf),
        InstallStep::UpperHalf => None,
    }
}

/// No route into the tunnel is added before the kill switch stands.
pub proof fn the_kill_switch_precedes_the_routes(step: InstallStep)
    requires
        step is ServerRoute || step is LowerHalf || step is UpperHalf,
    ensures
        install_rank(InstallStep::KillSwitch) < install_rank(step),
{
}

/// The line that announces an installed policy.
pub fn installed_line(server: Ipv4Addr, port: u16) -> (line: String)
    ensures
        line@ == "MOUSEVPN_POLICY=installed for "@ + ip::ipv4_text(server) + ":"@ + text::decimal(
            port as nat,
        ),
{
    let mut line = text::owned("MOUSEVPN_POLICY=installed for ");
    line.append(server.text().as_str());
    line.append(":");
    text::push_decimal(&mut line, port as u128);
    line
}

/// How a change of the session parameters went.
#[derive(Debug)]
pub enum ParameterUpdate {
    /// The parameters are those in use.
    Unchanged,
    /// The new parameters are in use.
    Applied,
    /// Restore the previous parameters, then report what
    /// [`failed_update`] says.
    Restore,
}

/// Decides how to go on once the new parameters were applied, or not.
///
/// The interface must never sit without an address, so a failure falls back to
/// what the tunnel was already using.
pub fn update_parameters(
    current: SessionParameters,
    wanted: SessionParameters,
    applied: bool,
) -> (update: ParameterUpdate)
    ensures
        update is Unchanged <==> wanted == current,
        update is Applied <==> wanted != current && applied,
        update is Restore <==> wanted != current && !applied,
{
    if wanted == current {
        ParameterUpdate::Unchanged
    } else if applied {
        ParameterUpdate::Applied
    } else {
        ParameterUpdate::Restore
    }
}

/// The error of a failed change of parameters, given how the fallback went.
pub fn failed_update(failure: ClientError, restored: Result<(), ClientError>) -> (error: ClientError)
    ensures
        match restored {
            Ok(_) => is_platform(
                error,
                "updating MouseVPN session parameters failed: "@ + error::error_text(failure),
            ),
            Err(e) => error == e,
        },
{
    match restored {
        Ok(_) => ClientError::platform_with(
            "updating MouseVPN session parameters failed: ",
            failure.message().as_str(),
        ),
        Err(error) => error,
    }
}

/// The error of a runtime lock that could not be taken.
pub fn lock_failure(error: error::IoError) -> (result: ClientError)
    ensures
        if error.kind is WouldBlock {
            is_platform(result, "another MouseVPN Windows helper is already running"@)
        } else {
            result == ClientError::Io(error)
        },
{
    match error.kind {
        IoErrorKind::WouldBlock => ClientError::platform(
            "another MouseVPN Windows helper is already running",
        ),
        _ => ClientError::Io(error),
    }
}

/// What is left to do about the state of an earlier session.
#[derive(Clone, Copy, Debug, PartialEq, Eq, Structural)]
pub struct Recovery {
    pub cleanup: bool,
    pub remove_journal: bool,
}

/// Decides what an earlier session left to clean up.
///
/// Policy is only ever written after the recovery journal exists, so a missing
/// journal and a missing interface together mean the machine is already clean.
pub fn recover_stale_state(journal: bool, interface: bool) -> (recovery: Recovery)
    ensures
        recovery.cleanup == (journal || interface),
        recovery.remove_journal == journal,
{
    Recovery { cleanup: journal || interface, remove_journal: journal }
}

/// Whether removing the journal came to what was wanted.
pub fn journal_removed(failure: Option<error::IoError>) -> (result: Result<(), ClientError>)
    ensures
        match failure {
            None => result is Ok,
            Some(e) => if e.kind is NotFound {
                result is Ok
            } else {
                result == Err::<(), ClientError>(ClientError::Io(e))
            },
        },
{
    match failure {
        None => Ok(()),
        Some(error) => match error.kind {
            IoErrorKind::NotFound => Ok(()),
            _ => Err(ClientError::Io(error)),
        },
    }
}

/// Adds the wording of a failed cleanup step to `failures`.
pub fn collect(failures: &mut Vec<String>, result: Result<(), ClientError>)
    ensures
        match result {
            Ok(_) => final(failures)@ == old(failures)@,
            Err(e) => {
                &&& final(failures)@.len() == old(failures)@.len() + 1
                &&& final(failures)@.drop_last() == old(failures)@
                &&& final(failures)@.last()@ == error::error_text(e)
            },
        },
{
    if let Err(error) = result {
        let ghost before = failures@;
        failures.push(error.message());
        assert(failures@.drop_last() =~= before);
    }
}

/// What cleaning up came to, given the wordings of the steps that failed.
pub fn cleanup_result(failures: &Vec<String>) -> (result: Result<(), ClientError>)
    ensures
        result is Ok <==> failures@.len() == 0,
        result matches Err(e) ==> is_platform(e, text::join(text::texts(failures@), "; "@)),
{
    if failures.len() == 0 {
        Ok(())
    } else {
        Err(ClientError::Platform(text::joined(failures, "; ")))
    }
}

// Scripts

/// A path as it stands between the quotes of a script: regular form, quotes
/// doubled.
pub open spec fn quoted_path(path: Seq<char>) -> Seq<char> {
    quoted(crate::normalized_windows_path(path))
}

/// A text as it stands between the quotes of a script.
pub open spec fn quoted(s: Seq<char>) -> Seq<char> {
    text::replace_char(s, '\'', "''"@)
}

/// A path as it stands between the quotes of a script.
pub fn powershell_path(path: &str) -> (result: String)
    ensures
        result@ == quoted_path(path@),
{
    text::replaced_char(crate::normalize_windows_path(path).as_str(), '\'', "''")
}

/// Quotes in a quoted text come in pairs, so the text cannot end the literal
/// that it stands in.
pub proof fn quoting_pairs_every_quote(s: Seq<char>)
    ensures
        quotes(quoted(s)) == 2 * quotes(s),
        quotes(s) == 0 ==> quoted(s) == s,
    decreases s.len(),
{
    reveal_strlit("''");
    assert("''"@ =~= seq!['\'', '\'']);
    if s.len() > 0 {
        quoting_pairs_every_quote(s.drop_last());
        let rest = quoted(s.drop_last());
        let tail = if s.last() == '\'' { "''"@ } else { seq![s.last()] };
        lemma_quotes_concat(rest, tail);
        reveal_with_fuel(quotes, 3);
        if s.last() == '\'' {
            assert(tail.drop_last() =~= seq!['\'']);
            assert(tail.drop_last().drop_last() =~= Seq::<char>::empty());
            assert(quotes(tail) == 2);
        } else {
            assert(tail.drop_last() =~= Seq::<char>::empty());
            assert(quotes(tail) == 0);
            assert(rest + tail =~= rest.push(s.last()));
            assert(s =~= s.drop_last().push(s.last()));
        }
    } else {
        assert(quoted(s) =~= s);
    }
}

/// The number of quotes in a text.
pub open spec fn quotes(s: Seq<char>) -> nat
    decreases s.len(),
{
    if s.len() == 0 {
        0
    } else {
        quotes(s.drop_last()) + (if s.last() == '\'' { 1nat } else { 0 })
    }
}

proof fn lemma_quotes_concat(a: Seq<char>, b: Seq<char>)
    ensures
        quotes(a + b) == quotes(a) + quotes(b),
    decreases b.len(),
{
    if b.len() == 0 {
        assert(a + b =~= a);
    } else {
        lemma_quotes_concat(a, b.drop_last());
        assert((a + b).drop_last() =~= a + b.drop_last());
    }
}

/// A route to the server leads to its address alone, and a half of the default
/// route counts only where it leads into the tunnel.
pub proof fn routes_are_told_by_their_destination(
    routes: Seq<OwnedRoute>,
    route: OwnedRoute,
    server: Ipv4Addr,
    tunnel_index: u32,
)
    ensures
        serves(route, server) ==> route.destination == server,
        route.prefix_len != 32 ==> !serves(route, server),
        route.destination == server && route.prefix_len == 32 ==> serves(route, server),
        serves(route, server) ==> server_routes(routes.push(route), server) == server_routes(
            routes,
            server,
        ).push(route),
        !serves(route, server) ==> server_routes(routes.push(route), server) == server_routes(
            routes,
            server,
        ),
        route.prefix_len == 1 && route.interface_index == tunnel_index ==> half_present(
            routes.push(route),
            route.destination,
            tunnel_index,
        ),
        half_present(routes.push(route), route.destination, tunnel_index) && !half_present(
            routes,
            route.destination,
            tunnel_index,
        ) ==> route.prefix_len == 1 && route.interface_index == tunnel_index,
        tunnel_halves().len() == 2,
        tunnel_halves()[0].bits == 0,
        tunnel_halves()[1].bits == 128 * 256 * 256 * 256,
{
    reveal(Seq::filter);
    let longer = routes.push(route);
    assert(longer.drop_last() =~= routes);
    assert(longer.last() == route);
    if route.prefix_len == 1 && route.interface_index == tunnel_index {
        assert(longer[routes.len() as int] == route);
    }
    if half_present(longer, route.destination, tunnel_index) && !half_present(
        routes,
        route.destination,
        tunnel_index,
    ) {
        let i = choose|i: int|
            0 <= i < longer.len() && (#[trigger] longer[i]).destination == route.destination
                && longer[i].prefix_len == 1 && longer[i].interface_index == tunnel_index;
        if i < routes.len() {
            assert(routes[i] == longer[i]);
        }
    }
}

/// The policy is put in place from the kill switch to the routes: the tunnel
/// has its address and its name server before anything is routed into it, and
/// the server can be reached before the halves take everything else.
pub proof fn the_tunnel_is_ready_before_it_is_used(step: InstallStep)
    ensures
        install_rank(InstallStep::ResolveTunnel) == 0,
        install_rank(InstallStep::ResolveTunnel) < install_rank(InstallStep::KillSwitch),
        install_rank(InstallStep::KillSwitch) < install_rank(InstallStep::ResolveDefaultRoute),
        install_rank(InstallStep::ResolveDefaultRoute) < install_rank(InstallStep::TunnelAddress),
        install_rank(InstallStep::TunnelAddress) < install_rank(InstallStep::TunnelDns),
        install_rank(InstallStep::TunnelDns) < install_rank(InstallStep::TunnelMetric),
        install_rank(InstallStep::TunnelMetric) < install_rank(InstallStep::ServerRoute),
        install_rank(InstallStep::ServerRoute) < install_rank(InstallStep::LowerHalf),
        install_rank(InstallStep::LowerHalf) < install_rank(InstallStep::UpperHalf),
        install_rank(step) <= 8,
{
}

/// A quoted text reads back: the doubled quotes are the quotes of the text,
/// wherever they stand.
pub proof fn quoting_goes_character_by_character(a: Seq<char>, b: Seq<char>)
    ensures
        quoted(a + seq!['\''] + b) == quoted(a) + seq!['\'', '\''] + quoted(b),
        quoted(a + b) == quoted(a) + quoted(b),
{
    reveal_strlit("''");
    assert("''"@ =~= seq!['\'', '\'']);
    lemma_quoted_concat(a, b);
    lemma_quoted_concat(a, seq!['\'']);
    lemma_quoted_concat(a + seq!['\''], b);
    let single = seq!['\''];
    assert(single.drop_last() =~= Seq::<char>::empty());
    reveal_with_fuel(text::replace_char, 3);
    assert(quoted(single) =~= seq!['\'', '\'']);
}

proof fn lemma_quoted_concat(a: Seq<char>, b: Seq<char>)
    ensures
        quoted(a + b) == quoted(a) + quoted(b),
    decreases b.len(),
{
    if b.len() == 0 {
        assert(a + b =~= a);
        assert(quoted(b) =~= Seq::<char>::empty());
    } else {
        lemma_quoted_concat(a, b.drop_last());
        assert((a + b).drop_last() =~= a + b.drop_last());
        assert((a + b).last() == b.last());
        assert(quoted(a + b) =~= quoted(a) + quoted(b));
    }
}

} // verus!
