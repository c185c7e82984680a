//! A fail-closed kill switch for the full tunnel.
//!
//! The filters live in a dynamic session: they exist only while its handle is
//! open, so a helper that crashes cannot leave the machine behind a policy
//! nothing will clean up.

use vstd::prelude::*;

use crate::ip::Ipv4Addr;
use crate::wfp::{
    Condition, Connection, Filter, FilterAction, FilterModel, Layer, TransactionCall,
};
use crate::{app_bypass, text, wfp};

verus! {

/// Sublayer weight.
///
/// This has to sit below the application bypass sublayer. The platform walks
/// sublayers from the heaviest down, and the bypass permits take the right to
/// block from every sublayer evaluated after them. Ordering the kill switch
/// underneath is what lets an exclusion keep reaching the internet directly
/// while everything else stays fenced in.
pub const SUBLAYER_WEIGHT: u16 = 0xfffd;

/// Weight of the catch-all blocks. Nothing sorts below them, so they only
/// decide a connection no permit claimed.
pub const BLOCK_WEIGHT: u64 = 0;

/// Weight of every exception. Filters are evaluated highest first inside a
/// sublayer, so these all get a look before the catch-all block.
pub const PERMIT_WEIGHT: u64 = 10;

pub const IPPROTO_UDP: u8 = 17;

pub const DHCP_SERVER_PORT: u16 = 67;

pub const DHCP_CLIENT_PORT: u16 = 68;

/// The first address of the link-local network, `fe80::`.
pub const LINK_LOCAL: u128 = 0xfe80_0000_0000_0000_0000_0000_0000_0000;

pub open spec fn block(layer: Layer, name: Seq<char>) -> FilterModel {
    FilterModel {
        layer,
        action: FilterAction::Block,
        weight: BLOCK_WEIGHT,
        final_decision: false,
        conditions: Seq::<Condition>::empty(),
        name,
    }
}

pub open spec fn permit(layer: Layer, conditions: Seq<Condition>, name: Seq<char>) -> FilterModel {
    FilterModel {
        layer,
        action: FilterAction::Permit,
        weight: PERMIT_WEIGHT,
        final_decision: false,
        conditions,
        name,
    }
}

/// The filters of the kill switch.
///
/// IPv4 is denied unless it leaves through the tunnel, is the tunnel's own
/// transport, is loopback, or is the DHCP exchange that keeps the physical link
/// addressed. IPv6 is denied outright: the tunnel is IPv4 only, so nothing but
/// loopback and on-link neighbours has anywhere legitimate to go.
pub open spec fn kill_switch(server: Ipv4Addr, tunnel: u64) -> Seq<FilterModel> {
    seq![
        block(Layer::ConnectV4, "MouseVPN kill switch IPv4 block"@),
        permit(
            Layer::ConnectV4,
            seq![Condition::Interface(tunnel)],
            "MouseVPN kill switch IPv4 tunnel permit"@,
        ),
        permit(
            Layer::ConnectV4,
            seq![Condition::RemoteV4 { address: server.bits, mask: u32::MAX }],
            "MouseVPN kill switch IPv4 endpoint permit"@,
        ),
        permit(
            Layer::ConnectV4,
            seq![Condition::Loopback],
            "MouseVPN kill switch IPv4 loopback permit"@,
        ),
        permit(
            Layer::ConnectV4,
            seq![
                Condition::Protocol(IPPROTO_UDP),
                Condition::LocalPort(DHCP_CLIENT_PORT),
                Condition::RemotePort(DHCP_SERVER_PORT),
            ],
            "MouseVPN kill switch IPv4 DHCP permit"@,
        ),
        block(Layer::ConnectV6, "MouseVPN kill switch IPv6 block"@),
        permit(
            Layer::ConnectV6,
            seq![Condition::Loopback],
            "MouseVPN kill switch IPv6 loopback permit"@,
        ),
        permit(
            Layer::ConnectV6,
            seq![Condition::RemoteV6 { network: LINK_LOCAL, prefix: 10 }],
            "MouseVPN kill switch IPv6 link-local permit"@,
        ),
    ]
}

/// The filters of the kill switch, in the order they are added.
pub fn filters(server: Ipv4Addr, tunnel: u64) -> (filters: Vec<Filter>)
    ensures
        wfp::models(filters@) == kill_switch(server, tunnel),
{
    let filters = vec![
        wfp::filter(
            Layer::ConnectV4,
            FilterAction::Block,
            BLOCK_WEIGHT,
            false,
            Vec::new(),
            "MouseVPN kill switch IPv4 block",
        ),
        wfp::filter(
            Layer::ConnectV4,
            FilterAction::Permit,
            PERMIT_WEIGHT,
            false,
            vec![Condition::Interface(tunnel)],
            "MouseVPN kill switch IPv4 tunnel permit",
        ),
        wfp::filter(
            Layer::ConnectV4,
            FilterAction::Permit,
            PERMIT_WEIGHT,
            false,
            vec![Condition::RemoteV4 { address: server.bits, mask: u32::MAX }],
            "MouseVPN kill switch IPv4 endpoint permit",
        ),
        wfp::filter(
            Layer::ConnectV4,
            FilterAction::Permit,
            PERMIT_WEIGHT,
            false,
            vec![Condition::Loopback],
            "MouseVPN kill switch IPv4 loopback permit",
        ),
        wfp::filter(
            Layer::ConnectV4,
            FilterAction::Permit,
            PERMIT_WEIGHT,
            false,
            vec![
                Condition::Protocol(IPPROTO_UDP),
                Condition::LocalPort(DHCP_CLIENT_PORT),
                Condition::RemotePort(DHCP_SERVER_PORT),
            ],
            "MouseVPN kill switch IPv4 DHCP permit",
        ),
        wfp::filter(
            Layer::ConnectV6,
            FilterAction::Block,
            BLOCK_WEIGHT,
            false,
            Vec::new(),
            "MouseVPN kill switch IPv6 block",
        ),
        wfp::filter(
            Layer::ConnectV6,
            FilterAction::Permit,
            PERMIT_WEIGHT,
            false,
            vec![Condition::Loopback],
            "MouseVPN kill switch IPv6 loopback permit",
        ),
        wfp::filter(
            Layer::ConnectV6,
            FilterAction::Permit,
            PERMIT_WEIGHT,
            false,
            vec![Condition::RemoteV6 { network: LINK_LOCAL, prefix: 10 }],
            "MouseVPN kill switch IPv6 link-local permit",
        ),
    ];
    assert(wfp::models(filters@) =~~= kill_switch(server, tunnel));
    filters
}

/// How the call that adds object `i` of the plan is worded: the provider, the
/// sublayer, then the filters.
pub open spec fn operation_text(filters: Seq<Filter>, i: int) -> Seq<char> {
    if i == 0 {
        "add the MouseVPN kill switch provider"@
    } else if i == 1 {
        "add the MouseVPN kill switch sublayer"@
    } else {
        "add the '"@ + filters[i - 2].name@ + "' filter"@
    }
}

/// How the call that adds object `i` of the plan is worded.
pub fn operation(filters: &Vec<Filter>, i: usize) -> (operation: String)
    requires
        i < filters@.len() + 2,
    ensures
        operation@ == operation_text(filters@, i as int),
{
    if i == 0 {
        text::owned("add the MouseVPN kill switch provider")
    } else if i == 1 {
        text::owned("add the MouseVPN kill switch sublayer")
    } else {
        let mut operation = text::owned("add the '");
        operation.append(filters[i - 2].name);
        operation.append("' filter");
        operation
    }
}

/// How a call of the installation is worded.
pub fn call_operation(call: TransactionCall, filters: &Vec<Filter>) -> (operation: String)
    requires
        call matches TransactionCall::Add(i) ==> i < filters@.len() + 2,
    ensures
        operation@ == (match call {
            TransactionCall::OpenEngine => "open the kill switch WFP engine"@,
            TransactionCall::Begin => "begin the kill switch WFP transaction"@,
            TransactionCall::Add(i) => operation_text(filters@, i as int),
            TransactionCall::Commit => "commit the kill switch WFP transaction"@,
        }),
{
    match call {
        TransactionCall::OpenEngine => text::owned("open the kill switch WFP engine"),
        TransactionCall::Begin => text::owned("begin the kill switch WFP transaction"),
        TransactionCall::Add(i) => operation(filters, i),
        TransactionCall::Commit => text::owned("commit the kill switch WFP transaction"),
    }
}

/// The connections that the kill switch lets through.
pub open spec fn is_exempt(server: Ipv4Addr, tunnel: u64, c: Connection) -> bool {
    if c.ipv6 {
        c.loopback || wfp::same_prefix(c.remote, LINK_LOCAL, 10)
    } else {
        ||| c.interface == tunnel
        ||| c.remote as u32 == server.bits
        ||| c.loopback
        ||| c.protocol == IPPROTO_UDP && c.local_port == DHCP_CLIENT_PORT && c.remote_port
            == DHCP_SERVER_PORT
    }
}

/// The kill switch blocks exactly the connections that neither use the tunnel
/// nor are one of the stated exceptions.
pub proof fn everything_else_is_blocked(server: Ipv4Addr, tunnel: u64, c: Connection)
    ensures
        wfp::blocks(kill_switch(server, tunnel), wfp::connect_layer(c), c) <==> !is_exempt(
            server,
            tunnel,
            c,
        ),
{
    let plan = kill_switch(server, tunnel);
    let layer = wfp::connect_layer(c);
    let remote = c.remote as u32;
    let address = server.bits;
    assert(remote & 0xffff_ffffu32 == remote && address & 0xffff_ffffu32 == address) by (bit_vector);
    let i: int = if c.ipv6 { 5 } else { 0 };
    assert(wfp::applies(plan[i], layer, c));
    assert(plan[1].conditions[0] == Condition::Interface(tunnel));
    assert(plan[2].conditions[0] == (Condition::RemoteV4 { address, mask: u32::MAX }));
    assert(plan[3].conditions[0] == Condition::Loopback);
    assert(plan[4].conditions[0] == Condition::Protocol(IPPROTO_UDP));
    assert(plan[4].conditions[1] == Condition::LocalPort(DHCP_CLIENT_PORT));
    assert(plan[4].conditions[2] == Condition::RemotePort(DHCP_SERVER_PORT));
    assert(plan[6].conditions[0] == Condition::Loopback);
    assert(plan[7].conditions[0] == (Condition::RemoteV6 { network: LINK_LOCAL, prefix: 10 }));
    if !is_exempt(server, tunnel, c) {
        assert(wfp::blocked_by(plan, layer, c, i)) by {
            assert forall|j: int|
                0 <= j < plan.len() && (#[trigger] plan[j]).action is Permit && wfp::applies(
                    plan[j],
                    layer,
                    c,
                ) implies plan[j].weight < plan[i].weight by {
                assert(j == 1 || j == 2 || j == 3 || j == 4 || j == 6 || j == 7);
                assert(wfp::holds(plan[j].conditions[0], c));
                if j == 4 {
                    assert(wfp::holds(plan[j].conditions[1], c));
                    assert(wfp::holds(plan[j].conditions[2], c));
                }
            }
        }
    } else {
        let j: int = if c.ipv6 {
            if c.loopback { 6 } else { 7 }
        } else if c.interface == tunnel {
            1
        } else if remote == address {
            2
        } else if c.loopback {
            3
        } else {
            4
        };
        assert(wfp::applies(plan[j], layer, c)) by {
            assert forall|k: int| 0 <= k < plan[j].conditions.len() implies wfp::holds(
                #[trigger] plan[j].conditions[k],
                c,
            ) by {
                assert(k == 0 || k == 1 || k == 2);
            }
        }
        assert(plan[j].action is Permit && plan[j].weight == PERMIT_WEIGHT);
        assert forall|b: int| !wfp::blocked_by(plan, layer, c, b) by {
            if wfp::blocked_by(plan, layer, c, b) {
                assert(plan[j].weight < plan[b].weight);
                assert(b == 0 || b == 5);
            }
        }
    }
}

/// The kill switch sits below the application bypass, so the final decisions
/// of the bypass stand.
pub proof fn the_bypass_outranks_the_kill_switch()
    ensures
        SUBLAYER_WEIGHT < app_bypass::SUBLAYER_WEIGHT,
{
}

/// With the kill switch in place a connection gets out in these cases alone.
/// Over IPv4: by the interface of the tunnel, to the server, to the machine
/// itself, or from UDP port 68 to UDP port 67. Over IPv6: to the machine itself,
/// or to an address whose first ten bits are those of `fe80::`.
pub proof fn nothing_leaves_beside_the_tunnel(server: Ipv4Addr, tunnel: u64, c: Connection)
    ensures
        !c.ipv6 ==> (wfp::blocks(kill_switch(server, tunnel), Layer::ConnectV4, c) <==> c.interface
            != tunnel && c.remote as u32 != server.bits && !c.loopback && !(c.protocol == 17
            && c.local_port == 68 && c.remote_port == 67)),
        c.ipv6 ==> (wfp::blocks(kill_switch(server, tunnel), Layer::ConnectV6, c) <==> !c.loopback
            && c.remote >> 118 != 0x3fa),
{
    everything_else_is_blocked(server, tunnel, c);
    let network = LINK_LOCAL;
    assert(network == 0xfe80_0000_0000_0000_0000_0000_0000_0000u128);
    assert(0xfe80_0000_0000_0000_0000_0000_0000_0000u128 >> 118u128 == 0x3fa) by (bit_vector);
    let remote = c.remote;
    assert(remote >> 118u128 == remote >> 118u32) by (bit_vector);
}

/// The provider and the sublayer come before the filters, and every call is
/// worded by what it adds.
pub proof fn calls_are_worded_by_what_they_add(filters: Seq<Filter>, i: int)
    requires
        0 <= i < filters.len(),
    ensures
        operation_text(filters, 0) == "add the MouseVPN kill switch provider"@,
        operation_text(filters, 1) == "add the MouseVPN kill switch sublayer"@,
        operation_text(filters, i + 2) == "add the '"@ + filters[i].name@ + "' filter"@,
{
}

/// Every filter is named by its family and what it does, and every exception
/// outweighs the blocks.
pub proof fn filters_are_named_by_what_they_do(server: Ipv4Addr, tunnel: u64, i: int)
    requires
        0 <= i < kill_switch(server, tunnel).len(),
    ensures
        ({
            let all = kill_switch(server, tunnel);
            &&& all[0].name == "MouseVPN kill switch IPv4 block"@
            &&& all[1].name == "MouseVPN kill switch IPv4 tunnel permit"@
            &&& all[2].name == "MouseVPN kill switch IPv4 endpoint permit"@
            &&& all[3].name == "MouseVPN kill switch IPv4 loopback permit"@
            &&& all[4].name == "MouseVPN kill switch IPv4 DHCP permit"@
            &&& all[5].name == "MouseVPN kill switch IPv6 block"@
            &&& all[6].name == "MouseVPN kill switch IPv6 loopback permit"@
            &&& all[7].name == "MouseVPN kill switch IPv6 link-local permit"@
            &&& all[i].action is Block <==> i == 0 || i == 5
            &&& all[i].action is Block ==> all[i].weight == 0
            &&& all[i].action is Permit ==> all[i].weight == 10
            &&& !all[i].final_decision
            &&& all[i].layer == (if i < 5 { Layer::ConnectV4 } else { Layer::ConnectV6 })
        }),
{
}

} // verus!
