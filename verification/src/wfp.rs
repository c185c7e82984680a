//! Filters of the Windows Filtering Platform, and the transactions that
//! install them.

use vstd::prelude::*;

use crate::error::is_platform;
use crate::{netcfg, text, ClientError};

verus! {

/// The decision points that filters are attached to.
#[derive(Clone, Copy, Debug, PartialEq, Eq, Structural)]
pub enum Layer {
    BindRedirectV4,
    BindRedirectV6,
    ConnectV4,
    ConnectV6,
}

/// The address families that a socket can be redirected in.
#[derive(Clone, Copy, Debug, PartialEq, Eq, Structural)]
pub enum Family {
    V4,
    V6,
}

#[derive(Clone, Copy, Debug, PartialEq, Eq, Structural)]
pub enum FilterAction {
    Block,
    Permit,
    /// Hand the socket to the callout that binds it to the physical address.
    Redirect(Family),
}

/// What a filter tests.
#[derive(Clone, Copy, Debug, PartialEq, Eq, Structural)]
pub enum Condition {
    /// The interface the connection leaves by.
    Interface(u64),
    /// The remote IPv4 address under a mask.
    RemoteV4 { address: u32, mask: u32 },
    /// The remote IPv6 address in a prefix.
    RemoteV6 { network: u128, prefix: u8 },
    /// The local IPv4 address under a mask.
    LocalV4 { address: u32, mask: u32 },
    /// The local IPv6 address in a prefix.
    LocalV6 { network: u128, prefix: u8 },
    Loopback,
    Protocol(u8),
    LocalPort(u16),
    RemotePort(u16),
    /// The executable with this place in the list of the policy.
    Application(usize),
    /// The package with this place in the list of the policy.
    Package(usize),
    /// The host process of shared Windows services.
    ServiceHost,
    /// The identity of the name resolution service.
    DnsClient,
}

/// A filter to install.
#[derive(Debug)]
pub struct Filter {
    pub layer: Layer,
    pub action: FilterAction,
    pub weight: u64,
    /// Whether the decision is final: it takes the right to decide otherwise
    /// from every lighter sublayer.
    pub final_decision: bool,
    pub conditions: Vec<Condition>,
    pub name: &'static str,
}

/// A filter as a mathematical value.
#[verifier::ext_equal]
pub struct FilterModel {
    pub layer: Layer,
    pub action: FilterAction,
    pub weight: u64,
    pub final_decision: bool,
    pub conditions: Seq<Condition>,
    pub name: Seq<char>,
}

impl View for Filter {
    type V = FilterModel;

    open spec fn view(&self) -> FilterModel {
        FilterModel {
            layer: self.layer,
            action: self.action,
            weight: self.weight,
            final_decision: self.final_decision,
            conditions: self.conditions@,
            name: self.name@,
        }
    }
}

/// The filters as mathematical values.
pub open spec fn models(filters: Seq<Filter>) -> Seq<FilterModel> {
    filters.map_values(|filter: Filter| filter@)
}

pub proof fn lemma_models_push(filters: Seq<Filter>, filter: Filter)
    ensures
        models(filters.push(filter)) == models(filters).push(filter@),
{
    assert(models(filters.push(filter)) =~= models(filters).push(filter@));
}

/// A filter made of its parts.
pub fn filter(
    layer: Layer,
    action: FilterAction,
    weight: u64,
    final_decision: bool,
    conditions: Vec<Condition>,
    name: &'static str,
) -> (filter: Filter)
    ensures
        filter@ == (FilterModel {
            layer,
            action,
            weight,
            final_decision,
            conditions: conditions@,
            name: name@,
        }),
{
    Filter { layer, action, weight, final_decision, conditions, name }
}

// Semantics

/// An outbound connection as the platform sees it.
pub struct Connection {
    /// Whether the connection is made over IPv6.
    pub ipv6: bool,
    pub interface: u64,
    /// The remote address, right-aligned.
    pub remote: u128,
    /// The local address, right-aligned.
    pub local: u128,
    pub loopback: bool,
    pub protocol: u8,
    pub local_port: u16,
    pub remote_port: u16,
    /// Which executable of the policy makes the connection.
    pub application: Option<usize>,
    /// Which package of the policy makes the connection.
    pub package: Option<usize>,
    pub service_host: bool,
    pub dns_client: bool,
}

/// Whether two IPv6 addresses agree in their first `prefix` bits.
pub open spec fn same_prefix(a: u128, b: u128, prefix: u8) -> bool {
    prefix == 0 || a >> (128 - prefix) as u128 == b >> (128 - prefix) as u128
}

pub open spec fn holds(condition: Condition, c: Connection) -> bool {
    match condition {
        Condition::Interface(luid) => c.interface == luid,
        Condition::RemoteV4 { address, mask } => !c.ipv6 && (c.remote as u32) & mask == address
            & mask,
        Condition::RemoteV6 { network, prefix } => c.ipv6 && same_prefix(
            c.remote,
            network,
            prefix,
        ),
        Condition::LocalV4 { address, mask } => !c.ipv6 && (c.local as u32) & mask == address & mask,
        Condition::LocalV6 { network, prefix } => c.ipv6 && same_prefix(c.local, network, prefix),
        Condition::Loopback => c.loopback,
        Condition::Protocol(protocol) => c.protocol == protocol,
        Condition::LocalPort(port) => c.local_port == port,
        Condition::RemotePort(port) => c.remote_port == port,
        Condition::Application(index) => c.application == Some(index),
        Condition::Package(index) => c.package == Some(index),
        Condition::ServiceHost => c.service_host,
        Condition::DnsClient => c.dns_client,
    }
}

/// Whether a filter of `layer` applies to `c`: all its conditions hold.
pub open spec fn applies(filter: FilterModel, layer: Layer, c: Connection) -> bool {
    &&& filter.layer == layer
    &&& forall|i: int|
        0 <= i < filter.conditions.len() ==> holds(#[trigger] filter.conditions[i], c)
}

/// Whether the filters of one sublayer block `c`: some filter that applies
/// blocks it, and every filter that applies and permits it is lighter.
pub open spec fn blocks(filters: Seq<FilterModel>, layer: Layer, c: Connection) -> bool {
    exists|i: int| #[trigger] blocked_by(filters, layer, c, i)
}

pub open spec fn blocked_by(filters: Seq<FilterModel>, layer: Layer, c: Connection, i: int) -> bool {
    &&& 0 <= i < filters.len()
    &&& filters[i].action is Block
    &&& applies(filters[i], layer, c)
    &&& forall|j: int|
        0 <= j < filters.len() && (#[trigger] filters[j]).action is Permit && applies(
            filters[j],
            layer,
            c,
        ) ==> filters[j].weight < filters[i].weight
}

/// The layer that decides on `c`.
pub open spec fn connect_layer(c: Connection) -> Layer {
    if c.ipv6 {
        Layer::ConnectV6
    } else {
        Layer::ConnectV4
    }
}

// Transactions

/// Where the installation of a policy stands.
#[derive(Clone, Copy, Debug, PartialEq, Eq, Structural)]
pub enum TransactionCall {
    OpenEngine,
    Begin,
    /// Add the object with this place in the plan.
    Add(usize),
    Commit,
}

/// What the installation of a policy does next.
#[derive(Debug)]
pub enum TransactionNext {
    Call(TransactionCall),
    /// The policy stands; the engine stays open.
    Done,
    /// Undo what was done, and report.
    Fail { abort: bool, close: bool, error: ClientError },
}

/// Decides what follows a call that returned `code`.
///
/// A plan of `objects` objects is added within one transaction, so a failure
/// leaves nothing behind: the transaction is aborted where one is open, and
/// the engine is closed where it was opened.
pub fn after_call(call: TransactionCall, code: u32, objects: usize, operation: &str) -> (next:
    TransactionNext)
    requires
        call matches TransactionCall::Add(i) ==> i < objects,
    ensures
        if code != 0 {
            &&& next matches TransactionNext::Fail { abort, close, error }
            &&& abort == (call is Add)
            &&& close == !(call is OpenEngine)
            &&& is_platform(error, netcfg::win32_error_text(operation@, code))
        } else {
            match call {
                TransactionCall::OpenEngine => next == TransactionNext::Call(
                    TransactionCall::Begin,
                ),
                TransactionCall::Begin => next == TransactionNext::Call(
                    if objects > 0 {
                        TransactionCall::Add(0)
                    } else {
                        TransactionCall::Commit
                    },
                ),
                TransactionCall::Add(i) => next == TransactionNext::Call(
                    if i + 1 < objects {
                        TransactionCall::Add((i + 1) as usize)
                    } else {
                        TransactionCall::Commit
                    },
                ),
                TransactionCall::Commit => next is Done,
            }
        },
{
    if code != 0 {
        let error = netcfg::win32_error(operation, code);
        return match call {
            TransactionCall::OpenEngine => TransactionNext::Fail {
                abort: false,
                close: false,
                error,
            },
            TransactionCall::Add(_) => TransactionNext::Fail { abort: true, close: true, error },
            _ => TransactionNext::Fail { abort: false, close: true, error },
        };
    }
    match call {
        TransactionCall::OpenEngine => TransactionNext::Call(TransactionCall::Begin),
        TransactionCall::Begin => {
            if objects > 0 {
                TransactionNext::Call(TransactionCall::Add(0))
            } else {
                TransactionNext::Call(TransactionCall::Commit)
            }
        },
        TransactionCall::Add(i) => {
            if i + 1 < objects {
                TransactionNext::Call(TransactionCall::Add(i + 1))
            } else {
                TransactionNext::Call(TransactionCall::Commit)
            }
        },
        TransactionCall::Commit => TransactionNext::Done,
    }
}

/// `Ok` for a call of the platform that reported success.
pub fn check_wfp(code: u32, operation: &str) -> (result: Result<(), ClientError>)
    ensures
        result is Ok <==> code == 0,
        result matches Err(e) ==> is_platform(e, netcfg::win32_error_text(operation@, code)),
{
    netcfg::check_status(code, operation)
}

/// The UTF-16 code units of a character.
pub open spec fn utf16_units(c: char) -> Seq<u16> {
    let n = c as u32;
    if n < 0x1_0000 {
        seq![n as u16]
    } else {
        seq![(0xd800 + (n - 0x1_0000) / 0x400) as u16, (0xdc00 + (n - 0x1_0000) % 0x400) as u16]
    }
}

/// The UTF-16 code units of a text.
pub open spec fn utf16(s: Seq<char>) -> Seq<u16>
    decreases s.len(),
{
    if s.len() == 0 {
        Seq::<u16>::empty()
    } else {
        utf16(s.drop_last()) + utf16_units(s.last())
    }
}

/// The UTF-16 code units of a text, a terminating zero behind them.
pub fn wide(value: &str) -> (units: Vec<u16>)
    ensures
        units@ == utf16(value@).push(0),
{
    let chars = text::chars_of(value);
    let mut units: Vec<u16> = Vec::new();
    let mut i: usize = 0;
    while i < chars.len()
        invariant
            i <= chars@.len(),
            units@ == utf16(chars@.subrange(0, i as int)),
        decreases chars@.len() - i,
    {
        let n: u32 = chars[i] as u32;
        let ghost before = units@;
        proof {
            let longer = chars@.subrange(0, i + 1);
            assert(longer.drop_last() =~= chars@.subrange(0, i as int));
            assert(longer.last() == chars@[i as int]);
        }
        if n < 0x1_0000 {
            units.push(n as u16);
        } else {
            let rest: u32 = n - 0x1_0000;
            units.push((0xd800 + rest / 0x400) as u16);
            units.push((0xdc00 + rest % 0x400) as u16);
        }
        assert(units@ =~= before + utf16_units(chars@[i as int]));
        i = i + 1;
    }
    assert(chars@.subrange(0, i as int) =~= chars@);
    units.push(0);
    units
}

/// A character beyond the first plane becomes a high and a low surrogate from
/// which it can be computed again, and any other stays one unit.
pub proof fn surrogates_give_the_character_back(c: char)
    ensures
        (c as u32) < 0x1_0000 ==> utf16_units(c).len() == 1 && utf16_units(c)[0] == c as u32,
        (c as u32) >= 0x1_0000 ==> ({
            let units = utf16_units(c);
            &&& units.len() == 2
            &&& 0xd800 <= units[0] < 0xdc00
            &&& 0xdc00 <= units[1] < 0xe000
            &&& (units[0] - 0xd800) * 1024 + (units[1] - 0xdc00) + 0x1_0000 == c as u32
        }),
{
}

/// The units of a text are those of its parts, in their order.
pub proof fn units_follow_one_another(a: Seq<char>, b: Seq<char>)
    ensures
        utf16(a + b) == utf16(a) + utf16(b),
    decreases b.len(),
{
    if b.len() == 0 {
        assert(a + b =~= a);
        assert(utf16(a + b) =~= utf16(a) + utf16(b));
    } else {
        units_follow_one_another(a, b.drop_last());
        assert((a + b).drop_last() =~= a + b.drop_last());
        assert((a + b).last() == b.last());
        assert(utf16(a + b) =~= utf16(a) + utf16(b));
    }
}

/// A policy is added object by object within one transaction. A call that fails
/// aborts the transaction where one is open and closes the engine where it was
/// opened.
pub proof fn a_policy_is_added_within_one_transaction(
    call: TransactionCall,
    code: u32,
    objects: usize,
    operation: &str,
    next: TransactionNext,
)
    requires
        call matches TransactionCall::Add(i) ==> i < objects,
        call_ensures(after_call, (call, code, objects, operation), next),
    ensures
        next is Fail <==> code != 0,
        next is Done <==> code == 0 && call is Commit,
        code == 0 && call is OpenEngine ==> next == TransactionNext::Call(TransactionCall::Begin),
        code == 0 && call is Begin && objects > 0 ==> next == TransactionNext::Call(
            TransactionCall::Add(0),
        ),
        code == 0 && call is Begin && objects == 0 ==> next == TransactionNext::Call(
            TransactionCall::Commit,
        ),
        (next matches TransactionNext::Call(TransactionCall::Commit)) && objects > 0 ==> call
            == TransactionCall::Add((objects - 1) as usize),
        code == 0 ==> (call matches TransactionCall::Add(i) ==> i + 1 < objects ==> next
            == TransactionNext::Call(TransactionCall::Add((i + 1) as usize))),
        next matches TransactionNext::Fail { abort, close, error } ==> (abort <==> call is Add) && (
        close <==> !(call is OpenEngine)),
{
}

} // verus!
