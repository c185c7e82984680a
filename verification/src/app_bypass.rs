//! Keeps selected applications on, or off, the tunnel.
//!
//! A callout driver can bind a socket to the physical address before it
//! connects. The filters here decide whose sockets it is handed.

use vstd::prelude::*;

use crate::error::is_platform;
use crate::ip::{Ipv4Addr, Ipv6Addr};
use crate::netcfg::PhysicalAddresses;
use crate::wfp::{
    Condition, Connection, Family, Filter, FilterAction, FilterModel, Layer, TransactionCall,
};
use crate::{bytes, text, wfp, AppRoutingMode, AppRoutingPolicy, ClientError};

verus! {

pub const DRIVER_FILE: &'static str = "MouseVpnSplitTunnel.sys";

/// Weight of the sublayer that the bypass filters live in.
pub const SUBLAYER_WEIGHT: u16 = 0xfffe;

/// Weight of the filter that redirects whatever no other filter claims.
pub const DEFAULT_WEIGHT: u64 = 10;

/// Weight of the filters for a listed identity.
pub const IDENTITY_WEIGHT: u64 = 15;

/// Weight of the blocks that keep a routed application off the physical
/// address.
pub const DIRECT_BLOCK_WEIGHT: u64 = 20;

/// Hands a socket to the callout.
pub open spec fn redirect(
    family: Family,
    conditions: Seq<Condition>,
    weight: u64,
    name: Seq<char>,
) -> FilterModel {
    FilterModel {
        layer: match family {
            Family::V4 => Layer::BindRedirectV4,
            Family::V6 => Layer::BindRedirectV6,
        },
        action: FilterAction::Redirect(family),
        weight,
        final_decision: false,
        conditions,
        name,
    }
}

/// Lets a socket through and takes the right to block it from every lighter
/// sublayer.
pub open spec fn permit(layer: Layer, conditions: Seq<Condition>, name: Seq<char>) -> FilterModel {
    FilterModel {
        layer,
        action: FilterAction::Permit,
        weight: IDENTITY_WEIGHT,
        final_decision: true,
        conditions,
        name,
    }
}

/// Blocks a connection whatever a lighter sublayer says.
pub open spec fn direct_block(layer: Layer, conditions: Seq<Condition>, name: Seq<char>) -> FilterModel {
    FilterModel {
        layer,
        action: FilterAction::Block,
        weight: DIRECT_BLOCK_WEIGHT,
        final_decision: true,
        conditions,
        name,
    }
}

/// The filters that keep an excluded identity on the physical link.
pub open spec fn excluded(identity: Condition, ipv6: bool) -> Seq<FilterModel> {
    let v4 = seq![
        redirect(Family::V4, seq![identity], IDENTITY_WEIGHT, "MouseVPN excluded application"@),
        permit(Layer::ConnectV4, seq![identity], "MouseVPN application permit"@),
    ];
    if ipv6 {
        v4.push(
            redirect(
                Family::V6,
                seq![identity],
                IDENTITY_WEIGHT,
                "MouseVPN excluded IPv6 application"@,
            ),
        ).push(permit(Layer::ConnectV6, seq![identity], "MouseVPN application permit"@))
    } else {
        v4
    }
}

/// The filters that keep whatever is not selected on the physical link, and
/// the name resolution service on the tunnel.
///
/// Windows performs lookups for all applications in one shared service. Its
/// identity is matched as well as its host process, so unrelated services keep
/// bypassing the tunnel.
pub open spec fn defaults(ipv6: bool) -> Seq<FilterModel> {
    let none = Seq::<Condition>::empty();
    let resolver = seq![Condition::ServiceHost, Condition::DnsClient];
    if ipv6 {
        seq![
            redirect(Family::V4, none, DEFAULT_WEIGHT, "MouseVPN default bypass"@),
            redirect(Family::V6, none, DEFAULT_WEIGHT, "MouseVPN default IPv6 bypass"@),
            permit(Layer::BindRedirectV4, resolver, "MouseVPN DNS Client permit"@),
            permit(Layer::BindRedirectV6, resolver, "MouseVPN DNS Client IPv6 permit"@),
        ]
    } else {
        seq![
            redirect(Family::V4, none, DEFAULT_WEIGHT, "MouseVPN default bypass"@),
            permit(Layer::BindRedirectV4, resolver, "MouseVPN DNS Client permit"@),
        ]
    }
}

/// The filters that keep a selected identity on the tunnel: its sockets are
/// not redirected, and it cannot connect from a physical address.
pub open spec fn routed(identity: Condition, addresses: PhysicalAddresses) -> Seq<FilterModel> {
    let v4 = seq![
        permit(Layer::BindRedirectV4, seq![identity], "MouseVPN application permit"@),
        direct_block(
            Layer::ConnectV4,
            seq![
                identity,
                Condition::LocalV4 { address: addresses.ipv4.bits, mask: u32::MAX },
            ],
            "MouseVPN selected application direct IPv4 block"@,
        ),
    ];
    match addresses.ipv6 {
        Some(address) => v4.push(
            permit(Layer::BindRedirectV6, seq![identity], "MouseVPN application permit"@),
        ).push(
            direct_block(
                Layer::ConnectV6,
                seq![identity, Condition::LocalV6 { network: address.bits, prefix: 128 }],
                "MouseVPN selected application direct IPv6 block"@,
            ),
        ),
        None => v4,
    }
}

/// The filters for one listed identity.
pub open spec fn identity_filters(
    mode: AppRoutingMode,
    identity: Condition,
    addresses: PhysicalAddresses,
) -> Seq<FilterModel> {
    match mode {
        AppRoutingMode::Exclude => excluded(identity, addresses.ipv6 is Some),
        AppRoutingMode::Include => routed(identity, addresses),
    }
}

/// The filters for the first `n` executables.
pub open spec fn application_filters(
    mode: AppRoutingMode,
    n: nat,
    addresses: PhysicalAddresses,
) -> Seq<FilterModel>
    decreases n,
{
    if n == 0 {
        Seq::<FilterModel>::empty()
    } else {
        application_filters(mode, (n - 1) as nat, addresses) + identity_filters(
            mode,
            Condition::Application((n - 1) as usize),
            addresses,
        )
    }
}

/// The filters for the first `n` packages.
pub open spec fn package_filters(
    mode: AppRoutingMode,
    n: nat,
    addresses: PhysicalAddresses,
) -> Seq<FilterModel>
    decreases n,
{
    if n == 0 {
        Seq::<FilterModel>::empty()
    } else {
        package_filters(mode, (n - 1) as nat, addresses) + identity_filters(
            mode,
            Condition::Package((n - 1) as usize),
            addresses,
        )
    }
}

/// All filters of a policy that lists `apps` executables and `packages`
/// packages.
pub open spec fn policy_filters(
    mode: AppRoutingMode,
    apps: nat,
    packages: nat,
    addresses: PhysicalAddresses,
) -> Seq<FilterModel> {
    (match mode {
        AppRoutingMode::Exclude => Seq::<FilterModel>::empty(),
        AppRoutingMode::Include => defaults(addresses.ipv6 is Some),
    }) + application_filters(mode, apps, addresses) + package_filters(mode, packages, addresses)
}

fn redirect_filter(family: Family, conditions: Vec<Condition>, weight: u64, name: &'static str) -> (
    filter: Filter)
    ensures
        filter@ == redirect(family, conditions@, weight, name@),
{
    let layer = match family {
        Family::V4 => Layer::BindRedirectV4,
        Family::V6 => Layer::BindRedirectV6,
    };
    wfp::filter(layer, FilterAction::Redirect(family), weight, false, conditions, name)
}

fn permit_filter(layer: Layer, conditions: Vec<Condition>, name: &'static str) -> (filter: Filter)
    ensures
        filter@ == permit(layer, conditions@, name@),
{
    wfp::filter(layer, FilterAction::Permit, IDENTITY_WEIGHT, true, conditions, name)
}

fn block_filter(layer: Layer, conditions: Vec<Condition>, name: &'static str) -> (filter: Filter)
    ensures
        filter@ == direct_block(layer, conditions@, name@),
{
    wfp::filter(layer, FilterAction::Block, DIRECT_BLOCK_WEIGHT, true, conditions, name)
}

fn one(identity: Condition) -> (conditions: Vec<Condition>)
    ensures
        conditions@ == seq![identity],
{
    let conditions = vec![identity];
    assert(conditions@ =~= seq![identity]);
    conditions
}

fn push(filters: &mut Vec<Filter>, filter: Filter)
    ensures
        wfp::models(final(filters)@) == wfp::models(old(filters)@).push(filter@),
{
    proof {
        wfp::lemma_models_push(filters@, filter);
    }
    filters.push(filter);
}

fn add_excluded(filters: &mut Vec<Filter>, identity: Condition, ipv6: bool)
    ensures
        wfp::models(final(filters)@) == wfp::models(old(filters)@) + excluded(identity, ipv6),
{
    let ghost before = wfp::models(filters@);
    push(
        filters,
        redirect_filter(
            Family::V4,
            one(identity),
            IDENTITY_WEIGHT,
            "MouseVPN excluded application",
        ),
    );
    push(filters, permit_filter(Layer::ConnectV4, one(identity), "MouseVPN application permit"));
    if ipv6 {
        push(
            filters,
            redirect_filter(
                Family::V6,
                one(identity),
                IDENTITY_WEIGHT,
                "MouseVPN excluded IPv6 application",
            ),
        );
        push(
            filters,
            permit_filter(Layer::ConnectV6, one(identity), "MouseVPN application permit"),
        );
    }
    assert(wfp::models(filters@) =~= before + excluded(identity, ipv6));
}

fn resolver_conditions() -> (conditions: Vec<Condition>)
    ensures
        conditions@ == seq![Condition::ServiceHost, Condition::DnsClient],
{
    let conditions = vec![Condition::ServiceHost, Condition::DnsClient];
    assert(conditions@ =~= seq![Condition::ServiceHost, Condition::DnsClient]);
    conditions
}

fn add_defaults(filters: &mut Vec<Filter>, ipv6: bool)
    ensures
        wfp::models(final(filters)@) == wfp::models(old(filters)@) + defaults(ipv6),
{
    let ghost before = wfp::models(filters@);
    push(
        filters,
        redirect_filter(Family::V4, Vec::new(), DEFAULT_WEIGHT, "MouseVPN default bypass"),
    );
    if ipv6 {
        push(
            filters,
            redirect_filter(Family::V6, Vec::new(), DEFAULT_WEIGHT, "MouseVPN default IPv6 bypass"),
        );
    }
    push(
        filters,
        permit_filter(Layer::BindRedirectV4, resolver_conditions(), "MouseVPN DNS Client permit"),
    );
    if ipv6 {
        push(
            filters,
            permit_filter(
                Layer::BindRedirectV6,
                resolver_conditions(),
                "MouseVPN DNS Client IPv6 permit",
            ),
        );
    }
    assert(wfp::models(filters@) =~= before + defaults(ipv6));
}

fn add_routed(filters: &mut Vec<Filter>, identity: Condition, addresses: PhysicalAddresses)
    ensures
        wfp::models(final(filters)@) == wfp::models(old(filters)@) + routed(identity, addresses),
{
    let ghost before = wfp::models(filters@);
    push(
        filters,
        permit_filter(Layer::BindRedirectV4, one(identity), "MouseVPN application permit"),
    );
    let local_v4 = Condition::LocalV4 { address: addresses.ipv4.bits, mask: u32::MAX };
    let direct_v4 = vec![identity, local_v4];
    assert(direct_v4@ =~= seq![identity, local_v4]);
    push(
        filters,
        block_filter(
            Layer::ConnectV4,
            direct_v4,
            "MouseVPN selected application direct IPv4 block",
        ),
    );
    if let Some(address) = addresses.ipv6 {
        push(
            filters,
            permit_filter(Layer::BindRedirectV6, one(identity), "MouseVPN application permit"),
        );
        let local_v6 = Condition::LocalV6 { network: address.bits, prefix: 128 };
        let direct_v6 = vec![identity, local_v6];
        assert(direct_v6@ =~= seq![identity, local_v6]);
        push(
            filters,
            block_filter(
                Layer::ConnectV6,
                direct_v6,
                "MouseVPN selected application direct IPv6 block",
            ),
        );
    }
    assert(wfp::models(filters@) =~= before + routed(identity, addresses));
}

fn add_identity(
    filters: &mut Vec<Filter>,
    mode: AppRoutingMode,
    identity: Condition,
    addresses: PhysicalAddresses,
)
    ensures
        wfp::models(final(filters)@) == wfp::models(old(filters)@) + identity_filters(
            mode,
            identity,
            addresses,
        ),
{
    match mode {
        AppRoutingMode::Exclude => add_excluded(filters, identity, addresses.ipv6.is_some()),
        AppRoutingMode::Include => add_routed(filters, identity, addresses),
    }
}

/// The filters of a policy, in the order they are added.
pub fn filters(policy: &AppRoutingPolicy, addresses: PhysicalAddresses) -> (filters: Vec<Filter>)
    ensures
        wfp::models(filters@) == policy_filters(
            policy.mode,
            policy.apps@.len(),
            policy.package_sids@.len(),
            addresses,
        ),
{
    let mut filters: Vec<Filter> = Vec::new();
    assert(wfp::models(filters@) =~= Seq::<FilterModel>::empty());
    match policy.mode {
        AppRoutingMode::Exclude => {},
        AppRoutingMode::Include => {
            add_defaults(&mut filters, addresses.ipv6.is_some());
        },
    }
    let ghost first = wfp::models(filters@);
    assert(first =~= match policy.mode {
        AppRoutingMode::Exclude => Seq::<FilterModel>::empty(),
        AppRoutingMode::Include => defaults(addresses.ipv6 is Some),
    });
    let mut i: usize = 0;
    assert(first + application_filters(policy.mode, 0, addresses) =~= first);
    while i < policy.apps.len()
        invariant
            i <= policy.apps@.len(),
            wfp::models(filters@) == first + application_filters(
                policy.mode,
                i as nat,
                addresses,
            ),
        decreases policy.apps@.len() - i,
    {
        let ghost before = wfp::models(filters@);
        add_identity(&mut filters, policy.mode, Condition::Application(i), addresses);
        i = i + 1;
        assert(wfp::models(filters@) =~= first + application_filters(
            policy.mode,
            i as nat,
            addresses,
        ));
    }
    let ghost second = wfp::models(filters@);
    let mut k: usize = 0;
    assert(second + package_filters(policy.mode, 0, addresses) =~= second);
    while k < policy.package_sids.len()
        invariant
            k <= policy.package_sids@.len(),
            wfp::models(filters@) == second + package_filters(policy.mode, k as nat, addresses),
        decreases policy.package_sids@.len() - k,
    {
        add_identity(&mut filters, policy.mode, Condition::Package(k), addresses);
        k = k + 1;
        assert(wfp::models(filters@) =~= second + package_filters(
            policy.mode,
            k as nat,
            addresses,
        ));
    }
    filters
}

/// An object that the installation adds to the platform.
#[derive(Debug)]
pub enum PlatformObject {
    Provider,
    Sublayer,
    Callout(Family),
    /// The physical address that the callout of this family binds sockets to.
    Context(Family),
    Filter(Filter),
}

/// An object as a mathematical value.
pub enum ObjectModel {
    Provider,
    Sublayer,
    Callout(Family),
    Context(Family),
    Filter(FilterModel),
}

impl View for PlatformObject {
    type V = ObjectModel;

    open spec fn view(&self) -> ObjectModel {
        match self {
            PlatformObject::Provider => ObjectModel::Provider,
            PlatformObject::Sublayer => ObjectModel::Sublayer,
            PlatformObject::Callout(family) => ObjectModel::Callout(*family),
            PlatformObject::Context(family) => ObjectModel::Context(*family),
            PlatformObject::Filter(filter) => ObjectModel::Filter(filter@),
        }
    }
}

/// What is added before the filters: an IPv6 callout and context only where
/// there is an IPv6 address to bind to.
pub open spec fn preamble(ipv6: bool) -> Seq<ObjectModel> {
    if ipv6 {
        seq![
            ObjectModel::Provider,
            ObjectModel::Sublayer,
            ObjectModel::Callout(Family::V4),
            ObjectModel::Callout(Family::V6),
            ObjectModel::Context(Family::V4),
            ObjectModel::Context(Family::V6),
        ]
    } else {
        seq![
            ObjectModel::Provider,
            ObjectModel::Sublayer,
            ObjectModel::Callout(Family::V4),
            ObjectModel::Context(Family::V4),
        ]
    }
}

/// Everything the installation adds, in order.
pub open spec fn transaction(policy: AppRoutingPolicy, addresses: PhysicalAddresses) -> Seq<
    ObjectModel,
> {
    preamble(addresses.ipv6 is Some) + policy_filters(
        policy.mode,
        policy.apps@.len(),
        policy.package_sids@.len(),
        addresses,
    ).map_values(|filter: FilterModel| ObjectModel::Filter(filter))
}

pub open spec fn object_models(objects: Seq<PlatformObject>) -> Seq<ObjectModel> {
    objects.map_values(|object: PlatformObject| object@)
}

/// Everything the installation adds within one transaction, in order.
pub fn configure_transaction(policy: &AppRoutingPolicy, addresses: PhysicalAddresses) -> (objects:
    Vec<PlatformObject>)
    ensures
        object_models(objects@) == transaction(*policy, addresses),
{
    let mut objects: Vec<PlatformObject> = Vec::new();
    objects.push(PlatformObject::Provider);
    objects.push(PlatformObject::Sublayer);
    objects.push(PlatformObject::Callout(Family::V4));
    if addresses.ipv6.is_some() {
        objects.push(PlatformObject::Callout(Family::V6));
    }
    objects.push(PlatformObject::Context(Family::V4));
    if addresses.ipv6.is_some() {
        objects.push(PlatformObject::Context(Family::V6));
    }
    let ghost first = object_models(objects@);
    assert(first =~= preamble(addresses.ipv6 is Some));
    let filters = filters(policy, addresses);
    let ghost models = wfp::models(filters@);
    for filter in iter: filters
        invariant
            iter.seq() == filters@,
            models == wfp::models(filters@),
            object_models(objects@) =~= first + models.subrange(0, iter.index() as int).map_values(
                |filter: FilterModel| ObjectModel::Filter(filter),
            ),
    {
        let ghost before = object_models(objects@);
        let ghost model = filter@;
        objects.push(PlatformObject::Filter(filter));
        assert(object_models(objects@) =~= before.push(ObjectModel::Filter(model)));
    }
    assert(models.subrange(0, models.len() as int) =~= models);
    objects
}

/// How the call that adds an object is worded.
pub open spec fn operation_text(object: ObjectModel) -> Seq<char> {
    match object {
        ObjectModel::Provider => "add the MouseVPN WFP provider"@,
        ObjectModel::Sublayer => "add the MouseVPN WFP sublayer"@,
        ObjectModel::Callout(_) => "register the MouseVPN WFP callout"@,
        ObjectModel::Context(_) => "add a physical-address WFP context"@,
        ObjectModel::Filter(filter) => match filter.action {
            FilterAction::Redirect(_) => "add an application redirect filter"@,
            FilterAction::Permit => "add an application firewall permit"@,
            FilterAction::Block => "add a selected-application direct-connection block"@,
        },
    }
}

/// How the call that adds an object is worded.
pub fn operation(object: &PlatformObject) -> (operation: &'static str)
    ensures
        operation@ == operation_text(object@),
{
    match object {
        PlatformObject::Provider => "add the MouseVPN WFP provider",
        PlatformObject::Sublayer => "add the MouseVPN WFP sublayer",
        PlatformObject::Callout(_) => "register the MouseVPN WFP callout",
        PlatformObject::Context(_) => "add a physical-address WFP context",
        PlatformObject::Filter(filter) => match filter.action {
            FilterAction::Redirect(_) => "add an application redirect filter",
            FilterAction::Permit => "add an application firewall permit",
            FilterAction::Block => "add a selected-application direct-connection block",
        },
    }
}

/// How a call of the installation is worded.
pub fn call_operation(call: TransactionCall, objects: &Vec<PlatformObject>) -> (operation:
    &'static str)
    requires
        call matches TransactionCall::Add(i) ==> i < objects@.len(),
    ensures
        operation@ == (match call {
            TransactionCall::OpenEngine => "open the WFP engine"@,
            TransactionCall::Begin => "begin the WFP transaction"@,
            TransactionCall::Add(i) => operation_text(objects@[i as int]@),
            TransactionCall::Commit => "commit the WFP transaction"@,
        }),
{
    match call {
        TransactionCall::OpenEngine => "open the WFP engine",
        TransactionCall::Begin => "begin the WFP transaction",
        TransactionCall::Add(i) => operation(&objects[i]),
        TransactionCall::Commit => "commit the WFP transaction",
    }
}

/// The name an object is shown under.
pub fn display_name(object: &PlatformObject) -> (name: &'static str)
    ensures
        name@ == (match object@ {
            ObjectModel::Provider => "MouseVPN application bypass"@,
            ObjectModel::Sublayer => "MouseVPN application bypass policy"@,
            ObjectModel::Callout(Family::V4) => "MouseVPN application bypass"@,
            ObjectModel::Callout(Family::V6) => "MouseVPN IPv6 application bypass"@,
            ObjectModel::Context(Family::V4) => "MouseVPN physical IPv4 address"@,
            ObjectModel::Context(Family::V6) => "MouseVPN physical IPv6 address"@,
            ObjectModel::Filter(filter) => filter.name,
        }),
{
    match object {
        PlatformObject::Provider => "MouseVPN application bypass",
        PlatformObject::Sublayer => "MouseVPN application bypass policy",
        PlatformObject::Callout(Family::V4) => "MouseVPN application bypass",
        PlatformObject::Callout(Family::V6) => "MouseVPN IPv6 application bypass",
        PlatformObject::Context(Family::V4) => "MouseVPN physical IPv4 address",
        PlatformObject::Context(Family::V6) => "MouseVPN physical IPv6 address",
        PlatformObject::Filter(filter) => filter.name,
    }
}

/// The context that tells the driver which address to bind sockets to: the
/// address family, two reserved bytes, then the address.
pub struct RedirectContext;

impl RedirectContext {
    pub fn ipv4(address: Ipv4Addr) -> (context: [u8; 20])
        ensures
            context@ == seq![2u8, 0, 0, 0] + bytes::be_bytes(address.bits as nat, 4) + Seq::new(
                12,
                |i: int| 0u8,
            ),
    {
        let octets = bytes::be_octets(address.bits as u128, 4);
        proof {
            bytes::lemma_be_bytes_len(address.bits as nat, 4);
        }
        let context = [
            2,
            0,
            0,
            0,
            octets[0],
            octets[1],
            octets[2],
            octets[3],
            0,
            0,
            0,
            0,
            0,
            0,
            0,
            0,
            0,
            0,
            0,
            0,
        ];
        assert(context@ =~= seq![2u8, 0, 0, 0] + bytes::be_bytes(address.bits as nat, 4)
            + Seq::new(12, |i: int| 0u8));
        context
    }

    pub fn ipv6(address: Ipv6Addr) -> (context: [u8; 20])
        ensures
            context@ == seq![23u8, 0, 0, 0] + bytes::be_bytes(address.bits as nat, 16),
    {
        let octets = bytes::be_octets(address.bits, 16);
        proof {
            bytes::lemma_be_bytes_len(address.bits as nat, 16);
        }
        let context = [
            23,
            0,
            0,
            0,
            octets[0],
            octets[1],
            octets[2],
            octets[3],
            octets[4],
            octets[5],
            octets[6],
            octets[7],
            octets[8],
            octets[9],
            octets[10],
            octets[11],
            octets[12],
            octets[13],
            octets[14],
            octets[15],
        ];
        assert(context@ =~= seq![23u8, 0, 0, 0] + bytes::be_bytes(address.bits as nat, 16));
        context
    }
}

/// Whether a policy needs the bypass at all.
pub fn is_needed(policy: &AppRoutingPolicy) -> (needed: bool)
    ensures
        needed == !(policy.apps@.len() == 0 && policy.package_sids@.len() == 0 && policy.mode
            is Exclude),
{
    match policy.mode {
        AppRoutingMode::Exclude => policy.apps.len() > 0 || policy.package_sids.len() > 0,
        AppRoutingMode::Include => true,
    }
}

/// Refuses a policy that lists an executable which is not there.
///
/// `available` says of each listed executable whether its path is absolute and
/// names a file.
pub fn check_applications(policy: &AppRoutingPolicy, available: &Vec<bool>) -> (result: Result<
    (),
    ClientError,
>)
    requires
        available@.len() == policy.apps@.len(),
    ensures
        result is Ok <==> forall|i: int| 0 <= i < available@.len() ==> #[trigger] available@[i],
        result matches Err(e) ==> exists|i: int|
            #![trigger available@[i]]
            0 <= i < available@.len() && !available@[i] && (forall|j: int|
                0 <= j < i ==> #[trigger] available@[j]) && is_platform(
                e,
                "excluded Windows application is unavailable: "@ + policy.apps@[i]@,
            ),
{
    let mut i: usize = 0;
    while i < policy.apps.len()
        invariant
            i <= policy.apps@.len(),
            available@.len() == policy.apps@.len(),
            forall|j: int| 0 <= j < i ==> #[trigger] available@[j],
        decreases policy.apps@.len() - i,
    {
        if !available[i] {
            return Err(
                ClientError::platform_with(
                    "excluded Windows application is unavailable: ",
                    policy.apps[i].as_str(),
                ),
            );
        }
        i = i + 1;
    }
    Ok(())
}

/// Whether the filters have to be installed anew.
///
/// They name the physical addresses, so they go stale when those change. The
/// fixed keys cannot exist in two sessions at once, so the old session is
/// closed first and the machine briefly fails closed.
pub fn refresh_needed(installed: PhysicalAddresses, current: PhysicalAddresses, engine_open: bool) -> (
    needed: bool)
    ensures
        needed == !(installed == current && engine_open),
{
    !(installed.ipv4 == current.ipv4 && same_optional(installed.ipv6, current.ipv6) && engine_open)
}

fn same_optional(a: Option<Ipv6Addr>, b: Option<Ipv6Addr>) -> (same: bool)
    ensures
        same == (a == b),
{
    match (a, b) {
        (Some(x), Some(y)) => x == y,
        (None, None) => true,
        _ => false,
    }
}

// The callout driver

/// The calls of the service control program that bring the driver up.
#[derive(Clone, Copy, Debug, PartialEq, Eq, Structural)]
pub enum DriverCall {
    /// Ask whether the driver is registered.
    Query,
    /// Point the registration at the packaged driver.
    Configure,
    /// Start a registered driver whose package is missing.
    StartInstalled,
    /// Register the packaged driver.
    Create,
    /// Start the driver.
    Start,
}

/// What bringing the driver up does next.
#[derive(Debug)]
pub enum DriverNext {
    Call(DriverCall),
    Finish(Result<(), ClientError>),
}

/// Whether starting came to a running driver: error 1056 means that it
/// already runs.
pub open spec fn is_running(success: bool, details: Seq<char>) -> bool {
    success || text::contains_text(details, "1056"@)
}

pub open spec fn sc_error_text(operation: Seq<char>, details: Seq<char>) -> Seq<char> {
    "failed to "@ + operation + ": "@ + details
}

/// The error of a failed call of the service control program.
pub fn sc_error(operation: &str, details: &str) -> (error: ClientError)
    ensures
        is_platform(error, sc_error_text(operation@, details@)),
{
    let mut message = text::owned("failed to ");
    message.append(operation);
    message.append(": ");
    message.append(details);
    ClientError::Platform(message)
}

/// Decides what follows a call of the service control program.
///
/// `packaged` says whether the driver at `path` is there. Without it only a
/// driver that is already registered can be started.
pub fn after_driver_call(
    call: DriverCall,
    success: bool,
    details: &str,
    packaged: bool,
    path: &str,
) -> (next: DriverNext)
    ensures
        match call {
            DriverCall::Query => if success {
                next == DriverNext::Call(
                    if packaged {
                        DriverCall::Configure
                    } else {
                        DriverCall::StartInstalled
                    },
                )
            } else if packaged {
                next == DriverNext::Call(DriverCall::Create)
            } else {
                &&& next matches DriverNext::Finish(Err(e))
                &&& is_platform(
                    e,
                    "application bypass driver is missing: "@ + path@
                        + "; install the complete MouseVPN package"@,
                )
            },
            DriverCall::Configure => if success {
                next == DriverNext::Call(DriverCall::Start)
            } else {
                &&& next matches DriverNext::Finish(Err(e))
                &&& is_platform(
                    e,
                    sc_error_text("update the application bypass driver"@, details@),
                )
            },
            DriverCall::StartInstalled => if is_running(success, details@) {
                next matches DriverNext::Finish(Ok(_))
            } else {
                &&& next matches DriverNext::Finish(Err(e))
                &&& is_platform(
                    e,
                    "application bypass driver is installed but cannot be started, and the package copy is missing: "@
                        + path@ + "; "@ + details@,
                )
            },
            DriverCall::Create => if success {
                next == DriverNext::Call(DriverCall::Start)
            } else {
                &&& next matches DriverNext::Finish(Err(e))
                &&& is_platform(
                    e,
                    sc_error_text("install the application bypass driver"@, details@),
                )
            },
            DriverCall::Start => if is_running(success, details@) {
                next matches DriverNext::Finish(Ok(_))
            } else {
                &&& next matches DriverNext::Finish(Err(e))
                &&& is_platform(
                    e,
                    sc_error_text("start the application bypass driver"@, details@),
                )
            },
        },
{
    match call {
        DriverCall::Query => {
            if success {
                if packaged {
                    DriverNext::Call(DriverCall::Configure)
                } else {
                    DriverNext::Call(DriverCall::StartInstalled)
                }
            } else if packaged {
                DriverNext::Call(DriverCall::Create)
            } else {
                let mut message = text::owned("application bypass driver is missing: ");
                message.append(path);
                message.append("; install the complete MouseVPN package");
                DriverNext::Finish(Err(ClientError::Platform(message)))
            }
        },
        DriverCall::Configure => {
            if success {
                DriverNext::Call(DriverCall::Start)
            } else {
                DriverNext::Finish(Err(sc_error("update the application bypass driver", details)))
            }
        },
        DriverCall::StartInstalled => {
            if success || text::contains(details, "1056") {
                DriverNext::Finish(Ok(()))
            } else {
                let mut message = text::owned(
                    "application bypass driver is installed but cannot be started, and the package copy is missing: ",
                );
                message.append(path);
                message.append("; ");
                message.append(details);
                DriverNext::Finish(Err(ClientError::Platform(message)))
            }
        },
        DriverCall::Create => {
            if success {
                DriverNext::Call(DriverCall::Start)
            } else {
                DriverNext::Finish(Err(sc_error("install the application bypass driver", details)))
            }
        },
        DriverCall::Start => {
            if success || text::contains(details, "1056") {
                DriverNext::Finish(Ok(()))
            } else {
                DriverNext::Finish(Err(sc_error("start the application bypass driver", details)))
            }
        },
    }
}

/// The arguments of a call of the service control program.
pub open spec fn driver_arguments_text(call: DriverCall, path: Seq<char>) -> Seq<Seq<char>> {
    match call {
        DriverCall::Query => seq!["query"@, "MouseVpnSplitTunnel"@],
        DriverCall::Configure => seq!["config"@, "MouseVpnSplitTunnel"@, "binPath="@, path],
        DriverCall::StartInstalled | DriverCall::Start => seq!["start"@, "MouseVpnSplitTunnel"@],
        DriverCall::Create => seq![
            "create"@,
            "MouseVpnSplitTunnel"@,
            "type="@,
            "kernel"@,
            "start="@,
            "demand"@,
            "binPath="@,
            path,
            "DisplayName="@,
            "MouseVPN Split Tunnel"@,
        ],
    }
}

/// The arguments of a call of the service control program.
pub fn driver_arguments(call: DriverCall, path: &str) -> (arguments: Vec<String>)
    ensures
        text::texts(arguments@) == driver_arguments_text(call, path@),
{
    let service = "MouseVpnSplitTunnel";
    let arguments: Vec<String> = match call {
        DriverCall::Query => vec![text::owned("query"), text::owned(service)],
        DriverCall::Configure => vec![
            text::owned("config"),
            text::owned(service),
            text::owned("binPath="),
            text::owned(path),
        ],
        DriverCall::StartInstalled | DriverCall::Start => vec![
            text::owned("start"),
            text::owned(service),
        ],
        DriverCall::Create => vec![
            text::owned("create"),
            text::owned(service),
            text::owned("type="),
            text::owned("kernel"),
            text::owned("start="),
            text::owned("demand"),
            text::owned("binPath="),
            text::owned(path),
            text::owned("DisplayName="),
            text::owned("MouseVPN Split Tunnel"),
        ],
    };
    assert(text::texts(arguments@) =~= driver_arguments_text(call, path@));
    arguments
}

/// What the service control program wrote, on one line.
pub fn sc_details(stdout: &str, stderr: &str) -> (details: String)
    ensures
        details@ == text::trim(text::trim(stdout@) + " "@ + text::trim(stderr@)),
{
    let mut details = text::trimmed(stdout);
    details.append(" ");
    details.append(text::trimmed(stderr).as_str());
    text::trimmed(details.as_str())
}

// Laws

/// Whether every filter tests one of the listed identities.
pub open spec fn names_listed(filters: Seq<FilterModel>, apps: nat, packages: nat) -> bool {
    forall|i: int| 0 <= i < filters.len() ==> is_listed_filter(#[trigger] filters[i], apps, packages)
}

pub open spec fn is_listed_filter(filter: FilterModel, apps: nat, packages: nat) -> bool {
    &&& filter.conditions.len() > 0
    &&& {
        ||| filter.conditions[0] matches Condition::Application(i) && i < apps
        ||| filter.conditions[0] matches Condition::Package(i) && i < packages
    }
}

proof fn lemma_names_listed_concat(
    a: Seq<FilterModel>,
    b: Seq<FilterModel>,
    apps: nat,
    packages: nat,
)
    requires
        names_listed(a, apps, packages),
        names_listed(b, apps, packages),
    ensures
        names_listed(a + b, apps, packages),
{
    let all = a + b;
    assert forall|i: int| 0 <= i < all.len() implies is_listed_filter(
        #[trigger] all[i],
        apps,
        packages,
    ) by {
        if i < a.len() {
            assert(is_listed_filter(a[i], apps, packages));
        } else {
            assert(is_listed_filter(b[i - a.len()], apps, packages));
        }
    }
}

proof fn lemma_identity_listed(
    mode: AppRoutingMode,
    identity: Condition,
    addresses: PhysicalAddresses,
    apps: nat,
    packages: nat,
)
    requires
        (identity matches Condition::Application(i) && i < apps) || (identity matches Condition::Package(
            i,
        ) && i < packages),
    ensures
        names_listed(identity_filters(mode, identity, addresses), apps, packages),
{
    let filters = identity_filters(mode, identity, addresses);
    assert forall|i: int| 0 <= i < filters.len() implies is_listed_filter(
        #[trigger] filters[i],
        apps,
        packages,
    ) by {
        assert(i == 0 || i == 1 || i == 2 || i == 3);
        assert(filters[i].conditions[0] == identity);
    }
}

proof fn lemma_applications_listed(
    mode: AppRoutingMode,
    n: nat,
    addresses: PhysicalAddresses,
    apps: nat,
    packages: nat,
)
    requires
        n <= apps <= usize::MAX,
    ensures
        names_listed(application_filters(mode, n, addresses), apps, packages),
    decreases n,
{
    if n > 0 {
        lemma_applications_listed(mode, (n - 1) as nat, addresses, apps, packages);
        let identity = Condition::Application((n - 1) as usize);
        lemma_identity_listed(mode, identity, addresses, apps, packages);
        lemma_names_listed_concat(
            application_filters(mode, (n - 1) as nat, addresses),
            identity_filters(mode, identity, addresses),
            apps,
            packages,
        );
    }
}

proof fn lemma_packages_listed(
    mode: AppRoutingMode,
    n: nat,
    addresses: PhysicalAddresses,
    apps: nat,
    packages: nat,
)
    requires
        n <= packages <= usize::MAX,
    ensures
        names_listed(package_filters(mode, n, addresses), apps, packages),
    decreases n,
{
    if n > 0 {
        lemma_packages_listed(mode, (n - 1) as nat, addresses, apps, packages);
        let identity = Condition::Package((n - 1) as usize);
        lemma_identity_listed(mode, identity, addresses, apps, packages);
        lemma_names_listed_concat(
            package_filters(mode, (n - 1) as nat, addresses),
            identity_filters(mode, identity, addresses),
            apps,
            packages,
        );
    }
}

/// While applications are excluded, a connection of any other application
/// meets no filter at all.
pub proof fn unlisted_applications_are_left_alone(
    apps: nat,
    packages: nat,
    addresses: PhysicalAddresses,
    layer: Layer,
    c: Connection,
    i: int,
)
    requires
        apps <= usize::MAX,
        packages <= usize::MAX,
        c.application is None,
        c.package is None,
        0 <= i < policy_filters(AppRoutingMode::Exclude, apps, packages, addresses).len(),
    ensures
        !wfp::applies(
            policy_filters(AppRoutingMode::Exclude, apps, packages, addresses)[i],
            layer,
            c,
        ),
{
    let mode = AppRoutingMode::Exclude;
    let filters = policy_filters(mode, apps, packages, addresses);
    lemma_applications_listed(mode, apps, addresses, apps, packages);
    lemma_packages_listed(mode, packages, addresses, apps, packages);
    lemma_names_listed_concat(
        application_filters(mode, apps, addresses),
        package_filters(mode, packages, addresses),
        apps,
        packages,
    );
    assert(filters =~= application_filters(mode, apps, addresses) + package_filters(
        mode,
        packages,
        addresses,
    ));
    assert(is_listed_filter(filters[i], apps, packages));
    if wfp::applies(filters[i], layer, c) {
        assert(wfp::holds(filters[i].conditions[0], c));
    }
}

/// The filters of executable `k` stand among those of the policy.
proof fn lemma_application_member(
    mode: AppRoutingMode,
    n: nat,
    addresses: PhysicalAddresses,
    k: nat,
    offset: int,
) -> (at: int)
    requires
        k < n,
        n <= usize::MAX,
        0 <= offset < identity_filters(
            mode,
            Condition::Application(k as usize),
            addresses,
        ).len(),
    ensures
        0 <= at < application_filters(mode, n, addresses).len(),
        application_filters(mode, n, addresses)[at] == identity_filters(
            mode,
            Condition::Application(k as usize),
            addresses,
        )[offset],
    decreases n,
{
    let shorter = application_filters(mode, (n - 1) as nat, addresses);
    if k == n - 1 {
        shorter.len() + offset
    } else {
        lemma_application_member(mode, (n - 1) as nat, addresses, k, offset)
    }
}

/// The filters of package `k` stand among those of the policy.
proof fn lemma_package_member(
    mode: AppRoutingMode,
    n: nat,
    addresses: PhysicalAddresses,
    k: nat,
    offset: int,
) -> (at: int)
    requires
        k < n,
        n <= usize::MAX,
        0 <= offset < identity_filters(mode, Condition::Package(k as usize), addresses).len(),
    ensures
        0 <= at < package_filters(mode, n, addresses).len(),
        package_filters(mode, n, addresses)[at] == identity_filters(
            mode,
            Condition::Package(k as usize),
            addresses,
        )[offset],
    decreases n,
{
    let shorter = package_filters(mode, (n - 1) as nat, addresses);
    if k == n - 1 {
        shorter.len() + offset
    } else {
        lemma_package_member(mode, (n - 1) as nat, addresses, k, offset)
    }
}

/// Whether `c` is made by one of the first `apps` executables or `packages`
/// packages.
pub open spec fn is_selected(apps: nat, packages: nat, c: Connection) -> bool {
    ||| c.application matches Some(k) && k < apps
    ||| c.package matches Some(k) && k < packages
}

/// Whether `c` is made from a physical address.
pub open spec fn leaves_directly(addresses: PhysicalAddresses, c: Connection) -> bool {
    if c.ipv6 {
        addresses.ipv6 matches Some(address) && c.local == address.bits
    } else {
        c.local as u32 == addresses.ipv4.bits
    }
}

/// The filter that keeps `identity`, which makes `c`, from connecting directly
/// applies to `c`.
proof fn lemma_direct_block_applies(
    identity: Condition,
    addresses: PhysicalAddresses,
    c: Connection,
) -> (offset: int)
    requires
        wfp::holds(identity, c),
        leaves_directly(addresses, c),
    ensures
        0 <= offset < routed(identity, addresses).len(),
        routed(identity, addresses)[offset].action is Block,
        routed(identity, addresses)[offset].weight == DIRECT_BLOCK_WEIGHT,
        wfp::applies(routed(identity, addresses)[offset], wfp::connect_layer(c), c),
{
    let offset: int = if c.ipv6 {
        3
    } else {
        1
    };
    let filter = routed(identity, addresses)[offset];
    assert(filter.conditions[0] == identity);
    assert forall|j: int| 0 <= j < filter.conditions.len() implies wfp::holds(
        #[trigger] filter.conditions[j],
        c,
    ) by {
        assert(j == 0 || j == 1);
    }
    offset
}

/// While applications are selected, a selected executable or package that
/// connects from a physical address is blocked, over IPv4 and IPv6 alike, and
/// nothing in the policy outweighs the block: what was chosen for the tunnel
/// cannot leave beside it.
pub proof fn selected_applications_cannot_leave_directly(
    apps: nat,
    packages: nat,
    addresses: PhysicalAddresses,
    c: Connection,
)
    requires
        apps <= usize::MAX,
        packages <= usize::MAX,
        is_selected(apps, packages, c),
        leaves_directly(addresses, c),
    ensures
        wfp::blocks(
            policy_filters(AppRoutingMode::Include, apps, packages, addresses),
            wfp::connect_layer(c),
            c,
        ),
{
    let mode = AppRoutingMode::Include;
    let layer = wfp::connect_layer(c);
    let all = policy_filters(mode, apps, packages, addresses);
    let head = defaults(addresses.ipv6 is Some);
    let first = application_filters(mode, apps, addresses);
    let i: int = if c.application matches Some(k) && k < apps {
        let k = c.application->0;
        let offset = lemma_direct_block_applies(Condition::Application(k), addresses, c);
        let at = lemma_application_member(mode, apps, addresses, k as nat, offset);
        assert(all[head.len() + at] == first[at]);
        head.len() + at
    } else {
        let k = c.package->0;
        let offset = lemma_direct_block_applies(Condition::Package(k), addresses, c);
        let at = lemma_package_member(mode, packages, addresses, k as nat, offset);
        let before = head.len() + first.len();
        assert(all[before + at] == package_filters(mode, packages, addresses)[at]);
        before + at
    };
    lemma_weights(mode, apps, packages, addresses);
    assert(wfp::blocked_by(all, layer, c, i)) by {
        assert forall|j: int|
            0 <= j < all.len() && (#[trigger] all[j]).action is Permit && wfp::applies(
                all[j],
                layer,
                c,
            ) implies all[j].weight < all[i].weight by {
            assert(permits_lightly(all[j]));
        }
    }
}

/// Permits weigh less than the blocks on direct connections.
pub open spec fn permits_lightly(filter: FilterModel) -> bool {
    filter.action is Permit ==> filter.weight == IDENTITY_WEIGHT
}

proof fn lemma_weights(
    mode: AppRoutingMode,
    apps: nat,
    packages: nat,
    addresses: PhysicalAddresses,
)
    ensures
        forall|i: int|
            0 <= i < policy_filters(mode, apps, packages, addresses).len() ==> permits_lightly(
                #[trigger] policy_filters(mode, apps, packages, addresses)[i],
            ),
{
    let all = policy_filters(mode, apps, packages, addresses);
    let head = match mode {
        AppRoutingMode::Exclude => Seq::<FilterModel>::empty(),
        AppRoutingMode::Include => defaults(addresses.ipv6 is Some),
    };
    lemma_application_weights(mode, apps, addresses);
    lemma_package_weights(mode, packages, addresses);
    let first = application_filters(mode, apps, addresses);
    let second = package_filters(mode, packages, addresses);
    assert forall|i: int| 0 <= i < all.len() implies permits_lightly(#[trigger] all[i]) by {
        if i < head.len() {
            assert(all[i] == head[i]);
        } else if i < head.len() + first.len() {
            assert(all[i] == first[i - head.len()]);
        } else {
            assert(all[i] == second[i - head.len() - first.len()]);
        }
    }
}

proof fn lemma_application_weights(mode: AppRoutingMode, n: nat, addresses: PhysicalAddresses)
    ensures
        forall|i: int|
            0 <= i < application_filters(mode, n, addresses).len() ==> permits_lightly(
                #[trigger] application_filters(mode, n, addresses)[i],
            ),
    decreases n,
{
    if n > 0 {
        let shorter = application_filters(mode, (n - 1) as nat, addresses);
        lemma_application_weights(mode, (n - 1) as nat, addresses);
        let last = identity_filters(mode, Condition::Application((n - 1) as usize), addresses);
        let all = application_filters(mode, n, addresses);
        assert forall|i: int| 0 <= i < all.len() implies permits_lightly(#[trigger] all[i]) by {
            if i < shorter.len() {
                assert(all[i] == shorter[i]);
            } else {
                assert(all[i] == last[i - shorter.len()]);
            }
        }
    }
}

proof fn lemma_package_weights(mode: AppRoutingMode, n: nat, addresses: PhysicalAddresses)
    ensures
        forall|i: int|
            0 <= i < package_filters(mode, n, addresses).len() ==> permits_lightly(
                #[trigger] package_filters(mode, n, addresses)[i],
            ),
    decreases n,
{
    if n > 0 {
        let shorter = package_filters(mode, (n - 1) as nat, addresses);
        lemma_package_weights(mode, (n - 1) as nat, addresses);
        let last = identity_filters(mode, Condition::Package((n - 1) as usize), addresses);
        let all = package_filters(mode, n, addresses);
        assert forall|i: int| 0 <= i < all.len() implies permits_lightly(#[trigger] all[i]) by {
            if i < shorter.len() {
                assert(all[i] == shorter[i]);
            } else {
                assert(all[i] == last[i - shorter.len()]);
            }
        }
    }
}

/// The layer that may redirect `c` before it is bound.
pub open spec fn bind_layer(c: Connection) -> Layer {
    if c.ipv6 {
        Layer::BindRedirectV6
    } else {
        Layer::BindRedirectV4
    }
}

/// Whether filter `i` decides on `c` at `layer`: it applies, and every filter
/// that applies beside it and is not lighter does the same.
pub open spec fn decides(
    filters: Seq<FilterModel>,
    layer: Layer,
    c: Connection,
    i: int,
) -> bool {
    &&& 0 <= i < filters.len()
    &&& wfp::applies(filters[i], layer, c)
    &&& forall|j: int|
        0 <= j < filters.len() && wfp::applies(#[trigger] filters[j], layer, c)
            ==> filters[j].action == filters[i].action || filters[j].weight < filters[i].weight
}

/// What the filters for a listed identity look like while applications are
/// excluded.
pub open spec fn is_exclusion(filter: FilterModel) -> bool {
    ||| filter.layer is BindRedirectV4 && filter.action == FilterAction::Redirect(Family::V4)
    ||| filter.layer is BindRedirectV6 && filter.action == FilterAction::Redirect(Family::V6)
    ||| filter.layer is ConnectV4 && filter.action is Permit
    ||| filter.layer is ConnectV6 && filter.action is Permit
}

proof fn lemma_application_exclusions(n: nat, addresses: PhysicalAddresses)
    ensures
        forall|i: int|
            0 <= i < application_filters(AppRoutingMode::Exclude, n, addresses).len()
                ==> is_exclusion(
                #[trigger] application_filters(AppRoutingMode::Exclude, n, addresses)[i],
            ),
    decreases n,
{
    if n > 0 {
        let mode = AppRoutingMode::Exclude;
        let shorter = application_filters(mode, (n - 1) as nat, addresses);
        lemma_application_exclusions((n - 1) as nat, addresses);
        let last = identity_filters(mode, Condition::Application((n - 1) as usize), addresses);
        let all = application_filters(mode, n, addresses);
        assert forall|i: int| 0 <= i < all.len() implies is_exclusion(#[trigger] all[i]) by {
            if i < shorter.len() {
                assert(all[i] == shorter[i]);
            } else {
                assert(all[i] == last[i - shorter.len()]);
            }
        }
    }
}

proof fn lemma_package_exclusions(n: nat, addresses: PhysicalAddresses)
    ensures
        forall|i: int|
            0 <= i < package_filters(AppRoutingMode::Exclude, n, addresses).len() ==> is_exclusion(
                #[trigger] package_filters(AppRoutingMode::Exclude, n, addresses)[i],
            ),
    decreases n,
{
    if n > 0 {
        let mode = AppRoutingMode::Exclude;
        let shorter = package_filters(mode, (n - 1) as nat, addresses);
        lemma_package_exclusions((n - 1) as nat, addresses);
        let last = identity_filters(mode, Condition::Package((n - 1) as usize), addresses);
        let all = package_filters(mode, n, addresses);
        assert forall|i: int| 0 <= i < all.len() implies is_exclusion(#[trigger] all[i]) by {
            if i < shorter.len() {
                assert(all[i] == shorter[i]);
            } else {
                assert(all[i] == last[i - shorter.len()]);
            }
        }
    }
}

/// Filter `offset` of the identity that makes `c` stands in the policy.
proof fn lemma_identity_member(
    mode: AppRoutingMode,
    apps: nat,
    packages: nat,
    addresses: PhysicalAddresses,
    c: Connection,
    offset: int,
) -> (found: (int, Condition))
    requires
        apps <= usize::MAX,
        packages <= usize::MAX,
        is_selected(apps, packages, c),
        0 <= offset < (if addresses.ipv6 is Some { 4int } else { 2int }),
    ensures
        0 <= found.0 < policy_filters(mode, apps, packages, addresses).len(),
        wfp::holds(found.1, c),
        found.1 is Application || found.1 is Package,
        policy_filters(mode, apps, packages, addresses)[found.0] == identity_filters(
            mode,
            found.1,
            addresses,
        )[offset],
{
    let all = policy_filters(mode, apps, packages, addresses);
    let head = match mode {
        AppRoutingMode::Exclude => Seq::<FilterModel>::empty(),
        AppRoutingMode::Include => defaults(addresses.ipv6 is Some),
    };
    let first = application_filters(mode, apps, addresses);
    if c.application matches Some(k) && k < apps {
        let k = c.application->0;
        let at = lemma_application_member(mode, apps, addresses, k as nat, offset);
        assert(all[head.len() + at] == first[at]);
        (head.len() + at, Condition::Application(k))
    } else {
        let k = c.package->0;
        let at = lemma_package_member(mode, packages, addresses, k as nat, offset);
        let before = head.len() + first.len();
        assert(all[before + at] == package_filters(mode, packages, addresses)[at]);
        (before + at, Condition::Package(k))
    }
}

proof fn lemma_single_condition(filter: FilterModel, identity: Condition, layer: Layer, c: Connection)
    requires
        filter.layer == layer,
        filter.conditions == seq![identity],
        wfp::holds(identity, c),
    ensures
        wfp::applies(filter, layer, c),
{
    assert forall|j: int| 0 <= j < filter.conditions.len() implies wfp::holds(
        #[trigger] filter.conditions[j],
        c,
    ) by {
        assert(j == 0);
    }
}

/// While applications are excluded, a listed executable or package leaves the
/// tunnel: before its sockets are bound they are handed to the callout of their
/// family, and its connections are let through for good, over IPv4 always and
/// over IPv6 where there is a physical IPv6 address. Nothing in the policy says
/// otherwise.
pub proof fn excluded_applications_leave_the_tunnel(
    apps: nat,
    packages: nat,
    addresses: PhysicalAddresses,
    c: Connection,
) -> (found: (int, int))
    requires
        apps <= usize::MAX,
        packages <= usize::MAX,
        (c.application matches Some(k) && k < apps) || (c.package matches Some(k) && k < packages),
        c.ipv6 ==> addresses.ipv6 is Some,
    ensures
        ({
            let all = policy_filters(AppRoutingMode::Exclude, apps, packages, addresses);
            let (bind, connect) = if c.ipv6 {
                (Layer::BindRedirectV6, Layer::ConnectV6)
            } else {
                (Layer::BindRedirectV4, Layer::ConnectV4)
            };
            &&& decides(all, bind, c, found.0)
            &&& all[found.0].action == FilterAction::Redirect(
                if c.ipv6 {
                    Family::V6
                } else {
                    Family::V4
                },
            )
            &&& decides(all, connect, c, found.1)
            &&& all[found.1].action is Permit
            &&& all[found.1].final_decision
        }),
{
    let mode = AppRoutingMode::Exclude;
    let all = policy_filters(mode, apps, packages, addresses);
    let first = application_filters(mode, apps, addresses);
    let second = package_filters(mode, packages, addresses);
    let base: int = if c.ipv6 {
        2
    } else {
        0
    };
    let (redirect_at, one) = lemma_identity_member(mode, apps, packages, addresses, c, base);
    let (permit_at, two) = lemma_identity_member(mode, apps, packages, addresses, c, base + 1);
    let bind = bind_layer(c);
    let connect = wfp::connect_layer(c);
    assert(all[redirect_at].conditions =~= seq![one]);
    assert(all[permit_at].conditions =~= seq![two]);
    lemma_single_condition(all[redirect_at], one, bind, c);
    lemma_single_condition(all[permit_at], two, connect, c);
    lemma_application_exclusions(apps, addresses);
    lemma_package_exclusions(packages, addresses);
    assert forall|j: int| 0 <= j < all.len() implies is_exclusion(#[trigger] all[j]) by {
        if j < first.len() {
            assert(all[j] == first[j]);
        } else {
            assert(all[j] == second[j - first.len()]);
        }
    }
    assert(decides(all, bind, c, redirect_at)) by {
        assert forall|j: int|
            0 <= j < all.len() && wfp::applies(#[trigger] all[j], bind, c) implies all[j].action
            == all[redirect_at].action || all[j].weight < all[redirect_at].weight by {
            assert(is_exclusion(all[j]));
        }
    }
    assert(decides(all, connect, c, permit_at)) by {
        assert forall|j: int|
            0 <= j < all.len() && wfp::applies(#[trigger] all[j], connect, c) implies all[j].action
            == all[permit_at].action || all[j].weight < all[permit_at].weight by {
            assert(is_exclusion(all[j]));
        }
    }
    (redirect_at, permit_at)
}

/// Filters at the layers before binding, while applications are selected: only
/// the default redirects, and nothing but the default is as light.
pub open spec fn is_inclusion(filter: FilterModel) -> bool {
    ||| filter.layer is ConnectV4 || filter.layer is ConnectV6
    ||| filter.action is Permit && filter.weight == IDENTITY_WEIGHT
    ||| filter.layer is BindRedirectV4 && filter.action == FilterAction::Redirect(Family::V4)
        && filter.weight == DEFAULT_WEIGHT
    ||| filter.layer is BindRedirectV6 && filter.action == FilterAction::Redirect(Family::V6)
        && filter.weight == DEFAULT_WEIGHT
}

proof fn lemma_application_inclusions(n: nat, addresses: PhysicalAddresses)
    ensures
        forall|i: int|
            0 <= i < application_filters(AppRoutingMode::Include, n, addresses).len()
                ==> is_inclusion(
                #[trigger] application_filters(AppRoutingMode::Include, n, addresses)[i],
            ),
    decreases n,
{
    if n > 0 {
        let mode = AppRoutingMode::Include;
        let shorter = application_filters(mode, (n - 1) as nat, addresses);
        lemma_application_inclusions((n - 1) as nat, addresses);
        let last = identity_filters(mode, Condition::Application((n - 1) as usize), addresses);
        let all = application_filters(mode, n, addresses);
        assert forall|i: int| 0 <= i < all.len() implies is_inclusion(#[trigger] all[i]) by {
            if i < shorter.len() {
                assert(all[i] == shorter[i]);
            } else {
                assert(all[i] == last[i - shorter.len()]);
            }
        }
    }
}

proof fn lemma_package_inclusions(n: nat, addresses: PhysicalAddresses)
    ensures
        forall|i: int|
            0 <= i < package_filters(AppRoutingMode::Include, n, addresses).len() ==> is_inclusion(
                #[trigger] package_filters(AppRoutingMode::Include, n, addresses)[i],
            ),
    decreases n,
{
    if n > 0 {
        let mode = AppRoutingMode::Include;
        let shorter = package_filters(mode, (n - 1) as nat, addresses);
        lemma_package_inclusions((n - 1) as nat, addresses);
        let last = identity_filters(mode, Condition::Package((n - 1) as usize), addresses);
        let all = package_filters(mode, n, addresses);
        assert forall|i: int| 0 <= i < all.len() implies is_inclusion(#[trigger] all[i]) by {
            if i < shorter.len() {
                assert(all[i] == shorter[i]);
            } else {
                assert(all[i] == last[i - shorter.len()]);
            }
        }
    }
}

proof fn lemma_inclusions(apps: nat, packages: nat, addresses: PhysicalAddresses)
    requires
        apps <= usize::MAX,
        packages <= usize::MAX,
    ensures
        ({
            let all = policy_filters(AppRoutingMode::Include, apps, packages, addresses);
            let head = defaults(addresses.ipv6 is Some);
            &&& forall|j: int| 0 <= j < all.len() ==> is_inclusion(#[trigger] all[j])
            &&& forall|j: int|
                head.len() <= j < all.len() ==> is_listed_filter(#[trigger] all[j], apps, packages)
        }),
{
    let mode = AppRoutingMode::Include;
    let all = policy_filters(mode, apps, packages, addresses);
    let head = defaults(addresses.ipv6 is Some);
    let first = application_filters(mode, apps, addresses);
    let second = package_filters(mode, packages, addresses);
    lemma_application_inclusions(apps, addresses);
    lemma_package_inclusions(packages, addresses);
    lemma_applications_listed(mode, apps, addresses, apps, packages);
    lemma_packages_listed(mode, packages, addresses, apps, packages);
    assert forall|j: int| 0 <= j < all.len() implies is_inclusion(#[trigger] all[j]) by {
        if j < head.len() {
            assert(all[j] == head[j]);
        } else if j < head.len() + first.len() {
            assert(all[j] == first[j - head.len()]);
        } else {
            assert(all[j] == second[j - head.len() - first.len()]);
        }
    }
    assert forall|j: int| head.len() <= j < all.len() implies is_listed_filter(
        #[trigger] all[j],
        apps,
        packages,
    ) by {
        if j < head.len() + first.len() {
            assert(all[j] == first[j - head.len()]);
        } else {
            assert(all[j] == second[j - head.len() - first.len()]);
        }
    }
}

/// While applications are selected, whatever is not listed leaves the tunnel:
/// its sockets are handed to the callout of their family before they are bound.
/// The name resolution service is the exception.
pub proof fn unselected_applications_leave_the_tunnel(
    apps: nat,
    packages: nat,
    addresses: PhysicalAddresses,
    c: Connection,
) -> (i: int)
    requires
        apps <= usize::MAX,
        packages <= usize::MAX,
        c.application matches Some(k) ==> k >= apps,
        c.package matches Some(k) ==> k >= packages,
        !(c.service_host && c.dns_client),
        c.ipv6 ==> addresses.ipv6 is Some,
    ensures
        ({
            let all = policy_filters(AppRoutingMode::Include, apps, packages, addresses);
            let bind = if c.ipv6 {
                Layer::BindRedirectV6
            } else {
                Layer::BindRedirectV4
            };
            &&& decides(all, bind, c, i)
            &&& all[i].action == FilterAction::Redirect(
                if c.ipv6 {
                    Family::V6
                } else {
                    Family::V4
                },
            )
        }),
{
    let all = policy_filters(AppRoutingMode::Include, apps, packages, addresses);
    let head = defaults(addresses.ipv6 is Some);
    let bind = bind_layer(c);
    let i: int = if c.ipv6 {
        1
    } else {
        0
    };
    lemma_inclusions(apps, packages, addresses);
    assert(all[i] == head[i]);
    assert(wfp::applies(all[i], bind, c));
    assert forall|j: int| 0 <= j < all.len() && wfp::applies(#[trigger] all[j], bind, c) implies all[j].action
        == all[i].action || all[j].weight < all[i].weight by {
        assert(is_inclusion(all[j]));
        if j < head.len() {
            assert(all[j] == head[j]);
            if head[j].action is Permit {
                assert(head[j].conditions[0] == Condition::ServiceHost);
                assert(head[j].conditions[1] == Condition::DnsClient);
                assert(wfp::holds(head[j].conditions[0], c));
                assert(wfp::holds(head[j].conditions[1], c));
            }
        } else {
            assert(is_listed_filter(all[j], apps, packages));
            assert(wfp::holds(all[j].conditions[0], c));
        }
    }
    i
}

/// While applications are selected, a listed executable or package keeps the
/// tunnel, and so does the name resolution service: before their sockets are
/// bound a permit outweighs the default that would redirect them.
pub proof fn selected_applications_keep_the_tunnel(
    apps: nat,
    packages: nat,
    addresses: PhysicalAddresses,
    c: Connection,
) -> (i: int)
    requires
        apps <= usize::MAX,
        packages <= usize::MAX,
        (c.application matches Some(k) && k < apps) || (c.package matches Some(k) && k < packages)
            || (c.service_host && c.dns_client),
        c.ipv6 ==> addresses.ipv6 is Some,
    ensures
        ({
            let all = policy_filters(AppRoutingMode::Include, apps, packages, addresses);
            let bind = if c.ipv6 {
                Layer::BindRedirectV6
            } else {
                Layer::BindRedirectV4
            };
            &&& decides(all, bind, c, i)
            &&& all[i].action is Permit
        }),
{
    let mode = AppRoutingMode::Include;
    let all = policy_filters(mode, apps, packages, addresses);
    let head = defaults(addresses.ipv6 is Some);
    let bind = bind_layer(c);
    lemma_inclusions(apps, packages, addresses);
    let i: int = if is_selected(apps, packages, c) {
        let offset: int = if c.ipv6 {
            2
        } else {
            0
        };
        let (at, identity) = lemma_identity_member(mode, apps, packages, addresses, c, offset);
        assert(all[at].conditions =~= seq![identity]);
        lemma_single_condition(all[at], identity, bind, c);
        at
    } else {
        let at: int = if c.ipv6 {
            3
        } else if addresses.ipv6 is Some {
            2
        } else {
            1
        };
        assert(all[at] == head[at]);
        assert(all[at].conditions[0] == Condition::ServiceHost);
        assert(all[at].conditions[1] == Condition::DnsClient);
        assert forall|k: int| 0 <= k < all[at].conditions.len() implies wfp::holds(
            #[trigger] all[at].conditions[k],
            c,
        ) by {
            assert(k == 0 || k == 1);
        }
        assert(wfp::applies(all[at], bind, c));
        at
    };
    assert(is_inclusion(all[i]));
    assert forall|j: int| 0 <= j < all.len() && wfp::applies(#[trigger] all[j], bind, c) implies all[j].action
        == all[i].action || all[j].weight < all[i].weight by {
        assert(is_inclusion(all[j]));
    }
    i
}

/// What the filters refer to is added before them: the provider, the sublayer,
/// a callout for every family and the address it binds to.
pub proof fn filters_follow_what_they_refer_to(
    policy: AppRoutingPolicy,
    addresses: PhysicalAddresses,
    i: int,
)
    requires
        0 <= i < transaction(policy, addresses).len(),
    ensures
        ({
            let all = transaction(policy, addresses);
            let head: int = if addresses.ipv6 is Some { 6 } else { 4 };
            &&& all[0] is Provider
            &&& all[1] is Sublayer
            &&& all[2] == ObjectModel::Callout(Family::V4)
            &&& addresses.ipv6 is Some ==> all[3] == ObjectModel::Callout(Family::V6) && all[4]
                == ObjectModel::Context(Family::V4) && all[5] == ObjectModel::Context(Family::V6)
            &&& addresses.ipv6 is None ==> all[3] == ObjectModel::Context(Family::V4)
            &&& all[i] is Filter <==> i >= head
            &&& all.len() == head + policy_filters(
                policy.mode,
                policy.apps@.len(),
                policy.package_sids@.len(),
                addresses,
            ).len()
        }),
{
}

/// A context names the family by its number and holds the octets of the address
/// in the order they are written in.
pub proof fn contexts_hold_the_address(
    v4: Ipv4Addr,
    v6: Ipv6Addr,
    context4: [u8; 20],
    context6: [u8; 20],
)
    requires
        call_ensures(RedirectContext::ipv4, (v4,), context4),
        call_ensures(RedirectContext::ipv6, (v6,), context6),
    ensures
        context4@[0] == 2,
        context6@[0] == 23,
        forall|i: int| 1 <= i < 4 ==> #[trigger] context4@[i] == 0 && context6@[i] == 0,
        bytes::be_value(context4@.subrange(4, 8)) == v4.bits,
        forall|i: int| 8 <= i < 20 ==> #[trigger] context4@[i] == 0,
        bytes::be_value(context6@.subrange(4, 20)) == v6.bits,
{
    bytes::lemma_pow256_16();
    bytes::lemma_be_bytes_len(v4.bits as nat, 4);
    bytes::lemma_be_bytes_len(v6.bits as nat, 16);
    bytes::lemma_be_value_of_be_bytes(v4.bits as nat, 4);
    bytes::lemma_be_value_of_be_bytes(v6.bits as nat, 16);
    assert(context4@.subrange(4, 8) =~= bytes::be_bytes(v4.bits as nat, 4));
    assert(context6@.subrange(4, 20) =~= bytes::be_bytes(v6.bits as nat, 16));
}

/// The bypass is left out only where nothing is excluded, and installed anew
/// where an address changed or the engine was closed.
pub proof fn the_bypass_is_installed_where_it_is_needed(
    policy: &AppRoutingPolicy,
    needed: bool,
    installed: PhysicalAddresses,
    current: PhysicalAddresses,
    open: bool,
    refresh: bool,
)
    requires
        call_ensures(is_needed, (policy,), needed),
        call_ensures(refresh_needed, (installed, current, open), refresh),
    ensures
        policy.mode is Include ==> needed,
        policy.apps@.len() > 0 ==> needed,
        policy.package_sids@.len() > 0 ==> needed,
        policy.mode is Exclude && policy.apps@.len() == 0 && policy.package_sids@.len() == 0
            ==> !needed,
        !open ==> refresh,
        installed.ipv4 != current.ipv4 ==> refresh,
        installed.ipv6 != current.ipv6 ==> refresh,
        open && installed == current ==> !refresh,
{
}

/// A registered driver is pointed at its package and started, one that is not
/// registered is created and started, and without its package only a registered
/// one is started. One that runs already is as good as started.
pub proof fn the_driver_is_brought_up(
    success: bool,
    details: &str,
    packaged: bool,
    path: &str,
    query: DriverNext,
    configure: DriverNext,
    create: DriverNext,
    start: DriverNext,
    installed: DriverNext,
)
    requires
        call_ensures(
            after_driver_call,
            (DriverCall::Query, success, details, packaged, path),
            query,
        ),
        call_ensures(
            after_driver_call,
            (DriverCall::Configure, success, details, packaged, path),
            configure,
        ),
        call_ensures(
            after_driver_call,
            (DriverCall::Create, success, details, packaged, path),
            create,
        ),
        call_ensures(
            after_driver_call,
            (DriverCall::Start, success, details, packaged, path),
            start,
        ),
        call_ensures(
            after_driver_call,
            (DriverCall::StartInstalled, success, details, packaged, path),
            installed,
        ),
    ensures
        success && packaged ==> query == DriverNext::Call(DriverCall::Configure),
        success && !packaged ==> query == DriverNext::Call(DriverCall::StartInstalled),
        !success && packaged ==> query == DriverNext::Call(DriverCall::Create),
        !success && !packaged ==> (query matches DriverNext::Finish(Err(_))),
        success ==> configure == DriverNext::Call(DriverCall::Start) && create == DriverNext::Call(
            DriverCall::Start,
        ),
        !success ==> (configure matches DriverNext::Finish(Err(_))) && (
        create matches DriverNext::Finish(Err(_))),
        success || text::contains_text(details@, "1056"@) ==> (start matches DriverNext::Finish(
            Ok(_),
        )) && (installed matches DriverNext::Finish(Ok(_))),
        !success && !text::contains_text(details@, "1056"@) ==> (
        start matches DriverNext::Finish(Err(_))) && (installed matches DriverNext::Finish(Err(_))),
{
}

/// The service is addressed by one name, and created as a kernel driver that is
/// started on demand.
pub proof fn the_driver_service_has_one_name(call: DriverCall, path: Seq<char>)
    ensures
        driver_arguments_text(call, path)[1] == "MouseVpnSplitTunnel"@,
        driver_arguments_text(DriverCall::Query, path)[0] == "query"@,
        driver_arguments_text(DriverCall::Start, path)[0] == "start"@,
        driver_arguments_text(DriverCall::StartInstalled, path) == driver_arguments_text(
            DriverCall::Start,
            path,
        ),
        driver_arguments_text(DriverCall::Configure, path) == seq![
            "config"@,
            "MouseVpnSplitTunnel"@,
            "binPath="@,
            path,
        ],
        ({
            let create = driver_arguments_text(DriverCall::Create, path);
            &&& create.len() == 10
            &&& create[0] == "create"@
            &&& create[2] == "type="@ && create[3] == "kernel"@
            &&& create[4] == "start="@ && create[5] == "demand"@
            &&& create[6] == "binPath="@ && create[7] == path
            &&& create[8] == "DisplayName="@ && create[9] == "MouseVPN Split Tunnel"@
        }),
{
}

/// A listed identity outweighs the defaults, and the blocks outweigh both.
pub proof fn identities_outweigh_the_defaults()
    ensures
        DEFAULT_WEIGHT == 10,
        IDENTITY_WEIGHT == 15,
        DIRECT_BLOCK_WEIGHT == 20,
        SUBLAYER_WEIGHT == u16::MAX - 1,
{
}

} // verus!
