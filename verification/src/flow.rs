//! Which process owns each network flow, and where its traffic belongs.

use std::collections::HashMap;

use vstd::prelude::*;

use crate::ip::{IpAddr, Ipv4Addr, Ipv6Addr};
use crate::windivert::{
    FlowData, EVENT_FLOW_DELETED, EVENT_FLOW_ESTABLISHED, EVENT_SOCKET_CLOSE, EVENT_SOCKET_CONNECT,
};
use crate::{assoc, clock, ip, text, AppRoutingMode, AppRoutingPolicy};

verus! {

broadcast use vstd::std_specs::hash::group_hash_axioms;

/// Identifies one flow by the tuple the packet layer can also observe.
///
/// The endpoint id would be cheaper, but packets do not carry it: matching a
/// packet against a policy decision has to go through the 5-tuple.
#[derive(Clone, Copy, Debug, PartialEq, Eq, Structural)]
pub struct FlowKey {
    pub protocol: u8,
    pub local: IpAddr,
    pub local_port: u16,
    pub remote: IpAddr,
    pub remote_port: u16,
}

/// What the policy decided for a flow.
#[derive(Clone, Copy, Debug, PartialEq, Eq, Structural)]
pub enum Disposition {
    /// The flow belongs in the tunnel.
    Tunnel,
    /// The flow must reach the internet over the physical adapter.
    Direct,
}

/// The decisions taken so far.
///
/// Beside the flows the table remembers the addresses that a direct domain
/// resolved to, each until its name record expires.
pub struct FlowTable {
    entries: Vec<(FlowKey, Disposition)>,
    direct: Vec<(IpAddr, u128)>,
}

impl FlowTable {
    /// The decision for each classified flow.
    pub closed spec fn flows(&self) -> Map<FlowKey, Disposition> {
        assoc::as_map(self.entries@)
    }

    /// When each address learned from a direct domain expires.
    pub closed spec fn direct_addresses(&self) -> Map<IpAddr, u128> {
        assoc::as_map(self.direct@)
    }

    #[verifier::type_invariant]
    spec fn well_formed(&self) -> bool {
        assoc::distinct(self.entries@) && assoc::distinct(self.direct@)
    }

    /// The decision for `key`, if one was taken.
    pub open spec fn decision(&self, key: FlowKey) -> Option<Disposition> {
        if self.flows().dom().contains(key) {
            Some(self.flows()[key])
        } else {
            None
        }
    }

    /// Whether `address` belongs to a direct domain at the time `now`.
    pub open spec fn is_direct_at(&self, address: IpAddr, now: u128) -> bool {
        self.direct_addresses().dom().contains(address) && now < self.direct_addresses()[address]
    }

    pub fn new() -> (table: FlowTable)
        ensures
            table.flows() == Map::<FlowKey, Disposition>::empty(),
            table.direct_addresses() == Map::<IpAddr, u128>::empty(),
    {
        FlowTable { entries: Vec::new(), direct: Vec::new() }
    }

    fn position(&self, key: &FlowKey) -> (at: Option<usize>)
        ensures
            match at {
                Some(i) => i < self.entries@.len() && self.entries@[i as int].0 == *key,
                None => !assoc::has_key(self.entries@, *key),
            },
    {
        let mut i: usize = 0;
        while i < self.entries.len()
            invariant
                i <= self.entries@.len(),
                forall|j: int| 0 <= j < i ==> (#[trigger] self.entries@[j]).0 != *key,
            decreases self.entries@.len() - i,
        {
            if self.entries[i].0 == *key {
                return Some(i);
            }
            i = i + 1;
        }
        None
    }

    /// The decision for a flow, if one was taken.
    pub fn lookup(&self, key: &FlowKey) -> (disposition: Option<Disposition>)
        ensures
            disposition == self.decision(*key),
    {
        proof {
            use_type_invariant(self);
            assoc::lemma_domain(self.entries@);
        }
        match self.position(key) {
            Some(i) => {
                proof {
                    assoc::lemma_entry(self.entries@, i as int);
                }
                Some(self.entries[i].1)
            },
            None => None,
        }
    }

    /// Records the decision for a flow.
    pub fn insert(&mut self, key: FlowKey, disposition: Disposition)
        ensures
            final(self).flows() == old(self).flows().insert(key, disposition),
            final(self).direct_addresses() == old(self).direct_addresses(),
    {
        proof {
            use_type_invariant(&*self);
        }
        match self.position(&key) {
            Some(i) => {
                proof {
                    assoc::lemma_update(self.entries@, i as int, disposition);
                }
                let mut entries: Vec<(FlowKey, Disposition)> = Vec::new();
                std::mem::swap(&mut entries, &mut self.entries);
                entries[i] = (key, disposition);
                self.entries = entries;
            },
            None => {
                proof {
                    assoc::lemma_push(self.entries@, key, disposition);
                }
                let mut entries: Vec<(FlowKey, Disposition)> = Vec::new();
                std::mem::swap(&mut entries, &mut self.entries);
                entries.push((key, disposition));
                self.entries = entries;
            },
        }
    }

    /// Records a decision that could not be attributed to a process.
    ///
    /// The flow layer reports some flows twice: once for the application that
    /// owns them and once for a process that cannot be opened. Both carry the
    /// same five-tuple, so an answer derived from no process never replaces
    /// one derived from a real executable.
    pub fn insert_unattributed(&mut self, key: FlowKey, disposition: Disposition)
        ensures
            final(self).flows() == (if old(self).flows().dom().contains(key) {
                old(self).flows()
            } else {
                old(self).flows().insert(key, disposition)
            }),
            final(self).direct_addresses() == old(self).direct_addresses(),
    {
        if self.lookup(&key).is_none() {
            self.insert(key, disposition);
        }
    }

    /// Forgets a flow.
    pub fn remove(&mut self, key: &FlowKey)
        ensures
            final(self).flows() == old(self).flows().remove(*key),
            final(self).direct_addresses() == old(self).direct_addresses(),
    {
        proof {
            use_type_invariant(&*self);
            assoc::lemma_domain(self.entries@);
        }
        match self.position(key) {
            Some(i) => {
                proof {
                    assoc::lemma_remove(self.entries@, i as int);
                }
                let mut entries: Vec<(FlowKey, Disposition)> = Vec::new();
                std::mem::swap(&mut entries, &mut self.entries);
                let _ = entries.remove(i);
                self.entries = entries;
            },
            None => {
                assert(self.flows().remove(*key) =~= self.flows());
            },
        }
    }

    /// Forgets every classification.
    ///
    /// Needed when the physical address changes: it forms part of every key
    /// here, so entries recorded against the old one can never match again and
    /// would keep the table growing for the life of the session.
    pub fn clear(&mut self)
        ensures
            final(self).flows() == Map::<FlowKey, Disposition>::empty(),
            final(self).direct_addresses() == old(self).direct_addresses(),
    {
        proof {
            use_type_invariant(&*self);
        }
        self.entries = Vec::new();
    }

    /// The number of classified flows.
    pub fn len(&self) -> (count: usize)
        ensures
            count == self.flows().dom().len(),
    {
        proof {
            use_type_invariant(self);
            assoc::lemma_len(self.entries@);
        }
        self.entries.len()
    }

    fn direct_position(&self, address: IpAddr) -> (at: Option<usize>)
        ensures
            match at {
                Some(i) => i < self.direct@.len() && self.direct@[i as int].0 == address,
                None => !assoc::has_key(self.direct@, address),
            },
    {
        let mut i: usize = 0;
        while i < self.direct.len()
            invariant
                i <= self.direct@.len(),
                forall|j: int| 0 <= j < i ==> (#[trigger] self.direct@[j]).0 != address,
            decreases self.direct@.len() - i,
        {
            if self.direct[i].0 == address {
                return Some(i);
            }
            i = i + 1;
        }
        None
    }

    /// Remembers for the span `ttl` that `address` belongs to a direct domain.
    pub fn route_direct_ip(&mut self, address: IpAddr, now: u128, ttl: u128)
        ensures
            final(self).direct_addresses() == old(self).direct_addresses().insert(
                address,
                clock::later(now, ttl),
            ),
            final(self).flows() == old(self).flows(),
    {
        proof {
            use_type_invariant(&*self);
        }
        let expiry: u128 = clock::after(now, ttl);
        match self.direct_position(address) {
            Some(i) => {
                proof {
                    assoc::lemma_update(self.direct@, i as int, expiry);
                }
                let mut direct: Vec<(IpAddr, u128)> = Vec::new();
                std::mem::swap(&mut direct, &mut self.direct);
                direct[i] = (address, expiry);
                self.direct = direct;
            },
            None => {
                proof {
                    assoc::lemma_push(self.direct@, address, expiry);
                }
                let mut direct: Vec<(IpAddr, u128)> = Vec::new();
                std::mem::swap(&mut direct, &mut self.direct);
                direct.push((address, expiry));
                self.direct = direct;
            },
        }
    }

    /// Whether a direct domain resolved to `address` and the answer still holds.
    pub fn is_geo_direct_ip(&self, address: IpAddr, now: u128) -> (direct: bool)
        ensures
            direct == self.is_direct_at(address, now),
    {
        proof {
            use_type_invariant(self);
            assoc::lemma_domain(self.direct@);
        }
        match self.direct_position(address) {
            Some(i) => {
                proof {
                    assoc::lemma_entry(self.direct@, i as int);
                }
                now < self.direct[i].1
            },
            None => false,
        }
    }

    /// Applies one event of the socket or flow layer.
    ///
    /// A connect event carries the process before the first packet is sent,
    /// which is the only moment that helps a destination that is unreachable
    /// without the tunnel. `verdict` is the classification of that process and
    /// whether an executable backed it.
    pub fn apply_event(&mut self, event: u32, key: FlowKey, verdict: (Disposition, bool))
        ensures
            final(self).flows() == flows_after(
                old(self).flows(),
                FlowEvent { event, key, disposition: verdict.0, attributed: verdict.1 },
            ),
            final(self).direct_addresses() == old(self).direct_addresses(),
    {
        if event == EVENT_SOCKET_CONNECT || event == EVENT_FLOW_ESTABLISHED {
            if verdict.1 {
                self.insert(key, verdict.0);
            } else {
                self.insert_unattributed(key, verdict.0);
            }
        } else if event == EVENT_SOCKET_CLOSE || event == EVENT_FLOW_DELETED {
            self.remove(&key);
        }
    }
}

/// An event of the socket or flow layer: what happened to which flow, and how
/// the process behind it is classified. Without an executable to go by, the
/// classification is a guess.
pub struct FlowEvent {
    pub event: u32,
    pub key: FlowKey,
    pub disposition: Disposition,
    pub attributed: bool,
}

/// The classification of flows after an event.
pub open spec fn flows_after(
    flows: Map<FlowKey, Disposition>,
    event: FlowEvent,
) -> Map<FlowKey, Disposition> {
    if event.event == EVENT_SOCKET_CONNECT || event.event == EVENT_FLOW_ESTABLISHED {
        if !event.attributed && flows.dom().contains(event.key) {
            flows
        } else {
            flows.insert(event.key, event.disposition)
        }
    } else if event.event == EVENT_SOCKET_CLOSE || event.event == EVENT_FLOW_DELETED {
        flows.remove(event.key)
    } else {
        flows
    }
}

/// The classification of flows after events in order.
pub open spec fn flows_after_all(
    flows: Map<FlowKey, Disposition>,
    events: Seq<FlowEvent>,
) -> Map<FlowKey, Disposition>
    decreases events.len(),
{
    if events.len() == 0 {
        flows
    } else {
        flows_after(flows_after_all(flows, events.drop_last()), events.last())
    }
}

/// Whether an event begins a flow without telling whose it is.
pub open spec fn is_guess(event: FlowEvent) -> bool {
    !event.attributed && (event.event == EVENT_SOCKET_CONNECT || event.event
        == EVENT_FLOW_ESTABLISHED)
}

/// A flow that is classified stays so through any number of events of other
/// flows and of events of its own that do not tell whose it is.
pub proof fn guesses_never_overrule_a_classification(
    flows: Map<FlowKey, Disposition>,
    events: Seq<FlowEvent>,
    key: FlowKey,
)
    requires
        flows.dom().contains(key),
        forall|i: int|
            0 <= i < events.len() ==> (#[trigger] events[i]).key != key || is_guess(events[i]),
    ensures
        flows_after_all(flows, events).dom().contains(key),
        flows_after_all(flows, events)[key] == flows[key],
    decreases events.len(),
{
    if events.len() > 0 {
        let rest = events.drop_last();
        assert forall|i: int| 0 <= i < rest.len() implies (#[trigger] rest[i]).key != key || is_guess(
            rest[i],
        ) by {
            assert(rest[i] == events[i]);
        }
        guesses_never_overrule_a_classification(flows, rest, key);
        assert(events[events.len() - 1] == events.last());
    }
}

impl Default for FlowTable {
    fn default() -> (table: FlowTable)
        ensures
            table.flows() == Map::<FlowKey, Disposition>::empty(),
            table.direct_addresses() == Map::<IpAddr, u128>::empty(),
    {
        FlowTable::new()
    }
}

/// Where the traffic of an application belongs.
pub open spec fn route(mode: AppRoutingMode, listed: bool) -> Disposition {
    if (mode is Exclude) == listed {
        Disposition::Direct
    } else {
        Disposition::Tunnel
    }
}

/// Whether `path` is one of `apps`, ASCII letter case aside.
pub open spec fn is_listed(apps: Seq<Seq<char>>, path: Seq<char>) -> bool {
    exists|i: int|
        0 <= i < apps.len() && text::same_ignoring_ascii_case(#[trigger] apps[i], path)
}

/// Whether two paths name the same executable.
pub fn paths_equal(left: &str, right: &str) -> (equal: bool)
    ensures
        equal == text::same_ignoring_ascii_case(left@, right@),
{
    text::equal_ignoring_ascii_case(left, right)
}

/// Decides where a process's traffic belongs, caching the answer per process.
///
/// Resolving an executable path costs a process open and a kernel query. The
/// same process reappears for every flow a busy application creates, so the
/// answer is kept.
pub struct Classifier {
    mode: AppRoutingMode,
    apps: Vec<String>,
    cache: HashMap<u32, (bool, bool)>,
}

impl Classifier {
    pub closed spec fn mode(&self) -> AppRoutingMode {
        self.mode
    }

    /// The listed executables in regular path form.
    pub closed spec fn apps(&self) -> Seq<Seq<char>> {
        text::texts(self.apps@)
    }

    /// For each process seen, whether it is listed and whether its executable
    /// could be read at all.
    pub closed spec fn cache(&self) -> Map<u32, (bool, bool)> {
        self.cache@
    }

    /// What is known of a process whose executable is `path`.
    pub open spec fn entry(&self, process_id: u32, path: Option<Seq<char>>) -> (bool, bool) {
        if self.cache().dom().contains(process_id) {
            self.cache()[process_id]
        } else {
            match path {
                Some(p) => (is_listed(self.apps(), crate::normalized_windows_path(p)), true),
                None => (false, false),
            }
        }
    }

    pub fn new(policy: &AppRoutingPolicy) -> (classifier: Classifier)
        ensures
            classifier.mode() == policy.mode,
            classifier.apps() == text::texts(policy.apps@).map_values(
                |app: Seq<char>| crate::normalized_windows_path(app),
            ),
            classifier.cache() == Map::<u32, (bool, bool)>::empty(),
    {
        let mut apps: Vec<String> = Vec::new();
        let mut i: usize = 0;
        while i < policy.apps.len()
            invariant
                i <= policy.apps@.len(),
                text::texts(apps@) =~= text::texts(policy.apps@).subrange(0, i as int).map_values(
                    |app: Seq<char>| crate::normalized_windows_path(app),
                ),
            decreases policy.apps@.len() - i,
        {
            let ghost before = text::texts(apps@);
            apps.push(crate::normalize_windows_path(policy.apps[i].as_str()));
            assert(text::texts(apps@) =~= before.push(
                crate::normalized_windows_path(policy.apps@[i as int]@),
            ));
            i = i + 1;
        }
        assert(text::texts(policy.apps@).subrange(0, i as int) =~= text::texts(policy.apps@));
        Classifier { mode: policy.mode, apps, cache: HashMap::new() }
    }

    /// What was decided for a process before, and whether an executable backed
    /// the decision.
    pub fn known(&self, process_id: u32) -> (verdict: Option<(Disposition, bool)>)
        ensures
            verdict == (if self.cache().dom().contains(process_id) {
                let entry = self.cache()[process_id];
                Some((route(self.mode(), entry.0), entry.1))
            } else {
                None
            }),
    {
        match self.cache.get(&process_id) {
            Some(entry) => Some((self.disposition(entry.0), entry.1)),
            None => None,
        }
    }

    /// Decides where the flows of a process belong, and reports whether an
    /// executable backed the decision.
    ///
    /// `path` is the executable behind the process, where it could be read. It
    /// is not consulted for a process that was seen before. The second value
    /// matters because an unattributable flow still gets a default, and that
    /// default must not overrule a decision made from a real executable.
    pub fn classify(&mut self, process_id: u32, path: Option<&str>) -> (verdict: (
        Disposition,
        bool,
    ))
        ensures
            ({
                let p = match path {
                    Some(p) => Some(p@),
                    None => None,
                };
                let entry = old(self).entry(process_id, p);
                &&& verdict == (route(old(self).mode(), entry.0), entry.1)
                &&& final(self).cache() == old(self).cache().insert(process_id, entry)
                &&& final(self).mode() == old(self).mode()
                &&& final(self).apps() == old(self).apps()
            }),
    {
        let known = self.known(process_id);
        if let Some(verdict) = known {
            assert(self.cache().insert(process_id, self.cache()[process_id]) =~= self.cache());
            return verdict;
        }
        let entry: (bool, bool) = match path {
            Some(p) => {
                let normal = crate::normalize_windows_path(p);
                (self.matches(normal.as_str()), true)
            },
            None => (false, false),
        };
        self.cache.insert(process_id, entry);
        (self.disposition(entry.0), entry.1)
    }

    fn disposition(&self, listed: bool) -> (disposition: Disposition)
        ensures
            disposition == route(self.mode(), listed),
    {
        match (self.mode, listed) {
            // Selected applications bypass the tunnel; everything else uses it.
            (AppRoutingMode::Exclude, true) | (AppRoutingMode::Include, false) => {
                Disposition::Direct
            },
            (AppRoutingMode::Exclude, false) | (AppRoutingMode::Include, true) => {
                Disposition::Tunnel
            },
        }
    }

    fn matches(&self, path: &str) -> (listed: bool)
        ensures
            listed == is_listed(self.apps(), path@),
    {
        let mut i: usize = 0;
        while i < self.apps.len()
            invariant
                i <= self.apps@.len(),
                forall|j: int|
                    0 <= j < i ==> !text::same_ignoring_ascii_case(
                        #[trigger] text::texts(self.apps@)[j],
                        path@,
                    ),
            decreases self.apps@.len() - i,
        {
            assert(text::texts(self.apps@)[i as int] == self.apps@[i as int]@);
            if paths_equal(self.apps[i].as_str(), path) {
                return true;
            }
            i = i + 1;
        }
        false
    }
}

/// The address that four words of flow data stand for, least significant word
/// first. An IPv4 address must carry the `::ffff:0:0/96` mapping prefix.
pub open spec fn decoded_address(words: Seq<u32>, ipv6: bool) -> Option<IpAddr> {
    if ipv6 {
        Some(
            IpAddr::V6(
                Ipv6Addr {
                    bits: (words[0] + words[1] * 0x1_0000_0000 + words[2]
                        * 0x1_0000_0000_0000_0000 + words[3]
                        * 0x1_0000_0000_0000_0000_0000_0000) as u128,
                },
            ),
        )
    } else if words[1] == 0xffff && words[2] == 0 && words[3] == 0 {
        Some(IpAddr::V4(Ipv4Addr { bits: words[0] }))
    } else {
        None
    }
}

/// Decodes an address of the flow layer.
///
/// Anything but the mapped form for an IPv4 flow means that the layout
/// assumption is wrong, and silently trusting the first word would route
/// traffic by a garbage address.
pub fn decode_address(words: [u32; 4], ipv6: bool) -> (address: Option<IpAddr>)
    ensures
        address == decoded_address(words@, ipv6),
{
    if ipv6 {
        let bits: u128 = words[0] as u128 + words[1] as u128 * 0x1_0000_0000 + words[2] as u128
            * 0x1_0000_0000_0000_0000 + words[3] as u128 * 0x1_0000_0000_0000_0000_0000_0000;
        return Some(IpAddr::V6(Ipv6Addr { bits }));
    }
    if words[1] == 0xffff && words[2] == 0 && words[3] == 0 {
        Some(IpAddr::V4(Ipv4Addr { bits: words[0] }))
    } else {
        None
    }
}

/// The key of the flow that `flow` describes.
pub open spec fn key_of(flow: FlowData, ipv6: bool) -> Option<FlowKey> {
    match (
        decoded_address(flow.local_addr@, ipv6),
        decoded_address(flow.remote_addr@, ipv6),
    ) {
        (Some(local), Some(remote)) => Some(
            FlowKey {
                protocol: flow.protocol,
                local,
                local_port: flow.local_port,
                remote,
                remote_port: flow.remote_port,
            },
        ),
        _ => None,
    }
}

/// Builds a flow key from the flow data of an event.
pub fn flow_key(flow: &FlowData, ipv6: bool) -> (key: Option<FlowKey>)
    ensures
        key == key_of(*flow, ipv6),
{
    match (decode_address(flow.local_addr, ipv6), decode_address(flow.remote_addr, ipv6)) {
        (Some(local), Some(remote)) => Some(
            FlowKey {
                protocol: flow.protocol,
                local,
                local_port: flow.local_port,
                remote,
                remote_port: flow.remote_port,
            },
        ),
        _ => None,
    }
}

/// The most flows the probe describes in detail.
pub const PROBE_DETAIL: u64 = 40;

/// What the flow probe has counted.
#[derive(Clone, Copy, Debug, PartialEq, Eq, Structural)]
pub struct ProbeCounts {
    pub established: u64,
    pub deleted: u64,
    pub undecoded: u64,
    pub printed: u64,
}

impl ProbeCounts {
    pub fn new() -> (counts: ProbeCounts)
        ensures
            counts == (ProbeCounts { established: 0, deleted: 0, undecoded: 0, printed: 0 }),
    {
        ProbeCounts { established: 0, deleted: 0, undecoded: 0, printed: 0 }
    }

    /// Counts one event and decides whether to describe it.
    ///
    /// Deleted flows are noisy and add nothing once establishment decodes, so
    /// the detailed log stays bounded and focused.
    pub fn observe(&mut self, event: u32, decoded: bool) -> (describe: bool)
        requires
            old(self).established < u64::MAX,
            old(self).deleted < u64::MAX,
            old(self).undecoded < u64::MAX,
        ensures
            ({
                let tracked_event = event == EVENT_FLOW_ESTABLISHED || event == EVENT_FLOW_DELETED;
                let before = *old(self);
                let counts = *final(self);
                &&& describe == (event == EVENT_FLOW_ESTABLISHED && before.printed < PROBE_DETAIL)
                &&& counts.established == before.established + (if event
                    == EVENT_FLOW_ESTABLISHED { 1int } else { 0 })
                &&& counts.deleted == before.deleted + (if event == EVENT_FLOW_DELETED {
                    1int
                } else {
                    0
                })
                &&& counts.undecoded == before.undecoded + (if tracked_event && !decoded {
                    1int
                } else {
                    0
                })
                &&& counts.printed == before.printed + (if describe { 1int } else { 0 })
            }),
    {
        if event == EVENT_FLOW_ESTABLISHED {
            self.established = self.established + 1;
        } else if event == EVENT_FLOW_DELETED {
            self.deleted = self.deleted + 1;
        } else {
            return false;
        }
        if !decoded {
            self.undecoded = self.undecoded + 1;
        }
        if self.printed >= PROBE_DETAIL || event == EVENT_FLOW_DELETED {
            return false;
        }
        self.printed = self.printed + 1;
        true
    }

    /// The closing lines of the probe.
    pub fn summary(&self) -> (text: String)
        ensures
            text@ == "\nestablished="@ + text::decimal(self.established as nat) + " deleted="@
                + text::decimal(self.deleted as nat) + " undecoded="@ + text::decimal(
                self.undecoded as nat,
            ) + "\n"@ + (if self.undecoded > 0 {
                "WARNING: "@ + text::decimal(self.undecoded as nat)
                    + " flow(s) did not match the assumed IPv4-mapped layout; compare the raw words above against decode_address()\n"@
            } else {
                Seq::<char>::empty()
            }),
    {
        let mut text = text::owned("\nestablished=");
        text::push_decimal(&mut text, self.established as u128);
        text.append(" deleted=");
        text::push_decimal(&mut text, self.deleted as u128);
        text.append(" undecoded=");
        text::push_decimal(&mut text, self.undecoded as u128);
        text.append("\n");
        let ghost counts = text@;
        if self.undecoded > 0 {
            text.append("WARNING: ");
            text::push_decimal(&mut text, self.undecoded as u128);
            text.append(
                " flow(s) did not match the assumed IPv4-mapped layout; compare the raw words above against decode_address()\n",
            );
            assert(text@ =~= counts + ("WARNING: "@ + text::decimal(self.undecoded as nat)
                + " flow(s) did not match the assumed IPv4-mapped layout; compare the raw words above against decode_address()\n"@));
        } else {
            assert(counts + Seq::<char>::empty() =~= counts);
        }
        text
    }
}

/// How the probe words a classification. A flow the layer reports twice
/// appears once for a process that cannot be opened; the question mark keeps
/// that from reading as a policy decision about the application.
pub open spec fn verdict_text(verdict: (Disposition, bool)) -> Seq<char> {
    match verdict {
        (Disposition::Tunnel, true) => "TUNNEL"@,
        (Disposition::Direct, true) => "direct"@,
        (Disposition::Tunnel, false) => "tunnel?"@,
        (Disposition::Direct, false) => "direct?"@,
    }
}

/// Four words in hexadecimal.
pub open spec fn words_text(words: Seq<u32>) -> Seq<char> {
    "["@ + text::fixed_hex(words[0] as nat, 8) + ", "@ + text::fixed_hex(words[1] as nat, 8)
        + ", "@ + text::fixed_hex(words[2] as nat, 8) + ", "@ + text::fixed_hex(
        words[3] as nat,
        8,
    ) + "]"@
}

/// What the probe prints of an established flow, up to the addresses.
pub open spec fn probe_head(verdict: (Disposition, bool), process_id: u32, protocol: u8) -> Seq<
    char,
> {
    verdict_text(verdict) + " established pid="@ + text::padded(text::decimal(process_id as nat), 6)
        + " proto="@ + text::padded(text::decimal(protocol as nat), 3)
}

/// The raw address words of a flow.
pub open spec fn probe_words(flow: FlowData) -> Seq<char> {
    " local="@ + words_text(flow.local_addr@) + " remote="@ + words_text(flow.remote_addr@)
}

/// What the probe prints of an established flow.
pub open spec fn probe_text(
    verdict: (Disposition, bool),
    flow: FlowData,
    ipv6: bool,
    path: Seq<char>,
) -> Seq<char> {
    match key_of(flow, ipv6) {
        Some(key) => probe_head(verdict, flow.process_id, key.protocol) + " "@ + ip::ip_text(
            key.local,
        ) + ":"@ + text::decimal(key.local_port as nat) + " -> "@ + ip::ip_text(key.remote) + ":"@
            + text::decimal(key.remote_port as nat) + probe_words(flow) + "  "@ + path,
        None => probe_head(verdict, flow.process_id, flow.protocol) + " UNDECODED ipv6="@ + (if ipv6 {
            "true"@
        } else {
            "false"@
        }) + probe_words(flow) + "  "@ + path,
    }
}

fn push_words(text: &mut String, words: &[u32; 4])
    ensures
        final(text)@ == old(text)@ + words_text(words@),
{
    let ghost before = text@;
    text.append("[");
    text::push_fixed_hex(text, words[0] as u128, 8);
    text.append(", ");
    text::push_fixed_hex(text, words[1] as u128, 8);
    text.append(", ");
    text::push_fixed_hex(text, words[2] as u128, 8);
    text.append(", ");
    text::push_fixed_hex(text, words[3] as u128, 8);
    text.append("]");
    assert(text@ =~= before + words_text(words@));
}

/// Describes an established flow with both the decoded tuple and the raw
/// address words, so that a wrong assumption about their layout shows.
pub fn probe_line(
    verdict: (Disposition, bool),
    flow: &FlowData,
    ipv6: bool,
    path: Option<&str>,
) -> (line: String)
    ensures
        line@ == probe_text(
            verdict,
            *flow,
            ipv6,
            match path {
                Some(p) => p@,
                None => "<unknown>"@,
            },
        ),
{
    let key = flow_key(flow, ipv6);
    let protocol: u8 = match key {
        Some(k) => k.protocol,
        None => flow.protocol,
    };
    let mut line = text::owned(
        match verdict {
            (Disposition::Tunnel, true) => "TUNNEL",
            (Disposition::Direct, true) => "direct",
            (Disposition::Tunnel, false) => "tunnel?",
            (Disposition::Direct, false) => "direct?",
        },
    );
    line.append(" established pid=");
    text::push_padded(&mut line, text::decimal_text(flow.process_id as u128).as_str(), 6);
    line.append(" proto=");
    text::push_padded(&mut line, text::decimal_text(protocol as u128).as_str(), 3);
    match key {
        Some(k) => {
            line.append(" ");
            line.append(k.local.text().as_str());
            line.append(":");
            text::push_decimal(&mut line, k.local_port as u128);
            line.append(" -> ");
            line.append(k.remote.text().as_str());
            line.append(":");
            text::push_decimal(&mut line, k.remote_port as u128);
        },
        None => {
            line.append(" UNDECODED ipv6=");
            line.append(
                if ipv6 {
                    "true"
                } else {
                    "false"
                },
            );
        },
    }
    let ghost described = line@;
    line.append(" local=");
    push_words(&mut line, &flow.local_addr);
    line.append(" remote=");
    push_words(&mut line, &flow.remote_addr);
    assert(line@ =~= described + probe_words(*flow));
    line.append("  ");
    line.append(
        match path {
            Some(p) => p,
            None => "<unknown>",
        },
    );
    line
}

/// Where traffic belongs: while applications are excluded, the listed ones stay
/// on the physical link and all others take the tunnel; while applications are
/// selected, it is the other way round.
pub proof fn only_the_chosen_applications_are_apart()
    ensures
        route(AppRoutingMode::Exclude, true) is Direct,
        route(AppRoutingMode::Exclude, false) is Tunnel,
        route(AppRoutingMode::Include, true) is Tunnel,
        route(AppRoutingMode::Include, false) is Direct,
{
}

/// An application is listed under its path in whatever case its letters are
/// written, and no application is listed in an empty list.
pub proof fn listed_paths_are_found(apps: Seq<Seq<char>>, path: Seq<char>, i: int)
    ensures
        0 <= i < apps.len() && apps[i] == path ==> is_listed(apps, path),
        0 <= i < apps.len() && apps[i].len() == path.len() && (forall|k: int|
            0 <= k < path.len() ==> text::ascii_lower_char(#[trigger] apps[i][k])
                == text::ascii_lower_char(path[k])) ==> is_listed(apps, path),
        (forall|k: int| 0 <= k < apps.len() ==> (#[trigger] apps[k]).len() != path.len())
            ==> !is_listed(apps, path),
{
    if 0 <= i < apps.len() && apps[i].len() == path.len() && (forall|k: int|
        0 <= k < path.len() ==> text::ascii_lower_char(#[trigger] apps[i][k])
            == text::ascii_lower_char(path[k])) {
        assert(text::ascii_lower(apps[i]) =~= text::ascii_lower(path));
    }
    if is_listed(apps, path) {
        let k = choose|k: int|
            0 <= k < apps.len() && text::same_ignoring_ascii_case(#[trigger] apps[k], path);
        assert(text::ascii_lower(apps[k]).len() == text::ascii_lower(path).len());
    }
}

/// A decision is found under its own key alone: what is entered is read back,
/// what is removed is gone, and other keys keep what they had.
pub proof fn decisions_are_kept_by_flow(
    flows: Map<FlowKey, Disposition>,
    key: FlowKey,
    other: FlowKey,
    disposition: Disposition,
)
    requires
        other != key,
    ensures
        ({
            let connected = flows_after(
                flows,
                FlowEvent { event: 4, key, disposition, attributed: true },
            );
            let established = flows_after(
                flows,
                FlowEvent { event: 1, key, disposition, attributed: true },
            );
            let closed = flows_after(
                flows,
                FlowEvent { event: 7, key, disposition, attributed: true },
            );
            let deleted = flows_after(
                flows,
                FlowEvent { event: 2, key, disposition, attributed: true },
            );
            &&& connected.dom().contains(key) && connected[key] == disposition
            &&& established.dom().contains(key) && established[key] == disposition
            &&& !closed.dom().contains(key)
            &&& !deleted.dom().contains(key)
            &&& connected.dom().contains(other) == flows.dom().contains(other)
            &&& established.dom().contains(other) == flows.dom().contains(other)
            &&& closed.dom().contains(other) == flows.dom().contains(other)
            &&& deleted.dom().contains(other) == flows.dom().contains(other)
            &&& flows.dom().contains(other) ==> connected[other] == flows[other]
                && established[other] == flows[other] && closed[other] == flows[other]
                && deleted[other] == flows[other]
        }),
{
}

/// A flow that nobody classified takes the guess that is made for it; events of
/// other kinds change nothing.
pub proof fn guesses_fill_the_gaps(
    flows: Map<FlowKey, Disposition>,
    event: u32,
    key: FlowKey,
    disposition: Disposition,
)
    ensures
        ({
            let after = flows_after(
                flows,
                FlowEvent { event, key, disposition, attributed: false },
            );
            &&& (event == 1 || event == 4) && !flows.dom().contains(key) ==> after.dom().contains(
                key,
            ) && after[key] == disposition
            &&& event != 1 && event != 2 && event != 4 && event != 7 ==> after == flows
        }),
{
}

/// A table answers for a flow with what was recorded of it, and for an address
/// until, and not at or after, the moment its answer expires.
pub proof fn tables_answer_from_their_records(
    table: FlowTable,
    key: FlowKey,
    address: IpAddr,
    now: u128,
)
    ensures
        table.flows().dom().contains(key) ==> table.decision(key) == Some(table.flows()[key]),
        !table.flows().dom().contains(key) ==> table.decision(key) is None,
        !table.direct_addresses().dom().contains(address) ==> !table.is_direct_at(address, now),
        table.direct_addresses().dom().contains(address) ==> (table.is_direct_at(address, now)
            <==> now < table.direct_addresses()[address]),
{
}

/// The words of an address come least significant first. An IPv4 address is
/// told by the prefix `::ffff:0:0/96`, and anything else for an IPv4 flow is
/// refused.
pub proof fn flow_words_come_least_significant_first(words: Seq<u32>)
    requires
        words.len() == 4,
    ensures
        decoded_address(words, true) matches Some(IpAddr::V6(a)) && {
            let first = a.bits as nat;
            let second = first / 0x1_0000_0000;
            let third = second / 0x1_0000_0000;
            &&& first % 0x1_0000_0000 == words[0]
            &&& second % 0x1_0000_0000 == words[1]
            &&& third % 0x1_0000_0000 == words[2]
            &&& third / 0x1_0000_0000 == words[3]
        },
        words[1] == 0xffff && words[2] == 0 && words[3] == 0 ==> decoded_address(words, false)
            == Some(IpAddr::V4(Ipv4Addr { bits: words[0] })),
        words[1] != 0xffff || words[2] != 0 || words[3] != 0 ==> decoded_address(words, false)
            is None,
{
    let third = words[2] as nat + 0x1_0000_0000 * words[3] as nat;
    let second = words[1] as nat + 0x1_0000_0000 * third;
    let first = words[0] as nat + 0x1_0000_0000 * second;
    assert(first == words[0] + words[1] * 0x1_0000_0000 + words[2] * 0x1_0000_0000_0000_0000
        + words[3] * 0x1_0000_0000_0000_0000_0000_0000);
    assert(first / 0x1_0000_0000 == second);
    assert(second / 0x1_0000_0000 == third);
    assert(third / 0x1_0000_0000 == words[3]);
}

/// The key of a flow holds its own protocol and ports, local and remote each in
/// their place.
pub proof fn flow_keys_tell_local_from_remote(flow: FlowData, ipv6: bool)
    ensures
        key_of(flow, ipv6) matches Some(key) ==> {
            &&& key.protocol == flow.protocol
            &&& key.local_port == flow.local_port
            &&& key.remote_port == flow.remote_port
            &&& decoded_address(flow.local_addr@, ipv6) == Some(key.local)
            &&& decoded_address(flow.remote_addr@, ipv6) == Some(key.remote)
        },
        key_of(flow, ipv6) is None ==> decoded_address(flow.local_addr@, ipv6) is None
            || decoded_address(flow.remote_addr@, ipv6) is None,
{
}

/// A process that was not seen before is judged by its executable, one that was
/// seen keeps what was found, and one without an executable counts as not
/// listed, as a guess.
pub proof fn processes_are_judged_by_their_executable(
    classifier: Classifier,
    process_id: u32,
    path: Seq<char>,
)
    ensures
        !classifier.cache().dom().contains(process_id) ==> {
            &&& classifier.entry(process_id, None) == (false, false)
            &&& classifier.entry(process_id, Some(path)).1
            &&& classifier.entry(process_id, Some(path)).0 == is_listed(
                classifier.apps(),
                crate::normalized_windows_path(path),
            )
        },
        classifier.cache().dom().contains(process_id) ==> classifier.entry(process_id, Some(path))
            == classifier.cache()[process_id] && classifier.entry(process_id, None)
            == classifier.cache()[process_id],
{
}

/// The probe prints a decision in capitals where it sends a flow through the
/// tunnel, and with a question mark where the process is not known. The raw
/// words follow, the local ones first.
pub proof fn the_probe_prints_decision_and_words(flow: FlowData, pid: u32, protocol: u8)
    ensures
        verdict_text((Disposition::Tunnel, true)) == "TUNNEL"@,
        verdict_text((Disposition::Direct, true)) == "direct"@,
        verdict_text((Disposition::Tunnel, false)) == "tunnel?"@,
        verdict_text((Disposition::Direct, false)) == "direct?"@,
        probe_words(flow) == " local="@ + words_text(flow.local_addr@) + " remote="@ + words_text(
            flow.remote_addr@,
        ),
        words_text(flow.local_addr@) == "["@ + text::fixed_hex(flow.local_addr@[0] as nat, 8)
            + ", "@ + text::fixed_hex(flow.local_addr@[1] as nat, 8) + ", "@ + text::fixed_hex(
            flow.local_addr@[2] as nat,
            8,
        ) + ", "@ + text::fixed_hex(flow.local_addr@[3] as nat, 8) + "]"@,
        probe_head((Disposition::Tunnel, true), pid, protocol) == "TUNNEL"@
            + " established pid="@ + text::padded(text::decimal(pid as nat), 6) + " proto="@
            + text::padded(text::decimal(protocol as nat), 3),
        PROBE_DETAIL == 40,
{
}

} // verus!
