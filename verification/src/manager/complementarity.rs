//! Which backend covers a capability, and how well.
//!
//! Each capability has intended primary backends and fallbacks. The
//! coverage report prefers an operational primary, then an operational
//! fallback; it describes the runtime situation and changes nothing.
use vstd::prelude::*;

use crate::contracts::kind::BackendKind;
use crate::manager::capabilities::BackendCapability;
use crate::manager::health::BackendHealth;
use crate::manager::manager::BackendManager;
use crate::manager::selection::first_match;
use crate::namemap::{lemma_filter_members, name_seq};
use crate::text::str_eq;

verus! {

/// How a capability is covered right now.
#[derive(Debug, Clone, Copy, PartialEq, Eq, Structural)]
pub enum CapabilityStatus {
    /// An intended primary backend is operational.
    Available,
    /// Only a fallback backend is operational.
    Degraded,
    /// No registered backend declares the capability.
    Unavailable,
    /// Backends declare it, but none is operational.
    Lost,
}

impl CapabilityStatus {
    pub fn is_usable(self) -> (r: bool)
        ensures
            r == (self is Available || self is Degraded),
    {
        matches!(self, CapabilityStatus::Available | CapabilityStatus::Degraded)
    }

    pub fn is_degraded(self) -> (r: bool)
        ensures
            r == (self is Degraded),
    {
        self == CapabilityStatus::Degraded
    }

    pub fn is_unavailable(self) -> (r: bool)
        ensures
            r == (self is Unavailable || self is Lost),
    {
        matches!(self, CapabilityStatus::Unavailable | CapabilityStatus::Lost)
    }
}

/// The coverage report for one capability.
#[derive(Debug, Clone, PartialEq, Eq)]
pub struct CapabilityCoverage {
    pub capability: BackendCapability,
    pub status: CapabilityStatus,
    /// The backend that serves the capability, if any.
    pub active: Option<String>,
    /// Capable backends intended as primary, in name order.
    pub primary: Vec<String>,
    /// Every other capable backend, in name order.
    pub fallbacks: Vec<String>,
}

impl CapabilityCoverage {
    pub fn is_usable(&self) -> (r: bool)
        ensures
            r == (self.status is Available || self.status is Degraded),
    {
        self.status.is_usable()
    }

    pub fn is_degraded(&self) -> (r: bool)
        ensures
            r == (self.status is Degraded),
    {
        self.status.is_degraded()
    }

    /// This report is the one `select_with_fallback` gives for `manager`.
    pub open spec fn matches_manager(self, manager: BackendManager, capability: BackendCapability) -> bool {
        let (status, active) = coverage_of(manager, capability);
        &&& self.capability == capability
        &&& name_seq(self.primary@) == primary_list(manager, capability)
        &&& name_seq(self.fallbacks@) == fallback_list(manager, capability)
        &&& self.status == status
        &&& match self.active {
            Some(a) => active == Some(a@),
            None => active is None,
        }
    }
}

/// The backends intended as primary for a capability.
pub open spec fn primary_kinds(capability: BackendCapability) -> Seq<BackendKind> {
    match capability {
        BackendCapability::Capture | BackendCapability::L2Capture | BackendCapability::RawEthernet
        | BackendCapability::AdapterEnumeration => seq![BackendKind::Npcap],
        BackendCapability::Ipv4 | BackendCapability::Ipv6 | BackendCapability::Tcp
        | BackendCapability::Udp | BackendCapability::Icmp | BackendCapability::IcmpV6
        | BackendCapability::NetworkLayer | BackendCapability::AddressMetadata
        | BackendCapability::Interception | BackendCapability::Filtering
        | BackendCapability::Inspection | BackendCapability::Direction
        | BackendCapability::Modification | BackendCapability::Pass | BackendCapability::Drop
        | BackendCapability::Reinjection | BackendCapability::QueueControl
        | BackendCapability::HandleLifetime | BackendCapability::ErrorReporting => seq![
            BackendKind::WinDivert,
        ],
        BackendCapability::WfpEngineAccess | BackendCapability::WfpFilters
        | BackendCapability::WfpLayers | BackendCapability::WfpFlows => seq![BackendKind::Wfp],
        BackendCapability::InterfaceInfo | BackendCapability::RouteInfo
        | BackendCapability::NeighborInfo | BackendCapability::GatewayInfo => seq![
            BackendKind::IpHelper,
        ],
        BackendCapability::Diagnostics | BackendCapability::Telemetry => seq![BackendKind::Etw],
        BackendCapability::Forwarding | BackendCapability::NatState => seq![],
    }
}

/// The intended fallbacks for a capability.
pub open spec fn fallback_kinds(capability: BackendCapability) -> Seq<BackendKind> {
    match capability {
        BackendCapability::Capture | BackendCapability::L2Capture
        | BackendCapability::RawEthernet => seq![BackendKind::WinDivert],
        BackendCapability::Ipv4 | BackendCapability::Ipv6 | BackendCapability::Tcp
        | BackendCapability::Udp | BackendCapability::Icmp | BackendCapability::IcmpV6
        | BackendCapability::NeighborInfo => seq![BackendKind::Npcap],
        BackendCapability::Filtering | BackendCapability::Pass | BackendCapability::Drop => seq![
            BackendKind::Wfp,
        ],
        _ => seq![],
    }
}

pub open spec fn kind_names(kinds: Seq<BackendKind>) -> Seq<Seq<char>> {
    kinds.map_values(|k: BackendKind| k.spec_name())
}

/// Registered backends declaring `capability` that are intended primary,
/// in name order.
pub open spec fn primary_list(manager: BackendManager, capability: BackendCapability) -> Seq<
    Seq<char>,
> {
    manager.names_view().filter(
        |n: Seq<char>|
            manager.runtime_of(n).descriptor.capabilities@.contains(capability) && kind_names(
                primary_kinds(capability),
            ).contains(n),
    )
}

/// Registered backends declaring `capability` that are not intended
/// primary, in name order.
pub open spec fn fallback_list(manager: BackendManager, capability: BackendCapability) -> Seq<
    Seq<char>,
> {
    manager.names_view().filter(
        |n: Seq<char>|
            manager.runtime_of(n).descriptor.capabilities@.contains(capability) && !kind_names(
                primary_kinds(capability),
            ).contains(n),
    )
}

/// Available lifecycle and health other than `Unhealthy`.
pub open spec fn operational(manager: BackendManager, name: Seq<char>) -> bool {
    manager.runtime_of(name).spec_is_lifecycle_available() && manager.monitor_of(name).spec_health()
        != BackendHealth::Unhealthy
}

/// The status and the serving backend of `capability`.
pub open spec fn coverage_of(manager: BackendManager, capability: BackendCapability) -> (
    CapabilityStatus,
    Option<Seq<char>>,
) {
    let primary = primary_list(manager, capability);
    let fallbacks = fallback_list(manager, capability);
    let op = |n: Seq<char>| operational(manager, n);
    match first_match(primary, op) {
        Some(a) => (CapabilityStatus::Available, Some(a)),
        None => match first_match(fallbacks, op) {
            Some(a) => (CapabilityStatus::Degraded, Some(a)),
            None => if primary.len() == 0 && fallbacks.len() == 0 {
                (CapabilityStatus::Unavailable, None)
            } else {
                (CapabilityStatus::Lost, None)
            },
        },
    }
}

/// The protocol-level capabilities: IP versions and transports.
pub open spec fn protocol_capability(capability: BackendCapability) -> bool {
    ||| capability == BackendCapability::Ipv4
    ||| capability == BackendCapability::Ipv6
    ||| capability == BackendCapability::Tcp
    ||| capability == BackendCapability::Udp
    ||| capability == BackendCapability::Icmp
    ||| capability == BackendCapability::IcmpV6
}

/// A protocol capability is meant to be served by WinDivert, with Npcap as
/// its fallback: the only backend counted as its primary is the one named
/// `windivert`, which never counts as a fallback, and whenever `windivert`
/// is registered, declares the capability and is operational, the
/// capability is `Available` through it.
pub proof fn lemma_protocol_coverage(manager: BackendManager, capability: BackendCapability)
    requires
        protocol_capability(capability),
    ensures
        kind_names(primary_kinds(capability)) == seq!["windivert"@],
        kind_names(fallback_kinds(capability)) == seq!["npcap"@],
        forall|i: int|
            0 <= i < primary_list(manager, capability).len() ==> #[trigger] primary_list(
                manager,
                capability,
            )[i] == "windivert"@,
        !fallback_list(manager, capability).contains("windivert"@),
        manager.has("windivert"@) && manager.runtime_of("windivert"@).descriptor.capabilities@.contains(
            capability,
        ) && operational(manager, "windivert"@) ==> coverage_of(manager, capability) == (
            CapabilityStatus::Available,
            Some("windivert"@),
        ),
{
    let pn = kind_names(primary_kinds(capability));
    assert(pn =~= seq!["windivert"@]);
    assert(kind_names(fallback_kinds(capability)) =~= seq!["npcap"@]);
    let names = manager.names_view();
    let pp = |n: Seq<char>|
        manager.runtime_of(n).descriptor.capabilities@.contains(capability) && pn.contains(n);
    let fp = |n: Seq<char>|
        manager.runtime_of(n).descriptor.capabilities@.contains(capability) && !pn.contains(n);
    let prim = names.filter(pp);
    names.filter_lemma(pp);
    names.filter_lemma(fp);
    assert(pn.contains("windivert"@)) by {
        assert(pn[0] == "windivert"@);
    }
    assert forall|n: Seq<char>| pn.contains(n) implies n == "windivert"@ by {}
    assert forall|i: int| 0 <= i < prim.len() implies #[trigger] prim[i] == "windivert"@ by {
        assert(pp(prim[i]));
    }
    if fallback_list(manager, capability).contains("windivert"@) {
        let j = choose|j: int|
            0 <= j < names.filter(fp).len() && names.filter(fp)[j] == "windivert"@;
        assert(fp(names.filter(fp)[j]));
    }
    if manager.has("windivert"@) && manager.runtime_of("windivert"@).descriptor.capabilities@.contains(
        capability,
    ) && operational(manager, "windivert"@) {
        manager.lemma_has();
        assert(names.contains("windivert"@));
        let k = choose|k: int| 0 <= k < names.len() && names[k] == "windivert"@;
        assert(pp(names[k]));
        assert(prim.contains("windivert"@));
        assert(prim.len() > 0);
        assert(prim[0] == "windivert"@);
    }
}

/// The designated layout of every capability, by backend name: Npcap for
/// layer-2 capture (falling back to WinDivert) and adapter enumeration;
/// WinDivert for the IP layer, interception and packet actions, with Npcap
/// behind the protocols and WFP behind filtering, pass and drop; WFP for
/// its own engine, filters, layers and flows; the IP helper for interface,
/// route, neighbor (falling back to Npcap) and gateway state; ETW for
/// diagnostics and telemetry; nobody for forwarding and NAT state.
pub proof fn lemma_capability_matrix(capability: BackendCapability)
    ensures
        capability == BackendCapability::Capture || capability == BackendCapability::L2Capture || capability == BackendCapability::RawEthernet ==> kind_names(primary_kinds(capability))
            == seq!["npcap"@] && kind_names(fallback_kinds(capability)) == seq!["windivert"@],
        capability == BackendCapability::AdapterEnumeration ==> kind_names(primary_kinds(capability)) == seq!["npcap"@]
            && fallback_kinds(capability).len() == 0,
        capability == BackendCapability::Filtering || capability == BackendCapability::Pass || capability == BackendCapability::Drop ==> kind_names(primary_kinds(capability)) == seq![
            "windivert"@] && kind_names(fallback_kinds(capability)) == seq!["wfp"@],
        capability == BackendCapability::NetworkLayer || capability == BackendCapability::AddressMetadata || capability == BackendCapability::Interception || capability == BackendCapability::Inspection || capability == BackendCapability::Direction || capability == BackendCapability::Modification || capability == BackendCapability::Reinjection || capability == BackendCapability::QueueControl || capability == BackendCapability::HandleLifetime || capability == BackendCapability::ErrorReporting
            ==> kind_names(primary_kinds(capability)) == seq!["windivert"@] && fallback_kinds(
            capability,
        ).len() == 0,
        capability == BackendCapability::WfpEngineAccess || capability == BackendCapability::WfpFilters || capability == BackendCapability::WfpLayers || capability == BackendCapability::WfpFlows ==> kind_names(primary_kinds(capability))
            == seq!["wfp"@] && fallback_kinds(capability).len() == 0,
        capability == BackendCapability::InterfaceInfo || capability == BackendCapability::RouteInfo || capability == BackendCapability::GatewayInfo ==> kind_names(primary_kinds(capability))
            == seq!["iphelper"@] && fallback_kinds(capability).len() == 0,
        capability == BackendCapability::NeighborInfo ==> kind_names(primary_kinds(capability)) == seq!["iphelper"@]
            && kind_names(fallback_kinds(capability)) == seq!["npcap"@],
        capability == BackendCapability::Diagnostics || capability == BackendCapability::Telemetry ==> kind_names(primary_kinds(capability)) == seq!["etw"@]
            && fallback_kinds(capability).len() == 0,
        capability == BackendCapability::Forwarding || capability == BackendCapability::NatState ==> primary_kinds(capability).len() == 0
            && fallback_kinds(capability).len() == 0,
{
    assert(kind_names(primary_kinds(capability)) =~= primary_kinds(capability).map_values(
        |k: BackendKind| k.spec_name(),
    ));
    if primary_kinds(capability).len() == 1 {
        assert(kind_names(primary_kinds(capability)) =~= seq![primary_kinds(capability)[0].spec_name()]);
    }
    if fallback_kinds(capability).len() == 1 {
        assert(kind_names(fallback_kinds(capability)) =~= seq![fallback_kinds(capability)[0].spec_name()]);
    }
}

/// The primary/fallback layout of capabilities over the known backends.
pub struct CapabilityFallbackMatrix;

impl CapabilityFallbackMatrix {
    /// Names of the backends intended as primary for `capability`.
    pub fn primary(capability: BackendCapability) -> (r: Vec<&'static str>)
        ensures
            r@.map_values(|s: &str| s@) == kind_names(primary_kinds(capability)),
    {
        let kinds = match capability {
            BackendCapability::Capture | BackendCapability::L2Capture
            | BackendCapability::RawEthernet | BackendCapability::AdapterEnumeration => vec![
                BackendKind::Npcap,
            ],
            BackendCapability::Ipv4 | BackendCapability::Ipv6 | BackendCapability::Tcp
            | BackendCapability::Udp | BackendCapability::Icmp | BackendCapability::IcmpV6
            | BackendCapability::NetworkLayer | BackendCapability::AddressMetadata
            | BackendCapability::Interception | BackendCapability::Filtering
            | BackendCapability::Inspection | BackendCapability::Direction
            | BackendCapability::Modification | BackendCapability::Pass
            | BackendCapability::Drop | BackendCapability::Reinjection
            | BackendCapability::QueueControl | BackendCapability::HandleLifetime
            | BackendCapability::ErrorReporting => vec![BackendKind::WinDivert],
            BackendCapability::WfpEngineAccess | BackendCapability::WfpFilters
            | BackendCapability::WfpLayers | BackendCapability::WfpFlows => vec![BackendKind::Wfp],
            BackendCapability::InterfaceInfo | BackendCapability::RouteInfo
            | BackendCapability::NeighborInfo | BackendCapability::GatewayInfo => vec![
                BackendKind::IpHelper,
            ],
            BackendCapability::Diagnostics | BackendCapability::Telemetry => vec![
                BackendKind::Etw,
            ],
            BackendCapability::Forwarding | BackendCapability::NatState => Vec::new(),
        };
        proof {
            assert(kinds@ =~= primary_kinds(capability));
        }
        names_of(&kinds)
    }

    /// Names of the intended fallbacks for `capability`.
    pub fn fallbacks(capability: BackendCapability) -> (r: Vec<&'static str>)
        ensures
            r@.map_values(|s: &str| s@) == kind_names(fallback_kinds(capability)),
    {
        let kinds = match capability {
            BackendCapability::Capture | BackendCapability::L2Capture
            | BackendCapability::RawEthernet => vec![BackendKind::WinDivert],
            BackendCapability::Ipv4 | BackendCapability::Ipv6 | BackendCapability::Tcp
            | BackendCapability::Udp | BackendCapability::Icmp | BackendCapability::IcmpV6
            | BackendCapability::NeighborInfo => vec![BackendKind::Npcap],
            BackendCapability::Filtering | BackendCapability::Pass | BackendCapability::Drop => vec![
                BackendKind::Wfp,
            ],
            _ => Vec::new(),
        };
        proof {
            assert(kinds@ =~= fallback_kinds(capability));
        }
        names_of(&kinds)
    }

    pub fn has_fallback(capability: BackendCapability) -> (r: bool)
        ensures
            r == (fallback_kinds(capability).len() > 0),
    {
        let f = Self::fallbacks(capability);
        proof {
            assert(f@.map_values(|s: &str| s@).len() == f@.len());
        }
        f.len() != 0
    }
}

fn names_of(kinds: &Vec<BackendKind>) -> (r: Vec<&'static str>)
    ensures
        r@.map_values(|s: &str| s@) == kind_names(kinds@),
{
    let mut r: Vec<&'static str> = Vec::new();
    let mut i: usize = 0;
    while i < kinds.len()
        invariant
            i <= kinds@.len(),
            r@.map_values(|s: &str| s@) == kind_names(kinds@.take(i as int)),
        decreases kinds@.len() - i,
    {
        let ghost before = r@;
        r.push(kinds[i].name());
        proof {
            assert(kinds@.take(i + 1) =~= kinds@.take(i as int).push(kinds@[i as int]));
            assert(r@.map_values(|s: &str| s@) =~= before.map_values(|s: &str| s@).push(
                kinds@[i as int].spec_name(),
            ));
            assert(kind_names(kinds@.take(i + 1)) =~= kind_names(kinds@.take(i as int)).push(
                kinds@[i as int].spec_name(),
            ));
        }
        i = i + 1;
    }
    assert(kinds@.take(kinds@.len() as int) =~= kinds@);
    r
}

fn contains_name(names: &Vec<&'static str>, name: &str) -> (r: bool)
    ensures
        r == names@.map_values(|s: &str| s@).contains(name@),
{
    let ghost ns = names@.map_values(|s: &str| s@);
    let mut i: usize = 0;
    while i < names.len()
        invariant
            i <= names@.len(),
            ns == names@.map_values(|s: &str| s@),
            forall|j: int| 0 <= j < i ==> ns[j] != name@,
        decreases names@.len() - i,
    {
        if str_eq(names[i], name) {
            assert(ns[i as int] == name@);
            return true;
        }
        i = i + 1;
    }
    false
}

/// Position of the first operational backend of `list`.
fn first_operational(manager: &BackendManager, list: &Vec<String>) -> (r: Option<usize>)
    requires
        forall|j: int| 0 <= j < list@.len() ==> manager.has(#[trigger] list@[j]@),
    ensures
        match first_match(name_seq(list@), |n: Seq<char>| operational(*manager, n)) {
            Some(c) => r matches Some(i) && i < list@.len() && list@[i as int]@ == c,
            None => r is None,
        },
{
    let ghost cs = name_seq(list@);
    let ghost op = |n: Seq<char>| operational(*manager, n);
    let mut i: usize = 0;
    assert(cs.subrange(0, cs.len() as int) =~= cs);
    while i < list.len()
        invariant
            i <= list@.len(),
            cs == name_seq(list@),
            op == (|n: Seq<char>| operational(*manager, n)),
            forall|j: int| 0 <= j < list@.len() ==> manager.has(#[trigger] list@[j]@),
            first_match(cs, op) == first_match(cs.subrange(i as int, cs.len() as int), op),
        decreases list@.len() - i,
    {
        let ghost rest = cs.subrange(i as int, cs.len() as int);
        proof {
            assert(rest[0] == list@[i as int]@);
            assert(rest.drop_first() =~= cs.subrange(i + 1, cs.len() as int));
            assert(manager.has(list@[i as int]@));
        }
        let hit = match manager.runtime_state(list[i].as_str()) {
            Ok(runtime) => runtime.is_available() && match manager.health(list[i].as_str()) {
                Ok(h) => h != BackendHealth::Unhealthy,
                Err(_) => false,
            },
            Err(_) => false,
        };
        if hit {
            return Some(i);
        }
        i = i + 1;
    }
    proof {
        assert(cs.subrange(cs.len() as int, cs.len() as int).len() == 0);
    }
    None
}

/// The coverage report for `capability`: the capable backends split into
/// intended primaries and the rest, the first operational primary
/// (`Available`), else the first operational other one (`Degraded`),
/// else `Unavailable` when no backend declares the capability and `Lost`
/// when some do.
pub fn select_with_fallback(manager: &BackendManager, capability: BackendCapability) -> (r:
    CapabilityCoverage)
    ensures
        r.matches_manager(*manager, capability),
{
    let primary_names = CapabilityFallbackMatrix::primary(capability);
    let names = manager.names();
    let ghost ks = manager.names_view();
    let ghost pn = kind_names(primary_kinds(capability));
    let ghost pp = |n: Seq<char>|
        manager.runtime_of(n).descriptor.capabilities@.contains(capability) && pn.contains(n);
    let ghost fp = |n: Seq<char>|
        manager.runtime_of(n).descriptor.capabilities@.contains(capability) && !pn.contains(n);
    let mut primary: Vec<String> = Vec::new();
    let mut fallbacks: Vec<String> = Vec::new();
    let mut i: usize = 0;
    while i < names.len()
        invariant
            i <= names@.len(),
            name_seq(names@) == ks,
            ks == manager.names_view(),
            forall|k: Seq<char>| #[trigger] ks.contains(k) == manager.has(k),
            primary_names@.map_values(|s: &str| s@) == pn,
            pp == (|n: Seq<char>|
                manager.runtime_of(n).descriptor.capabilities@.contains(capability) && pn.contains(
                    n,
                )),
            fp == (|n: Seq<char>|
                manager.runtime_of(n).descriptor.capabilities@.contains(capability)
                    && !pn.contains(n)),
            name_seq(primary@) == ks.take(i as int).filter(pp),
            name_seq(fallbacks@) == ks.take(i as int).filter(fp),
        decreases names@.len() - i,
    {
        let ghost bp = primary@;
        let ghost bf = fallbacks@;
        let ghost n = ks[i as int];
        proof {
            assert(names@[i as int]@ == n);
            assert(ks.take(i + 1).drop_last() =~= ks.take(i as int));
            reveal(Seq::filter);
            assert(ks.contains(n));
        }
        let supported = match manager.supports(names[i].as_str(), capability) {
            Ok(b) => b,
            Err(_) => false,
        };
        if supported {
            if contains_name(&primary_names, names[i].as_str()) {
                primary.push(names[i].clone());
                proof {
                    assert(name_seq(primary@) =~= name_seq(bp).push(n));
                }
            } else {
                fallbacks.push(names[i].clone());
                proof {
                    assert(name_seq(fallbacks@) =~= name_seq(bf).push(n));
                }
            }
        }
        i = i + 1;
    }
    proof {
        assert(ks.take(names@.len() as int) =~= ks);
        lemma_filter_members(ks, pp);
        lemma_filter_members(ks, fp);
        assert forall|j: int| 0 <= j < primary@.len() implies manager.has(#[trigger] primary@[j]@) by {
            assert(name_seq(primary@)[j] == primary@[j]@);
        }
        assert forall|j: int| 0 <= j < fallbacks@.len() implies manager.has(
            #[trigger] fallbacks@[j]@,
        ) by {
            assert(name_seq(fallbacks@)[j] == fallbacks@[j]@);
        }
    }
    let (status, active) = match first_operational(manager, &primary) {
        Some(j) => (CapabilityStatus::Available, Some(primary[j].clone())),
        None => match first_operational(manager, &fallbacks) {
            Some(j) => (CapabilityStatus::Degraded, Some(fallbacks[j].clone())),
            None => {
                if primary.len() == 0 && fallbacks.len() == 0 {
                    (CapabilityStatus::Unavailable, None)
                } else {
                    (CapabilityStatus::Lost, None)
                }
            },
        },
    };
    CapabilityCoverage { capability, status, active, primary, fallbacks }
}

/// The status of the coverage report for `capability`.
pub fn capability_status(manager: &BackendManager, capability: BackendCapability) -> (r:
    CapabilityStatus)
    ensures
        r == coverage_of(*manager, capability).0,
{
    select_with_fallback(manager, capability).status
}

} // verus!
