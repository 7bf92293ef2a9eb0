//! Backend capabilities and capability sets.
//!
//! A capability describes what a backend can technically provide; it is
//! never policy, lifecycle, health or authorization.
use vstd::prelude::*;
use vstd::seq_lib::*;

verus! {

broadcast use group_to_multiset_ensures;

/// Native/backend capabilities exposed to the Engine.
#[derive(Debug, Clone, Copy, PartialEq, Eq, Hash, Structural)]
pub enum BackendCapability {
    Capture,
    Interception,
    Filtering,
    Inspection,
    Direction,
    Ipv4,
    Ipv6,
    Tcp,
    Udp,
    Icmp,
    IcmpV6,
    NetworkLayer,
    AddressMetadata,
    Modification,
    Drop,
    Pass,
    Reinjection,
    QueueControl,
    HandleLifetime,
    ErrorReporting,
    L2Capture,
    RawEthernet,
    AdapterEnumeration,
    WfpEngineAccess,
    WfpFilters,
    WfpLayers,
    WfpFlows,
    InterfaceInfo,
    RouteInfo,
    NeighborInfo,
    GatewayInfo,
    Diagnostics,
    Telemetry,
    Forwarding,
    NatState,
}

impl BackendCapability {
    /// The stable numeric ABI value of a capability.
    pub open spec fn spec_key(self) -> u16 {
        match self {
            Self::Capture => 0,
            Self::Interception => 1,
            Self::Filtering => 2,
            Self::Inspection => 3,
            Self::Direction => 4,
            Self::Ipv4 => 10,
            Self::Ipv6 => 11,
            Self::Tcp => 12,
            Self::Udp => 13,
            Self::Icmp => 14,
            Self::IcmpV6 => 15,
            Self::NetworkLayer => 20,
            Self::AddressMetadata => 21,
            Self::Modification => 30,
            Self::Drop => 31,
            Self::Pass => 32,
            Self::Reinjection => 33,
            Self::QueueControl => 40,
            Self::HandleLifetime => 41,
            Self::ErrorReporting => 42,
            Self::L2Capture => 50,
            Self::RawEthernet => 51,
            Self::AdapterEnumeration => 52,
            Self::WfpEngineAccess => 60,
            Self::WfpFilters => 61,
            Self::WfpLayers => 62,
            Self::WfpFlows => 63,
            Self::InterfaceInfo => 70,
            Self::RouteInfo => 71,
            Self::NeighborInfo => 72,
            Self::GatewayInfo => 73,
            Self::Diagnostics => 80,
            Self::Telemetry => 81,
            Self::Forwarding => 90,
            Self::NatState => 91,
        }
    }

    /// The stable name of a capability.
    pub open spec fn spec_name(self) -> Seq<char> {
        match self {
            Self::Capture => "capture"@,
            Self::Interception => "interception"@,
            Self::Filtering => "filtering"@,
            Self::Inspection => "inspection"@,
            Self::Direction => "direction"@,
            Self::Ipv4 => "ipv4"@,
            Self::Ipv6 => "ipv6"@,
            Self::Tcp => "tcp"@,
            Self::Udp => "udp"@,
            Self::Icmp => "icmp"@,
            Self::IcmpV6 => "icmpv6"@,
            Self::NetworkLayer => "network_layer"@,
            Self::AddressMetadata => "address_metadata"@,
            Self::Modification => "modification"@,
            Self::Drop => "drop"@,
            Self::Pass => "pass"@,
            Self::Reinjection => "reinjection"@,
            Self::QueueControl => "queue_control"@,
            Self::HandleLifetime => "handle_lifetime"@,
            Self::ErrorReporting => "error_reporting"@,
            Self::L2Capture => "l2_capture"@,
            Self::RawEthernet => "raw_ethernet"@,
            Self::AdapterEnumeration => "adapter_enumeration"@,
            Self::WfpEngineAccess => "wfp_engine_access"@,
            Self::WfpFilters => "wfp_filters"@,
            Self::WfpLayers => "wfp_layers"@,
            Self::WfpFlows => "wfp_flows"@,
            Self::InterfaceInfo => "interface_info"@,
            Self::RouteInfo => "route_info"@,
            Self::NeighborInfo => "neighbor_info"@,
            Self::GatewayInfo => "gateway_info"@,
            Self::Diagnostics => "diagnostics"@,
            Self::Telemetry => "telemetry"@,
            Self::Forwarding => "forwarding"@,
            Self::NatState => "nat_state"@,
        }
    }

    /// The capability whose ABI value is `value`, if any.
    pub open spec fn spec_from_u16(value: u16) -> Option<Self> {
        if value == 0 {
            Some(Self::Capture)
        } else if value == 1 {
            Some(Self::Interception)
        } else if value == 2 {
            Some(Self::Filtering)
        } else if value == 3 {
            Some(Self::Inspection)
        } else if value == 4 {
            Some(Self::Direction)
        } else if value == 10 {
            Some(Self::Ipv4)
        } else if value == 11 {
            Some(Self::Ipv6)
        } else if value == 12 {
            Some(Self::Tcp)
        } else if value == 13 {
            Some(Self::Udp)
        } else if value == 14 {
            Some(Self::Icmp)
        } else if value == 15 {
            Some(Self::IcmpV6)
        } else if value == 20 {
            Some(Self::NetworkLayer)
        } else if value == 21 {
            Some(Self::AddressMetadata)
        } else if value == 30 {
            Some(Self::Modification)
        } else if value == 31 {
            Some(Self::Drop)
        } else if value == 32 {
            Some(Self::Pass)
        } else if value == 33 {
            Some(Self::Reinjection)
        } else if value == 40 {
            Some(Self::QueueControl)
        } else if value == 41 {
            Some(Self::HandleLifetime)
        } else if value == 42 {
            Some(Self::ErrorReporting)
        } else if value == 50 {
            Some(Self::L2Capture)
        } else if value == 51 {
            Some(Self::RawEthernet)
        } else if value == 52 {
            Some(Self::AdapterEnumeration)
        } else if value == 60 {
            Some(Self::WfpEngineAccess)
        } else if value == 61 {
            Some(Self::WfpFilters)
        } else if value == 62 {
            Some(Self::WfpLayers)
        } else if value == 63 {
            Some(Self::WfpFlows)
        } else if value == 70 {
            Some(Self::InterfaceInfo)
        } else if value == 71 {
            Some(Self::RouteInfo)
        } else if value == 72 {
            Some(Self::NeighborInfo)
        } else if value == 73 {
            Some(Self::GatewayInfo)
        } else if value == 80 {
            Some(Self::Diagnostics)
        } else if value == 81 {
            Some(Self::Telemetry)
        } else if value == 90 {
            Some(Self::Forwarding)
        } else if value == 91 {
            Some(Self::NatState)
        } else {
            None
        }
    }

    pub open spec fn spec_is_observation(self) -> bool {
        self == Self::Capture || self == Self::Interception || self == Self::Inspection || self
            == Self::Direction
    }

    pub open spec fn spec_is_action(self) -> bool {
        self == Self::Modification || self == Self::Drop || self == Self::Pass || self
            == Self::Reinjection
    }

    pub open spec fn spec_is_protocol(self) -> bool {
        self == Self::Ipv4 || self == Self::Ipv6 || self == Self::Tcp || self == Self::Udp || self
            == Self::Icmp || self == Self::IcmpV6 || self == Self::NetworkLayer || self
            == Self::L2Capture || self == Self::RawEthernet
    }

    pub open spec fn spec_is_network_state(self) -> bool {
        self == Self::InterfaceInfo || self == Self::RouteInfo || self == Self::NeighborInfo
            || self == Self::GatewayInfo || self == Self::AdapterEnumeration
    }

    pub open spec fn spec_is_diagnostic(self) -> bool {
        self == Self::Diagnostics || self == Self::Telemetry
    }

    /// Every ABI value decodes back to the capability it encodes.
    pub proof fn lemma_key_round_trip(self)
        ensures
            Self::spec_from_u16(self.spec_key()) == Some(self),
    {
    }

    /// Two capabilities with the same ABI value are the same capability.
    pub proof fn lemma_key_injective(a: Self, b: Self)
        ensures
            a.spec_key() == b.spec_key() ==> a == b,
    {
        a.lemma_key_round_trip();
        b.lemma_key_round_trip();
    }

    /// The stable name of this capability.
    pub fn as_str(self) -> (r: &'static str)
        ensures
            r@ == self.spec_name(),
    {
        match self {
            Self::Capture => "capture",
            Self::Interception => "interception",
            Self::Filtering => "filtering",
            Self::Inspection => "inspection",
            Self::Direction => "direction",
            Self::Ipv4 => "ipv4",
            Self::Ipv6 => "ipv6",
            Self::Tcp => "tcp",
            Self::Udp => "udp",
            Self::Icmp => "icmp",
            Self::IcmpV6 => "icmpv6",
            Self::NetworkLayer => "network_layer",
            Self::AddressMetadata => "address_metadata",
            Self::Modification => "modification",
            Self::Drop => "drop",
            Self::Pass => "pass",
            Self::Reinjection => "reinjection",
            Self::QueueControl => "queue_control",
            Self::HandleLifetime => "handle_lifetime",
            Self::ErrorReporting => "error_reporting",
            Self::L2Capture => "l2_capture",
            Self::RawEthernet => "raw_ethernet",
            Self::AdapterEnumeration => "adapter_enumeration",
            Self::WfpEngineAccess => "wfp_engine_access",
            Self::WfpFilters => "wfp_filters",
            Self::WfpLayers => "wfp_layers",
            Self::WfpFlows => "wfp_flows",
            Self::InterfaceInfo => "interface_info",
            Self::RouteInfo => "route_info",
            Self::NeighborInfo => "neighbor_info",
            Self::GatewayInfo => "gateway_info",
            Self::Diagnostics => "diagnostics",
            Self::Telemetry => "telemetry",
            Self::Forwarding => "forwarding",
            Self::NatState => "nat_state",
        }
    }

    /// Stable ordering key used for deterministic serialization, logging
    /// and snapshots.
    pub fn sort_key(self) -> (r: u16)
        ensures
            r == self.spec_key(),
    {
        match self {
            Self::Capture => 0,
            Self::Interception => 1,
            Self::Filtering => 2,
            Self::Inspection => 3,
            Self::Direction => 4,
            Self::Ipv4 => 10,
            Self::Ipv6 => 11,
            Self::Tcp => 12,
            Self::Udp => 13,
            Self::Icmp => 14,
            Self::IcmpV6 => 15,
            Self::NetworkLayer => 20,
            Self::AddressMetadata => 21,
            Self::Modification => 30,
            Self::Drop => 31,
            Self::Pass => 32,
            Self::Reinjection => 33,
            Self::QueueControl => 40,
            Self::HandleLifetime => 41,
            Self::ErrorReporting => 42,
            Self::L2Capture => 50,
            Self::RawEthernet => 51,
            Self::AdapterEnumeration => 52,
            Self::WfpEngineAccess => 60,
            Self::WfpFilters => 61,
            Self::WfpLayers => 62,
            Self::WfpFlows => 63,
            Self::InterfaceInfo => 70,
            Self::RouteInfo => 71,
            Self::NeighborInfo => 72,
            Self::GatewayInfo => 73,
            Self::Diagnostics => 80,
            Self::Telemetry => 81,
            Self::Forwarding => 90,
            Self::NatState => 91,
        }
    }

    /// True when the capability represents packet observation.
    pub fn is_observation(self) -> (r: bool)
        ensures
            r == self.spec_is_observation(),
    {
        matches!(self, Self::Capture | Self::Interception | Self::Inspection | Self::Direction)
    }

    /// True when the capability represents a packet action.
    pub fn is_action(self) -> (r: bool)
        ensures
            r == self.spec_is_action(),
    {
        matches!(self, Self::Modification | Self::Drop | Self::Pass | Self::Reinjection)
    }

    /// True for the Engine-owned forwarding capability.
    pub fn is_engine_forwarding(self) -> (r: bool)
        ensures
            r == (self == Self::Forwarding),
    {
        matches!(self, Self::Forwarding)
    }

    /// True for the Engine-owned NAT-state capability.
    pub fn is_engine_nat_state(self) -> (r: bool)
        ensures
            r == (self == Self::NatState),
    {
        matches!(self, Self::NatState)
    }

    /// True when the capability is protocol/layer related.
    pub fn is_protocol(self) -> (r: bool)
        ensures
            r == self.spec_is_protocol(),
    {
        matches!(
            self,
            Self::Ipv4 | Self::Ipv6 | Self::Tcp | Self::Udp | Self::Icmp | Self::IcmpV6
                | Self::NetworkLayer | Self::L2Capture | Self::RawEthernet
        )
    }

    /// True when the capability is primarily network-state related.
    pub fn is_network_state(self) -> (r: bool)
        ensures
            r == self.spec_is_network_state(),
    {
        matches!(
            self,
            Self::InterfaceInfo | Self::RouteInfo | Self::NeighborInfo | Self::GatewayInfo
                | Self::AdapterEnumeration
        )
    }

    /// True when the capability is diagnostic/observability related.
    pub fn is_diagnostic(self) -> (r: bool)
        ensures
            r == self.spec_is_diagnostic(),
    {
        matches!(self, Self::Diagnostics | Self::Telemetry)
    }

    /// Resolves a capability from its stable numeric ABI value.
    pub fn from_u16(value: u16) -> (r: Option<Self>)
        ensures
            r == Self::spec_from_u16(value),
    {
        match value {
            0 => Some(Self::Capture),
            1 => Some(Self::Interception),
            2 => Some(Self::Filtering),
            3 => Some(Self::Inspection),
            4 => Some(Self::Direction),
            10 => Some(Self::Ipv4),
            11 => Some(Self::Ipv6),
            12 => Some(Self::Tcp),
            13 => Some(Self::Udp),
            14 => Some(Self::Icmp),
            15 => Some(Self::IcmpV6),
            20 => Some(Self::NetworkLayer),
            21 => Some(Self::AddressMetadata),
            30 => Some(Self::Modification),
            31 => Some(Self::Drop),
            32 => Some(Self::Pass),
            33 => Some(Self::Reinjection),
            40 => Some(Self::QueueControl),
            41 => Some(Self::HandleLifetime),
            42 => Some(Self::ErrorReporting),
            50 => Some(Self::L2Capture),
            51 => Some(Self::RawEthernet),
            52 => Some(Self::AdapterEnumeration),
            60 => Some(Self::WfpEngineAccess),
            61 => Some(Self::WfpFilters),
            62 => Some(Self::WfpLayers),
            63 => Some(Self::WfpFlows),
            70 => Some(Self::InterfaceInfo),
            71 => Some(Self::RouteInfo),
            72 => Some(Self::NeighborInfo),
            73 => Some(Self::GatewayInfo),
            80 => Some(Self::Diagnostics),
            81 => Some(Self::Telemetry),
            90 => Some(Self::Forwarding),
            91 => Some(Self::NatState),
            _ => None,
        }
    }

    /// Every known capability in deterministic (ABI value) order.
    pub fn all_known() -> (r: Vec<BackendCapability>)
        ensures
            strictly_sorted(r@),
            forall|c: BackendCapability| r@.contains(c),
            r@.len() == 35,
    {
        let r = vec![
            Self::Capture,
            Self::Interception,
            Self::Filtering,
            Self::Inspection,
            Self::Direction,
            Self::Ipv4,
            Self::Ipv6,
            Self::Tcp,
            Self::Udp,
            Self::Icmp,
            Self::IcmpV6,
            Self::NetworkLayer,
            Self::AddressMetadata,
            Self::Modification,
            Self::Drop,
            Self::Pass,
            Self::Reinjection,
            Self::QueueControl,
            Self::HandleLifetime,
            Self::ErrorReporting,
            Self::L2Capture,
            Self::RawEthernet,
            Self::AdapterEnumeration,
            Self::WfpEngineAccess,
            Self::WfpFilters,
            Self::WfpLayers,
            Self::WfpFlows,
            Self::InterfaceInfo,
            Self::RouteInfo,
            Self::NeighborInfo,
            Self::GatewayInfo,
            Self::Diagnostics,
            Self::Telemetry,
            Self::Forwarding,
            Self::NatState,
        ];
        assert forall|c: BackendCapability| r@.contains(c) by {
            match c {
                BackendCapability::Capture => assert(r@[0] == c),
                BackendCapability::Interception => assert(r@[1] == c),
                BackendCapability::Filtering => assert(r@[2] == c),
                BackendCapability::Inspection => assert(r@[3] == c),
                BackendCapability::Direction => assert(r@[4] == c),
                BackendCapability::Ipv4 => assert(r@[5] == c),
                BackendCapability::Ipv6 => assert(r@[6] == c),
                BackendCapability::Tcp => assert(r@[7] == c),
                BackendCapability::Udp => assert(r@[8] == c),
                BackendCapability::Icmp => assert(r@[9] == c),
                BackendCapability::IcmpV6 => assert(r@[10] == c),
                BackendCapability::NetworkLayer => assert(r@[11] == c),
                BackendCapability::AddressMetadata => assert(r@[12] == c),
                BackendCapability::Modification => assert(r@[13] == c),
                BackendCapability::Drop => assert(r@[14] == c),
                BackendCapability::Pass => assert(r@[15] == c),
                BackendCapability::Reinjection => assert(r@[16] == c),
                BackendCapability::QueueControl => assert(r@[17] == c),
                BackendCapability::HandleLifetime => assert(r@[18] == c),
                BackendCapability::ErrorReporting => assert(r@[19] == c),
                BackendCapability::L2Capture => assert(r@[20] == c),
                BackendCapability::RawEthernet => assert(r@[21] == c),
                BackendCapability::AdapterEnumeration => assert(r@[22] == c),
                BackendCapability::WfpEngineAccess => assert(r@[23] == c),
                BackendCapability::WfpFilters => assert(r@[24] == c),
                BackendCapability::WfpLayers => assert(r@[25] == c),
                BackendCapability::WfpFlows => assert(r@[26] == c),
                BackendCapability::InterfaceInfo => assert(r@[27] == c),
                BackendCapability::RouteInfo => assert(r@[28] == c),
                BackendCapability::NeighborInfo => assert(r@[29] == c),
                BackendCapability::GatewayInfo => assert(r@[30] == c),
                BackendCapability::Diagnostics => assert(r@[31] == c),
                BackendCapability::Telemetry => assert(r@[32] == c),
                BackendCapability::Forwarding => assert(r@[33] == c),
                BackendCapability::NatState => assert(r@[34] == c),
            }
        }
        r
    }
}

/// Strictly increasing ABI values: a duplicate-free sequence in canonical
/// order.
pub open spec fn strictly_sorted(s: Seq<BackendCapability>) -> bool {
    forall|i: int, j: int| 0 <= i < j < s.len() ==> s[i].spec_key() < s[j].spec_key()
}

/// Non-decreasing ABI values.
pub open spec fn sorted_by_key(s: Seq<BackendCapability>) -> bool {
    forall|i: int, j: int| 0 <= i <= j < s.len() ==> s[i].spec_key() <= s[j].spec_key()
}

pub proof fn lemma_strictly_sorted_no_duplicates(s: Seq<BackendCapability>)
    requires
        strictly_sorted(s),
    ensures
        s.no_duplicates(),
        s.to_set().len() == s.len(),
{
    assert(s.no_duplicates());
    s.unique_seq_to_set();
}

/// Inserting into a sequence adds exactly one occurrence to its multiset.
pub proof fn lemma_insert_to_multiset<A>(s: Seq<A>, i: int, x: A)
    requires
        0 <= i <= s.len(),
    ensures
        s.insert(i, x).to_multiset() =~= s.to_multiset().insert(x),
{
    let t = s.insert(i, x);
    assert(t.remove(i) =~= s);
    assert(t[i] == x);
    assert(t.to_multiset().count(x) > 0) by {
        assert(t.contains(x));
    }
    assert(t.to_multiset() =~= t.to_multiset().remove(x).insert(x));
}

/// Set of capabilities declared for a backend.
///
/// The set is held as its elements in strictly increasing ABI order, so
/// every listing of it is deterministic.
#[derive(Debug, PartialEq, Eq)]
pub struct CapabilitySet {
    capabilities: Vec<BackendCapability>,
}

impl View for CapabilitySet {
    type V = Set<BackendCapability>;

    closed spec fn view(&self) -> Set<BackendCapability> {
        self.capabilities@.to_set()
    }
}

impl Clone for CapabilitySet {
    fn clone(&self) -> (r: Self)
        ensures
            r@ == self@,
            r.elems() == self.elems(),
    {
        proof {
            use_type_invariant(self);
        }
        CapabilitySet { capabilities: self.capabilities.clone() }
    }
}

impl Default for CapabilitySet {
    fn default() -> (r: Self)
        ensures
            r@ == Set::<BackendCapability>::empty(),
    {
        Self::new()
    }
}

impl CapabilitySet {
    #[verifier::type_invariant]
    closed spec fn inv(self) -> bool {
        strictly_sorted(self.capabilities@)
    }

    /// The elements of the set in canonical order.
    pub closed spec fn elems(self) -> Seq<BackendCapability> {
        self.capabilities@
    }

    pub fn new() -> (r: Self)
        ensures
            r@ == Set::<BackendCapability>::empty(),
    {
        let r = CapabilitySet { capabilities: Vec::new() };
        assert(r@ =~= Set::<BackendCapability>::empty());
        r
    }

    /// The set of the listed capabilities; duplicates collapse.
    pub fn from(capabilities: &[BackendCapability]) -> (r: Self)
        ensures
            r@ == capabilities@.to_set(),
    {
        let mut set = Self::new();
        let mut i: usize = 0;
        while i < capabilities.len()
            invariant
                i <= capabilities.len(),
                set@ =~= capabilities@.subrange(0, i as int).to_set(),
            decreases capabilities.len() - i,
        {
            set.insert(capabilities[i]);
            proof {
                let sub = capabilities@.subrange(0, i + 1);
                assert(sub =~= capabilities@.subrange(0, i as int) + seq![capabilities@[i as int]]);
                Seq::lemma_to_set_insert_commutes(capabilities@.subrange(0, i as int), capabilities@[i as int]);
            }
            i = i + 1;
        }
        assert(capabilities@.subrange(0, capabilities.len() as int) =~= capabilities@);
        set
    }

    /// Position at which `capability` is, or would be inserted.
    fn position(&self, capability: BackendCapability) -> (r: usize)
        ensures
            r <= self.capabilities@.len(),
            forall|k: int| 0 <= k < r ==> self.capabilities@[k].spec_key() < capability.spec_key(),
            forall|k: int|
                r <= k < self.capabilities@.len() ==> self.capabilities@[k].spec_key()
                    >= capability.spec_key(),
    {
        proof {
            use_type_invariant(self);
        }
        let key = capability.sort_key();
        let mut i: usize = 0;
        while i < self.capabilities.len() && self.capabilities[i].sort_key() < key
            invariant
                i <= self.capabilities@.len(),
                strictly_sorted(self.capabilities@),
                key == capability.spec_key(),
                forall|k: int| 0 <= k < i ==> self.capabilities@[k].spec_key() < key,
            decreases self.capabilities@.len() - i,
        {
            i = i + 1;
        }
        i
    }

    /// Adds a capability; returns `true` when it was not already present.
    pub fn insert(&mut self, capability: BackendCapability) -> (r: bool)
        ensures
            r == !old(self)@.contains(capability),
            final(self)@ == old(self)@.insert(capability),
            old(self)@.contains(capability) ==> final(self).elems() == old(self).elems(),
    {
        proof {
            use_type_invariant(&*self);
        }
        let ghost old_caps = self.capabilities@;
        let i = self.position(capability);
        if i < self.capabilities.len() && self.capabilities[i] == capability {
            assert(self@.contains(capability)) by {
                assert(self.capabilities@.contains(capability));
            }
            assert(self@ =~= self@.insert(capability));
            return false;
        }
        proof {
            if old_caps.contains(capability) {
                let k = choose|k: int| 0 <= k < old_caps.len() && old_caps[k] == capability;
                if k < i {
                } else {
                    if k > i {
                        assert(old_caps[i as int].spec_key() < old_caps[k].spec_key());
                    }
                    BackendCapability::lemma_key_injective(old_caps[i as int], capability);
                }
            }
        }
        let mut caps = Vec::new();
        std::mem::swap(&mut caps, &mut self.capabilities);
        caps.insert(i, capability);
        proof {
            let n = caps@;
            assert(n =~= old_caps.insert(i as int, capability));
            assert forall|a: int, b: int| 0 <= a < b < n.len() implies n[a].spec_key()
                < n[b].spec_key() by {
                if a < i && b > i {
                    assert(n[b] == old_caps[b - 1]);
                } else if a > i {
                    assert(n[a] == old_caps[a - 1]);
                    assert(n[b] == old_caps[b - 1]);
                } else if a == i {
                    assert(n[b] == old_caps[b - 1]);
                    if b - 1 > i {
                        assert(old_caps[i as int].spec_key() < old_caps[b - 1].spec_key());
                    }
                    if old_caps[b - 1].spec_key() == capability.spec_key() {
                        BackendCapability::lemma_key_injective(old_caps[b - 1], capability);
                    }
                }
            }
            assert forall|c: BackendCapability| #[trigger] n.contains(c) <==> old_caps.contains(c)
                || c == capability by {
                if n.contains(c) {
                    let k = choose|k: int| 0 <= k < n.len() && n[k] == c;
                    if k < i {
                        assert(old_caps[k] == c);
                    } else if k > i {
                        assert(old_caps[k - 1] == c);
                    }
                }
                if old_caps.contains(c) {
                    let k = choose|k: int| 0 <= k < old_caps.len() && old_caps[k] == c;
                    if k < i {
                        assert(n[k] == c);
                    } else {
                        assert(n[k + 1] == c);
                    }
                }
                if c == capability {
                    assert(n[i as int] == c);
                }
            }
        }
        self.capabilities = caps;
        assert(self@ =~= old_caps.to_set().insert(capability));
        true
    }

    /// Removes a capability; returns `true` when it was present.
    pub fn remove(&mut self, capability: BackendCapability) -> (r: bool)
        ensures
            r == old(self)@.contains(capability),
            final(self)@ == old(self)@.remove(capability),
    {
        proof {
            use_type_invariant(&*self);
        }
        let ghost old_caps = self.capabilities@;
        let i = self.position(capability);
        if i < self.capabilities.len() && self.capabilities[i] == capability {
            let mut caps = Vec::new();
            std::mem::swap(&mut caps, &mut self.capabilities);
            caps.remove(i);
            proof {
                let n = caps@;
                assert(n =~= old_caps.remove(i as int));
                assert forall|a: int, b: int| 0 <= a < b < n.len() implies n[a].spec_key()
                    < n[b].spec_key() by {
                    if a >= i {
                        assert(n[a] == old_caps[a + 1]);
                    }
                    if b >= i {
                        assert(n[b] == old_caps[b + 1]);
                    }
                }
                assert forall|c: BackendCapability| #[trigger] n.contains(c) <==> old_caps.contains(c)
                    && c != capability by {
                    if n.contains(c) {
                        let k = choose|k: int| 0 <= k < n.len() && n[k] == c;
                        if k < i {
                            assert(old_caps[k] == c);
                            assert(old_caps[k].spec_key() < old_caps[i as int].spec_key());
                        } else {
                            assert(old_caps[k + 1] == c);
                            assert(old_caps[i as int].spec_key() < old_caps[k + 1].spec_key());
                        }
                    }
                    if old_caps.contains(c) && c != capability {
                        let k = choose|k: int| 0 <= k < old_caps.len() && old_caps[k] == c;
                        if k < i {
                            assert(n[k] == c);
                        } else {
                            assert(k != i);
                            assert(n[k - 1] == c);
                        }
                    }
                }
            }
            self.capabilities = caps;
            assert(self@ =~= old_caps.to_set().remove(capability));
            true
        } else {
            proof {
                if old_caps.contains(capability) {
                    let k = choose|k: int| 0 <= k < old_caps.len() && old_caps[k] == capability;
                    if k > i {
                        assert(old_caps[i as int].spec_key() < old_caps[k].spec_key());
                        BackendCapability::lemma_key_injective(old_caps[i as int], capability);
                    }
                }
            }
            assert(self@ =~= self@.remove(capability));
            false
        }
    }

    pub fn contains(&self, capability: BackendCapability) -> (r: bool)
        ensures
            r == self@.contains(capability),
    {
        proof {
            use_type_invariant(self);
        }
        let i = self.position(capability);
        if i < self.capabilities.len() && self.capabilities[i] == capability {
            assert(self.capabilities@.contains(capability));
            true
        } else {
            proof {
                if self.capabilities@.contains(capability) {
                    let k = choose|k: int|
                        0 <= k < self.capabilities@.len() && self.capabilities@[k] == capability;
                    if k > i {
                        assert(self.capabilities@[i as int].spec_key()
                            < self.capabilities@[k].spec_key());
                        BackendCapability::lemma_key_injective(
                            self.capabilities@[i as int],
                            capability,
                        );
                    }
                }
            }
            false
        }
    }

    pub fn is_empty(&self) -> (r: bool)
        ensures
            r == (self@.len() == 0),
    {
        proof {
            use_type_invariant(self);
            lemma_strictly_sorted_no_duplicates(self.capabilities@);
        }
        self.capabilities.len() == 0
    }

    pub fn len(&self) -> (r: usize)
        ensures
            r == self@.len(),
    {
        proof {
            use_type_invariant(self);
            lemma_strictly_sorted_no_duplicates(self.capabilities@);
        }
        self.capabilities.len()
    }

    pub fn clear(&mut self)
        ensures
            final(self)@ == Set::<BackendCapability>::empty(),
    {
        self.capabilities = Vec::new();
        assert(self@ =~= Set::<BackendCapability>::empty());
    }

    /// The members in canonical order, as a slice.
    pub fn iter(&self) -> (r: &[BackendCapability])
        ensures
            r@ == self.elems(),
            strictly_sorted(r@),
            r@.to_set() == self@,
    {
        proof {
            use_type_invariant(self);
        }
        self.capabilities.as_slice()
    }

    /// A deterministic capability list: every member once, by ABI value.
    pub fn to_vec(&self) -> (r: Vec<BackendCapability>)
        ensures
            strictly_sorted(r@),
            r@.to_set() == self@,
            r@ == self.elems(),
    {
        proof {
            use_type_invariant(self);
        }
        self.capabilities.clone()
    }

    /// True when every listed capability is a member.
    pub fn supports_all(&self, required: &[BackendCapability]) -> (r: bool)
        ensures
            r == (forall|i: int| 0 <= i < required@.len() ==> self@.contains(#[trigger] required@[i])),
    {
        let mut i: usize = 0;
        while i < required.len()
            invariant
                i <= required@.len(),
                forall|k: int| 0 <= k < i ==> self@.contains(#[trigger] required@[k]),
            decreases required@.len() - i,
        {
            if !self.contains(required[i]) {
                return false;
            }
            i = i + 1;
        }
        true
    }

    /// True when at least one listed capability is a member.
    pub fn supports_any(&self, required: &[BackendCapability]) -> (r: bool)
        ensures
            r == (exists|i: int| 0 <= i < required@.len() && self@.contains(#[trigger] required@[i])),
    {
        let mut i: usize = 0;
        while i < required.len()
            invariant
                i <= required@.len(),
                forall|k: int| 0 <= k < i ==> !self@.contains(#[trigger] required@[k]),
            decreases required@.len() - i,
        {
            if self.contains(required[i]) {
                return true;
            }
            i = i + 1;
        }
        false
    }
}

/// A capability requirement supplied to the Engine.
#[derive(Debug, Clone, Copy, PartialEq, Eq, Structural)]
pub struct CapabilityRequirement {
    pub capability: BackendCapability,
    pub required: bool,
}

impl CapabilityRequirement {
    pub fn required(capability: BackendCapability) -> (r: Self)
        ensures
            r.capability == capability,
            r.required,
    {
        CapabilityRequirement { capability, required: true }
    }

    pub fn optional(capability: BackendCapability) -> (r: Self)
        ensures
            r.capability == capability,
            !r.required,
    {
        CapabilityRequirement { capability, required: false }
    }
}

/// Result of validating a capability requirement set.
#[derive(Debug, Clone, PartialEq, Eq)]
pub struct CapabilityCheck {
    pub supported: bool,
    pub missing_required: Vec<BackendCapability>,
    pub missing_optional: Vec<BackendCapability>,
}

impl CapabilityCheck {
    pub fn is_satisfied(&self) -> (r: bool)
        ensures
            r == (self.missing_required@.len() == 0),
    {
        self.missing_required.len() == 0
    }

    pub fn has_optional_degradation(&self) -> (r: bool)
        ensures
            r == (self.missing_optional@.len() > 0),
    {
        self.missing_optional.len() != 0
    }
}

/// The capabilities of the requirements that `available` lacks and whose
/// `required` flag equals `required`, in requirement order.
pub open spec fn missing_of(
    available: Set<BackendCapability>,
    requirements: Seq<CapabilityRequirement>,
    required: bool,
) -> Seq<BackendCapability>
    decreases requirements.len(),
{
    if requirements.len() == 0 {
        Seq::empty()
    } else {
        let rest = missing_of(available, requirements.drop_last(), required);
        let r = requirements.last();
        if !available.contains(r.capability) && r.required == required {
            rest.push(r.capability)
        } else {
            rest
        }
    }
}

/// Every required capability of `requirements` is in `available`.
pub open spec fn requirements_met(
    available: Set<BackendCapability>,
    requirements: Seq<CapabilityRequirement>,
) -> bool {
    forall|i: int|
        0 <= i < requirements.len() && (#[trigger] requirements[i]).required ==> available.contains(
            requirements[i].capability,
        )
}

/// Nothing required is missing exactly when the requirements are met.
pub proof fn lemma_missing_required_empty(
    available: Set<BackendCapability>,
    requirements: Seq<CapabilityRequirement>,
)
    ensures
        (missing_of(available, requirements, true).len() == 0) == requirements_met(
            available,
            requirements,
        ),
    decreases requirements.len(),
{
    if requirements.len() > 0 {
        let rest = requirements.drop_last();
        let last = requirements.last();
        lemma_missing_required_empty(available, rest);
        let missing_last = !available.contains(last.capability) && last.required;
        if requirements_met(available, requirements) {
            assert forall|i: int| 0 <= i < rest.len() && (#[trigger] rest[i]).required implies available.contains(
                rest[i].capability,
            ) by {
                assert(rest[i] == requirements[i]);
            }
            assert(requirements[requirements.len() - 1] == last);
        } else {
            let i = choose|i: int|
                0 <= i < requirements.len() && (#[trigger] requirements[i]).required
                    && !available.contains(requirements[i].capability);
            if i < requirements.len() - 1 {
                assert(rest[i] == requirements[i]);
                assert(!requirements_met(available, rest));
            } else {
                assert(missing_last);
            }
        }
        if requirements_met(available, rest) && !missing_last {
            assert forall|i: int| 0 <= i < requirements.len() && (#[trigger] requirements[i]).required implies available.contains(
                requirements[i].capability,
            ) by {
                if i < requirements.len() - 1 {
                    assert(rest[i] == requirements[i]);
                }
            }
        }
    }
}

/// A single required capability is met exactly when it is available.
pub proof fn lemma_requirements_met_single(
    available: Set<BackendCapability>,
    requirements: Seq<CapabilityRequirement>,
    capability: BackendCapability,
)
    requires
        requirements == seq![CapabilityRequirement { capability, required: true }],
    ensures
        requirements_met(available, requirements) == available.contains(capability),
{
    assert(requirements[0] == CapabilityRequirement { capability, required: true });
}

/// `v` with `c` inserted after every element of no greater ABI value,
/// keeping `v` sorted.
fn insert_sorted(v: &mut Vec<BackendCapability>, c: BackendCapability)
    requires
        sorted_by_key(old(v)@),
    ensures
        sorted_by_key(final(v)@),
        final(v)@.to_multiset() == old(v)@.to_multiset().insert(c),
{
    let key = c.sort_key();
    let mut i: usize = 0;
    while i < v.len() && v[i].sort_key() <= key
        invariant
            i <= v@.len(),
            key == c.spec_key(),
            forall|k: int| 0 <= k < i ==> v@[k].spec_key() <= key,
        decreases v@.len() - i,
    {
        i = i + 1;
    }
    let ghost o = v@;
    v.insert(i, c);
    proof {
        lemma_insert_to_multiset(o, i as int, c);
        let n = v@;
        assert forall|a: int, b: int| 0 <= a <= b < n.len() implies n[a].spec_key()
            <= n[b].spec_key() by {
            if a < i && b > i {
                assert(n[b] == o[b - 1]);
            } else if a > i {
                assert(n[a] == o[a - 1]);
                assert(n[b] == o[b - 1]);
            } else if a == i && b > i {
                assert(n[b] == o[b - 1]);
                if b - 1 > i {
                    assert(o[i as int].spec_key() <= o[b - 1].spec_key());
                }
            }
        }
    }
}

/// Checks a capability set against a requirement list.
///
/// Missing optional capabilities do not fail the check. Each list of
/// missing capabilities holds the missing requirements' capabilities in
/// ABI order (a requirement listed twice is reported twice).
pub fn check_requirements(
    available: &CapabilitySet,
    requirements: &[CapabilityRequirement],
) -> (r: CapabilityCheck)
    ensures
        sorted_by_key(r.missing_required@),
        sorted_by_key(r.missing_optional@),
        r.missing_required@.to_multiset() == missing_of(available@, requirements@, true).to_multiset(),
        r.missing_optional@.to_multiset() == missing_of(available@, requirements@, false).to_multiset(),
        r.supported == (r.missing_required@.len() == 0),
        r.supported == requirements_met(available@, requirements@),
{
    let mut missing_required: Vec<BackendCapability> = Vec::new();
    let mut missing_optional: Vec<BackendCapability> = Vec::new();
    let mut i: usize = 0;
    while i < requirements.len()
        invariant
            i <= requirements@.len(),
            sorted_by_key(missing_required@),
            sorted_by_key(missing_optional@),
            missing_required@.to_multiset() == missing_of(
                available@,
                requirements@.subrange(0, i as int),
                true,
            ).to_multiset(),
            missing_optional@.to_multiset() == missing_of(
                available@,
                requirements@.subrange(0, i as int),
                false,
            ).to_multiset(),
        decreases requirements@.len() - i,
    {
        let requirement = requirements[i];
        let ghost sub = requirements@.subrange(0, i + 1);
        assert(sub.drop_last() =~= requirements@.subrange(0, i as int));
        if !available.contains(requirement.capability) {
            if requirement.required {
                insert_sorted(&mut missing_required, requirement.capability);
            } else {
                insert_sorted(&mut missing_optional, requirement.capability);
            }
        }
        i = i + 1;
    }
    assert(requirements@.subrange(0, requirements.len() as int) =~= requirements@);
    let supported = missing_required.len() == 0;
    proof {
        vstd::seq_lib::to_multiset_len(missing_required@);
        vstd::seq_lib::to_multiset_len(missing_of(available@, requirements@, true));
        lemma_missing_required_empty(available@, requirements@);
    }
    CapabilityCheck { supported, missing_required, missing_optional }
}

} // verus!
