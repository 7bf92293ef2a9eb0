//! The descriptor that each known backend kind declares.
use vstd::prelude::*;

use crate::contracts::kind::BackendKind;
use crate::manager::backend::{BackendDescriptor, BackendRole};
use crate::manager::capabilities::{BackendCapability, CapabilitySet};
use crate::text::{lemma_trim_unpadded, trim};

verus! {

/// The capabilities a kind declares, in declaration order.
pub open spec fn declared_capabilities(kind: BackendKind) -> Seq<BackendCapability> {
    match kind {
        BackendKind::Npcap => seq![
            BackendCapability::Capture,
            BackendCapability::Inspection,
            BackendCapability::L2Capture,
            BackendCapability::RawEthernet,
            BackendCapability::AdapterEnumeration,
            BackendCapability::AddressMetadata,
            BackendCapability::ErrorReporting,
        ],
        BackendKind::WinDivert => seq![
            BackendCapability::Capture,
            BackendCapability::Interception,
            BackendCapability::Filtering,
            BackendCapability::Inspection,
            BackendCapability::Direction,
            BackendCapability::Ipv4,
            BackendCapability::Ipv6,
            BackendCapability::Tcp,
            BackendCapability::Udp,
            BackendCapability::Icmp,
            BackendCapability::IcmpV6,
            BackendCapability::NetworkLayer,
            BackendCapability::AddressMetadata,
            BackendCapability::Modification,
            BackendCapability::Drop,
            BackendCapability::Pass,
            BackendCapability::Reinjection,
            BackendCapability::QueueControl,
            BackendCapability::HandleLifetime,
            BackendCapability::ErrorReporting,
        ],
        BackendKind::Wfp => seq![
            BackendCapability::Filtering,
            BackendCapability::Inspection,
            BackendCapability::Interception,
            BackendCapability::WfpEngineAccess,
            BackendCapability::WfpFilters,
            BackendCapability::WfpLayers,
            BackendCapability::WfpFlows,
            BackendCapability::AddressMetadata,
            BackendCapability::ErrorReporting,
        ],
        BackendKind::IpHelper => seq![
            BackendCapability::InterfaceInfo,
            BackendCapability::RouteInfo,
            BackendCapability::NeighborInfo,
            BackendCapability::GatewayInfo,
            BackendCapability::AdapterEnumeration,
            BackendCapability::ErrorReporting,
        ],
        BackendKind::Etw => seq![
            BackendCapability::Diagnostics,
            BackendCapability::Telemetry,
            BackendCapability::ErrorReporting,
        ],
    }
}

/// Packet backends are primary; network-state and diagnostics backends
/// supplement them.
pub open spec fn declared_role(kind: BackendKind) -> BackendRole {
    match kind {
        BackendKind::Npcap | BackendKind::WinDivert | BackendKind::Wfp => BackendRole::Primary,
        _ => BackendRole::Supplementary,
    }
}

/// `d` is the descriptor that `kind` declares.
pub open spec fn describes(d: BackendDescriptor, kind: BackendKind) -> bool {
    &&& d.name@ == kind.spec_name()
    &&& d.version@ == "0.1.0"@
    &&& d.description@ == kind.spec_description()
    &&& d.capabilities@ == declared_capabilities(kind).to_set()
    &&& !d.required
    &&& d.role == declared_role(kind)
}

fn build(
    kind: BackendKind,
    capabilities: Vec<BackendCapability>,
    role: BackendRole,
) -> (r: BackendDescriptor)
    requires
        capabilities@ == declared_capabilities(kind),
        role == declared_role(kind),
    ensures
        describes(r, kind),
{
    proof {
        reveal_strlit("npcap");
        reveal_strlit("windivert");
        reveal_strlit("wfp");
        reveal_strlit("iphelper");
        reveal_strlit("etw");
        reveal_strlit("0.1.0");
        reveal_strlit("Npcap Layer-2/raw packet acquisition backend");
        reveal_strlit("WinDivert IP-layer interception and packet-action backend");
        reveal_strlit("Windows Filtering Platform backend");
        reveal_strlit("Windows IP Helper network-state backend");
        reveal_strlit("Windows ETW diagnostics and telemetry backend");
        lemma_trim_unpadded(kind.spec_name());
        lemma_trim_unpadded(kind.spec_description());
        lemma_trim_unpadded("0.1.0"@);
    }
    let set = CapabilitySet::from(capabilities.as_slice());
    BackendDescriptor::new(kind.name(), "0.1.0", kind.description(), set).role(role)
}

pub fn npcap_descriptor() -> (r: BackendDescriptor)
    ensures
        describes(r, BackendKind::Npcap),
{
    build(
        BackendKind::Npcap,
        vec![
            BackendCapability::Capture,
            BackendCapability::Inspection,
            BackendCapability::L2Capture,
            BackendCapability::RawEthernet,
            BackendCapability::AdapterEnumeration,
            BackendCapability::AddressMetadata,
            BackendCapability::ErrorReporting,
        ],
        BackendRole::Primary,
    )
}

pub fn windivert_descriptor() -> (r: BackendDescriptor)
    ensures
        describes(r, BackendKind::WinDivert),
{
    build(
        BackendKind::WinDivert,
        vec![
            BackendCapability::Capture,
            BackendCapability::Interception,
            BackendCapability::Filtering,
            BackendCapability::Inspection,
            BackendCapability::Direction,
            BackendCapability::Ipv4,
            BackendCapability::Ipv6,
            BackendCapability::Tcp,
            BackendCapability::Udp,
            BackendCapability::Icmp,
            BackendCapability::IcmpV6,
            BackendCapability::NetworkLayer,
            BackendCapability::AddressMetadata,
            BackendCapability::Modification,
            BackendCapability::Drop,
            BackendCapability::Pass,
            BackendCapability::Reinjection,
            BackendCapability::QueueControl,
            BackendCapability::HandleLifetime,
            BackendCapability::ErrorReporting,
        ],
        BackendRole::Primary,
    )
}

pub fn wfp_descriptor() -> (r: BackendDescriptor)
    ensures
        describes(r, BackendKind::Wfp),
{
    build(
        BackendKind::Wfp,
        vec![
            BackendCapability::Filtering,
            BackendCapability::Inspection,
            BackendCapability::Interception,
            BackendCapability::WfpEngineAccess,
            BackendCapability::WfpFilters,
            BackendCapability::WfpLayers,
            BackendCapability::WfpFlows,
            BackendCapability::AddressMetadata,
            BackendCapability::ErrorReporting,
        ],
        BackendRole::Primary,
    )
}

pub fn iphelper_descriptor() -> (r: BackendDescriptor)
    ensures
        describes(r, BackendKind::IpHelper),
{
    build(
        BackendKind::IpHelper,
        vec![
            BackendCapability::InterfaceInfo,
            BackendCapability::RouteInfo,
            BackendCapability::NeighborInfo,
            BackendCapability::GatewayInfo,
            BackendCapability::AdapterEnumeration,
            BackendCapability::ErrorReporting,
        ],
        BackendRole::Supplementary,
    )
}

pub fn etw_descriptor() -> (r: BackendDescriptor)
    ensures
        describes(r, BackendKind::Etw),
{
    build(
        BackendKind::Etw,
        vec![
            BackendCapability::Diagnostics,
            BackendCapability::Telemetry,
            BackendCapability::ErrorReporting,
        ],
        BackendRole::Supplementary,
    )
}

/// The descriptor that `kind` declares.
pub fn descriptor_for(kind: BackendKind) -> (r: BackendDescriptor)
    ensures
        describes(r, kind),
{
    match kind {
        BackendKind::Npcap => npcap_descriptor(),
        BackendKind::WinDivert => windivert_descriptor(),
        BackendKind::Wfp => wfp_descriptor(),
        BackendKind::IpHelper => iphelper_descriptor(),
        BackendKind::Etw => etw_descriptor(),
    }
}

/// The descriptors of every kind, in kind order.
pub fn all_known_descriptors() -> (r: Vec<BackendDescriptor>)
    ensures
        r@.len() == BackendKind::spec_all().len(),
        forall|i: int| 0 <= i < r@.len() ==> describes(#[trigger] r@[i], BackendKind::spec_all()[i]),
{
    let kinds = BackendKind::all();
    let mut r: Vec<BackendDescriptor> = Vec::new();
    let mut i: usize = 0;
    while i < kinds.len()
        invariant
            kinds@ == BackendKind::spec_all(),
            i <= kinds@.len(),
            r@.len() == i,
            forall|j: int| 0 <= j < i ==> describes(#[trigger] r@[j], BackendKind::spec_all()[j]),
        decreases kinds@.len() - i,
    {
        r.push(descriptor_for(kinds[i]));
        i = i + 1;
    }
    r
}

} // verus!
