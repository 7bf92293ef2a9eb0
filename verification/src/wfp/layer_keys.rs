//! The WFP layers a filter can name, and how names resolve to them.
use vstd::prelude::*;

use crate::text::{chars_of, lower, lower_eq, trim, trim_str};

verus! {

/// A filtering layer (`FWPM_LAYER_*`).
#[derive(Debug, Clone, Copy, PartialEq, Eq, Structural)]
pub enum WfpLayerKey {
    AleAuthConnectV4,
    AleAuthConnectV6,
    AleAuthRecvAcceptV4,
    AleAuthRecvAcceptV6,
    DatagramDataV4,
    DatagramDataV6,
    InboundTransportV4,
    InboundTransportV6,
    OutboundTransportV4,
    OutboundTransportV6,
    InboundIppacketV4,
    InboundIppacketV6,
    OutboundIppacketV4,
    OutboundIppacketV6,
    IpforwardV4,
    IpforwardV6,
    StreamV4,
    StreamV6,
}

/// The layer a name denotes, ignoring surrounding whitespace and ASCII
/// case; each layer has an underscore and a hyphen spelling.
pub open spec fn spec_resolve(name: Seq<char>) -> Option<WfpLayerKey> {
    let n = lower(trim(name));
    if n == "ale_auth_connect_v4"@ || n == "ale-auth-connect-v4"@ {
        Some(WfpLayerKey::AleAuthConnectV4)
    } else if n == "ale_auth_connect_v6"@ || n == "ale-auth-connect-v6"@ {
        Some(WfpLayerKey::AleAuthConnectV6)
    } else if n == "ale_auth_recv_accept_v4"@ || n == "ale-auth-recv-accept-v4"@ {
        Some(WfpLayerKey::AleAuthRecvAcceptV4)
    } else if n == "ale_auth_recv_accept_v6"@ || n == "ale-auth-recv-accept-v6"@ {
        Some(WfpLayerKey::AleAuthRecvAcceptV6)
    } else if n == "datagram_data_v4"@ || n == "datagram-data-v4"@ {
        Some(WfpLayerKey::DatagramDataV4)
    } else if n == "datagram_data_v6"@ || n == "datagram-data-v6"@ {
        Some(WfpLayerKey::DatagramDataV6)
    } else if n == "inbound_transport_v4"@ || n == "inbound-transport-v4"@ {
        Some(WfpLayerKey::InboundTransportV4)
    } else if n == "inbound_transport_v6"@ || n == "inbound-transport-v6"@ {
        Some(WfpLayerKey::InboundTransportV6)
    } else if n == "outbound_transport_v4"@ || n == "outbound-transport-v4"@ {
        Some(WfpLayerKey::OutboundTransportV4)
    } else if n == "outbound_transport_v6"@ || n == "outbound-transport-v6"@ {
        Some(WfpLayerKey::OutboundTransportV6)
    } else if n == "inbound_ippacket_v4"@ || n == "inbound-ippacket-v4"@ {
        Some(WfpLayerKey::InboundIppacketV4)
    } else if n == "inbound_ippacket_v6"@ || n == "inbound-ippacket-v6"@ {
        Some(WfpLayerKey::InboundIppacketV6)
    } else if n == "outbound_ippacket_v4"@ || n == "outbound-ippacket-v4"@ {
        Some(WfpLayerKey::OutboundIppacketV4)
    } else if n == "outbound_ippacket_v6"@ || n == "outbound-ippacket-v6"@ {
        Some(WfpLayerKey::OutboundIppacketV6)
    } else if n == "ipforward_v4"@ || n == "ip-forward-v4"@ {
        Some(WfpLayerKey::IpforwardV4)
    } else if n == "ipforward_v6"@ || n == "ip-forward-v6"@ {
        Some(WfpLayerKey::IpforwardV6)
    } else if n == "stream_v4"@ || n == "stream-v4"@ {
        Some(WfpLayerKey::StreamV4)
    } else if n == "stream_v6"@ || n == "stream-v6"@ {
        Some(WfpLayerKey::StreamV6)
    } else {
        None
    }
}

/// The layer `name` denotes.
pub fn resolve(name: &str) -> (r: Option<WfpLayerKey>)
    ensures
        r == spec_resolve(name@),
{
    let t = trim_str(name);
    let c = chars_of(t.as_str());
    let s = c.as_slice();
    if lower_eq(s, "ale_auth_connect_v4") || lower_eq(s, "ale-auth-connect-v4") {
        Some(WfpLayerKey::AleAuthConnectV4)
    } else if lower_eq(s, "ale_auth_connect_v6") || lower_eq(s, "ale-auth-connect-v6") {
        Some(WfpLayerKey::AleAuthConnectV6)
    } else if lower_eq(s, "ale_auth_recv_accept_v4") || lower_eq(s, "ale-auth-recv-accept-v4") {
        Some(WfpLayerKey::AleAuthRecvAcceptV4)
    } else if lower_eq(s, "ale_auth_recv_accept_v6") || lower_eq(s, "ale-auth-recv-accept-v6") {
        Some(WfpLayerKey::AleAuthRecvAcceptV6)
    } else if lower_eq(s, "datagram_data_v4") || lower_eq(s, "datagram-data-v4") {
        Some(WfpLayerKey::DatagramDataV4)
    } else if lower_eq(s, "datagram_data_v6") || lower_eq(s, "datagram-data-v6") {
        Some(WfpLayerKey::DatagramDataV6)
    } else if lower_eq(s, "inbound_transport_v4") || lower_eq(s, "inbound-transport-v4") {
        Some(WfpLayerKey::InboundTransportV4)
    } else if lower_eq(s, "inbound_transport_v6") || lower_eq(s, "inbound-transport-v6") {
        Some(WfpLayerKey::InboundTransportV6)
    } else if lower_eq(s, "outbound_transport_v4") || lower_eq(s, "outbound-transport-v4") {
        Some(WfpLayerKey::OutboundTransportV4)
    } else if lower_eq(s, "outbound_transport_v6") || lower_eq(s, "outbound-transport-v6") {
        Some(WfpLayerKey::OutboundTransportV6)
    } else if lower_eq(s, "inbound_ippacket_v4") || lower_eq(s, "inbound-ippacket-v4") {
        Some(WfpLayerKey::InboundIppacketV4)
    } else if lower_eq(s, "inbound_ippacket_v6") || lower_eq(s, "inbound-ippacket-v6") {
        Some(WfpLayerKey::InboundIppacketV6)
    } else if lower_eq(s, "outbound_ippacket_v4") || lower_eq(s, "outbound-ippacket-v4") {
        Some(WfpLayerKey::OutboundIppacketV4)
    } else if lower_eq(s, "outbound_ippacket_v6") || lower_eq(s, "outbound-ippacket-v6") {
        Some(WfpLayerKey::OutboundIppacketV6)
    } else if lower_eq(s, "ipforward_v4") || lower_eq(s, "ip-forward-v4") {
        Some(WfpLayerKey::IpforwardV4)
    } else if lower_eq(s, "ipforward_v6") || lower_eq(s, "ip-forward-v6") {
        Some(WfpLayerKey::IpforwardV6)
    } else if lower_eq(s, "stream_v4") || lower_eq(s, "stream-v4") {
        Some(WfpLayerKey::StreamV4)
    } else if lower_eq(s, "stream_v6") || lower_eq(s, "stream-v6") {
        Some(WfpLayerKey::StreamV6)
    } else {
        None
    }
}

} // verus!
