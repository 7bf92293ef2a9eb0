//! Textual capture configuration, as the engine supplies it.
use vstd::prelude::*;

use crate::text::{chars_of, lower, lower_eq, trim, trim_str};
use crate::windivert::handle::{validate_filter_ok, WinDivertConfig, WinDivertError, WinDivertLayer};

verus! {

/// The layer a layer name denotes: matched without surrounding whitespace
/// and ignoring ASCII case; the forward layer has three spellings.
pub open spec fn spec_layer_kind(layer: Seq<char>) -> Option<WinDivertLayer> {
    let l = lower(trim(layer));
    if l == "network"@ {
        Some(WinDivertLayer::Network)
    } else if l == "network-forward"@ || l == "network_forward"@ || l == "networkforward"@ {
        Some(WinDivertLayer::NetworkForward)
    } else if l == "flow"@ {
        Some(WinDivertLayer::Flow)
    } else if l == "socket"@ {
        Some(WinDivertLayer::Socket)
    } else if l == "reflect"@ {
        Some(WinDivertLayer::Reflect)
    } else {
        None
    }
}

/// A capture request: filter, layer name and priority.
#[derive(Debug, Clone, PartialEq, Eq)]
pub struct CaptureConfig {
    pub filter: String,
    pub layer: String,
    pub priority: i16,
}

impl Default for CaptureConfig {
    fn default() -> (r: Self)
        ensures
            r.filter@ == trim("true"@),
            r.layer@ == "network"@,
            r.priority == 0,
    {
        Self::new("true")
    }
}

impl CaptureConfig {
    /// The trimmed filter on the network layer at priority 0.
    pub fn new(filter: &str) -> (r: Self)
        ensures
            r.filter@ == trim(filter@),
            r.layer@ == "network"@,
            r.priority == 0,
    {
        CaptureConfig { filter: trim_str(filter), layer: "network".to_owned(), priority: 0 }
    }

    /// Sets the layer name; a blank one is ignored.
    pub fn with_layer(self, layer: &str) -> (r: Self)
        ensures
            r.filter@ == self.filter@,
            r.priority == self.priority,
            r.layer@ == (if trim(layer@).len() == 0 {
                self.layer@
            } else {
                trim(layer@)
            }),
    {
        let mut s = self;
        let trimmed = trim_str(layer);
        if trimmed.as_str().unicode_len() != 0 {
            s.layer = trimmed;
        }
        s
    }

    pub fn with_priority(self, priority: i16) -> (r: Self)
        ensures
            r.filter@ == self.filter@,
            r.layer@ == self.layer@,
            r.priority == priority,
    {
        let mut s = self;
        s.priority = priority;
        s
    }

    /// A non-empty filter and a known layer.
    pub fn is_valid(&self) -> (r: bool)
        ensures
            r == (self.filter@.len() > 0 && self.layer@.len() > 0 && spec_layer_kind(
                self.layer@,
            ) is Some),
    {
        self.filter.as_str().unicode_len() != 0 && self.layer.as_str().unicode_len() != 0
            && self.layer_kind().is_some()
    }

    /// The layer the layer name denotes.
    pub fn layer_kind(&self) -> (r: Option<WinDivertLayer>)
        ensures
            r == spec_layer_kind(self.layer@),
    {
        let trimmed = trim_str(self.layer.as_str());
        let cs = chars_of(trimmed.as_str());
        if lower_eq(cs.as_slice(), "network") {
            Some(WinDivertLayer::Network)
        } else if lower_eq(cs.as_slice(), "network-forward") || lower_eq(
            cs.as_slice(),
            "network_forward",
        ) || lower_eq(cs.as_slice(), "networkforward") {
            Some(WinDivertLayer::NetworkForward)
        } else if lower_eq(cs.as_slice(), "flow") {
            Some(WinDivertLayer::Flow)
        } else if lower_eq(cs.as_slice(), "socket") {
            Some(WinDivertLayer::Socket)
        } else if lower_eq(cs.as_slice(), "reflect") {
            Some(WinDivertLayer::Reflect)
        } else {
            None
        }
    }

    /// The handle configuration: an unknown layer is an invalid operation,
    /// a filter the driver cannot take a filter failure.
    pub fn into_handle_config(self) -> (r: Result<WinDivertConfig, WinDivertError>)
        ensures
            spec_layer_kind(self.layer@) is None ==> r == Err::<WinDivertConfig, WinDivertError>(
                WinDivertError::InvalidOperation,
            ),
            spec_layer_kind(self.layer@) is Some && !validate_filter_ok(self.filter@) ==> r
                == Err::<WinDivertConfig, WinDivertError>(WinDivertError::FilterFailed),
            r is Ok == (spec_layer_kind(self.layer@) is Some && validate_filter_ok(self.filter@)),
            r matches Ok(c) ==> c.filter@ == self.filter@ && c.layer == spec_layer_kind(
                self.layer@,
            )->Some_0 && c.priority == self.priority && !c.sniff_only && !c.send_only,
    {
        let layer = match self.layer_kind() {
            Some(l) => l,
            None => {
                return Err(WinDivertError::InvalidOperation);
            },
        };
        let mut config = WinDivertConfig::new(self.filter.as_str(), layer)?;
        config.priority = self.priority;
        Ok(config)
    }
}

} // verus!
