//! Correlation of observations: identities, flow keys and a bounded
//! duplicate filter.
pub mod dedup;
pub mod identity;
pub mod matcher;

pub use dedup::DedupFilter;
pub use identity::ObservationIdentity;
pub use matcher::{FlowKey, FlowProtocol, ObservationMatcher, ParsedHeaders, TransportKind};
