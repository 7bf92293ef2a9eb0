//! The Windows Filtering Platform backend: engine session, filters, flows
//! and per-packet metadata.
pub mod engine;
pub mod flow;
pub mod metadata;
pub mod filter;
pub mod layer_keys;
pub mod management;
pub mod condition;

pub use engine::{WfpEngine, WfpEngineState};
pub use filter::{WfpAction, WfpFilter, WfpFilterCondition};
pub use flow::{WfpFlow, WfpFlowState};
pub use management::{add_sublayer, remove_sublayer};
pub use metadata::WfpMetadata;

use vstd::prelude::*;

verus! {

pub const WFP_BACKEND_NAME: &'static str = "wfp";

pub const WFP_BACKEND_VERSION: &'static str = "0.1.0";

} // verus!
