//! The known backend kinds and the descriptors they declare.
pub mod kind;
pub mod known;

pub use kind::BackendKind;
pub use known::{
    all_known_descriptors, descriptor_for, etw_descriptor, iphelper_descriptor, npcap_descriptor,
    wfp_descriptor, windivert_descriptor,
};
