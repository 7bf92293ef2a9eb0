//! Verified backend coordination for a Windows network engine.
pub mod clock;
pub mod contracts;
pub mod correlation;
pub mod error;
pub mod etw;
pub mod iphelper;
pub mod manager;
pub mod namemap;
pub mod net;
pub mod npcap;
pub mod text;
pub mod wfp;
pub mod windivert;
