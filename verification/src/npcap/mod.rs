//! The Npcap backend: layer-2 capture sessions, devices and metadata.
pub mod adapter;
pub mod capture;
pub mod ffi;
pub mod device;
pub mod metadata;
pub mod backend;

pub use adapter::{AdapterAddress, AdapterInfo, AdapterState, AdapterTable, AdapterTableError, AdapterType};
pub use backend::{NpcapBackend, NpcapBackendState, NpcapError, NpcapObservation};
pub use capture::{CaptureConfig, CaptureDirection, CaptureError, CaptureSession, CaptureState, CapturedPacket};
pub use device::{normalize_device_name, DeviceError, DeviceManager, DeviceState, NpcapDevice};
pub use metadata::{AdapterMetadata, LinkType, MetadataTable, PacketDirection, PacketMetadata};
