//! The WinDivert backend: IP-layer interception, packet actions and queues.
pub mod ffi;
pub mod handle;
pub mod capture;
pub mod filter;
pub mod packet;
pub mod queue;
pub mod actions;
pub mod backend;

pub use actions::{drop_packet, pass, recv_packet, reinject, InterceptedPacket, PacketDirection, MAX_PACKET_SIZE};
pub use backend::{WinDivertBackend, WINDIVERT_BACKEND_NAME, WINDIVERT_BACKEND_VERSION};
pub use capture::CaptureConfig;
pub use filter::WinDivertFilter;
pub use handle::{WinDivertConfig, WinDivertError, WinDivertHandle, WinDivertHandleState, WinDivertLayer};
pub use packet::{PacketDirection as QueuePacketDirection, WinDivertPacket};
pub use queue::WinDivertQueue;
