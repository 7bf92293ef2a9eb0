use network_engine::npcap::{
    CaptureConfig, CaptureError, CaptureSession, CaptureState, CapturedPacket,
};
use std::time::{Duration, SystemTime};
use network_engine::npcap::capture::ReceiveStep;
use network_engine::npcap::ffi::PcapPkthdr;
use network_engine::npcap::capture::native_open_outcome;

fn running_session(config: CaptureConfig) -> CaptureSession {
    let mut session = CaptureSession::new(config).unwrap();
    session.start("test-device").unwrap();
    session
}

#[test]
fn creates_capture_config() {
    let config = CaptureConfig::new(1);
    assert!(config.is_some());
    assert!(config.unwrap().validate());
}

#[test]
fn rejects_zero_interface() {
    assert!(CaptureConfig::new(0).is_none());
}

#[test]
fn creates_capture_session() {
    let config = CaptureConfig::new(1).unwrap();
    let session = CaptureSession::new(config);
    assert!(session.is_ok());
    assert_eq!(session.unwrap().state(), CaptureState::Stopped);
}

#[test]
fn invalid_config_is_refused() {
    let mut config = CaptureConfig::new(1).unwrap();
    config.snaplen = 0;
    assert_eq!(CaptureSession::new(config).unwrap_err(), CaptureError::InvalidConfiguration);
}

#[test]
fn starts_capture() {
    let session = running_session(CaptureConfig::new(1).unwrap());
    assert!(session.is_running());
}

#[test]
fn cannot_start_twice() {
    let mut session = running_session(CaptureConfig::new(1).unwrap());
    assert_eq!(session.start("test-device"), Err(CaptureError::AlreadyRunning));
}

#[test]
fn blank_device_fails_the_session() {
    let mut session = CaptureSession::new(CaptureConfig::new(1).unwrap()).unwrap();
    assert_eq!(session.start("  "), Err(CaptureError::InterfaceUnavailable));
    assert_eq!(session.state(), CaptureState::Failed);
}

#[test]
fn stops_capture() {
    let mut session = running_session(CaptureConfig::new(1).unwrap());
    session.stop().unwrap();
    assert_eq!(session.state(), CaptureState::Stopped);
}

#[test]
fn cannot_stop_when_stopped() {
    let mut session = CaptureSession::new(CaptureConfig::new(1).unwrap()).unwrap();
    assert_eq!(session.stop(), Err(CaptureError::NotRunning));
}

#[test]
fn creates_captured_packet() {
    let packet = CapturedPacket::new(vec![1, 2, 3, 4], 1);
    assert!(packet.is_some());
    let packet = packet.unwrap();
    assert_eq!(packet.len(), 4);
    assert_eq!(packet.original_length, 4);
}

#[test]
fn creates_captured_packet_with_original_length() {
    let packet = CapturedPacket::with_original_length(vec![1, 2, 3, 4], 1, 8);
    assert!(packet.is_some());
    let packet = packet.unwrap();
    assert_eq!(packet.len(), 4);
    assert_eq!(packet.original_length, 8);
}

#[test]
fn rejects_invalid_original_length() {
    let packet = CapturedPacket::with_original_length(vec![1, 2, 3, 4], 1, 3);
    assert!(packet.is_none());
}

#[test]
fn capture_rejects_empty_packet() {
    let packet = CapturedPacket::new(Vec::new(), 1);
    assert!(packet.is_none());
}

#[test]
fn records_packet_statistics() {
    let mut session = running_session(CaptureConfig::new(1).unwrap());
    let packet = CapturedPacket::new(vec![0u8; 100], 1).unwrap();
    session.record_packet(&packet).unwrap();
    assert_eq!(session.packets_received(), 1);
    assert_eq!(session.bytes_received(), 100);
}

#[test]
fn rejects_packet_from_other_interface() {
    let mut session = running_session(CaptureConfig::new(1).unwrap());
    let packet = CapturedPacket::new(vec![1, 2, 3], 2).unwrap();
    assert_eq!(session.record_packet(&packet), Err(CaptureError::InvalidPacket));
}

#[test]
fn rejects_packet_larger_than_original_length() {
    let mut session = running_session(CaptureConfig::new(1).unwrap());
    let packet = CapturedPacket {
        data: vec![0u8; 100],
        timestamp: SystemTime::now(),
        interface_index: 1,
        original_length: 50,
    };
    assert_eq!(session.record_packet(&packet), Err(CaptureError::InvalidPacket));
}

#[test]
fn rejects_packet_larger_than_snaplen() {
    let mut config = CaptureConfig::new(1).unwrap();
    config.snaplen = 64;
    let mut session = running_session(config);
    let packet = CapturedPacket::new(vec![0u8; 65], 1).unwrap();
    assert_eq!(session.record_packet(&packet), Err(CaptureError::InvalidPacket));
}

#[test]
fn stopped_session_does_not_count_packets() {
    let mut session = CaptureSession::new(CaptureConfig::new(1).unwrap()).unwrap();
    let packet = CapturedPacket::new(vec![1], 1).unwrap();
    assert_eq!(session.record_packet(&packet), Err(CaptureError::NotRunning));
    assert_eq!(session.packets_received(), 0);
}

#[test]
fn statistics_can_be_reset() {
    let mut session = running_session(CaptureConfig::new(1).unwrap());
    let packet = CapturedPacket::new(vec![0u8; 32], 1).unwrap();
    session.record_packet(&packet).unwrap();
    session.reset_statistics();
    assert_eq!(session.packets_received(), 0);
    assert_eq!(session.bytes_received(), 0);
}

#[test]
fn preserves_native_timestamp() {
    let timestamp = SystemTime::UNIX_EPOCH + Duration::from_secs(123);
    let packet = CapturedPacket::from_pcap(vec![1, 2, 3], 1, 3, timestamp).unwrap();
    assert_eq!(packet.timestamp, timestamp);
}

#[test]
fn receive_without_native_handle_times_out() {
    let mut session = running_session(CaptureConfig::new(1).unwrap());
    assert_eq!(session.receive_packet(), Ok(None));
    let mut stopped = CaptureSession::new(CaptureConfig::new(1).unwrap()).unwrap();
    assert_eq!(stopped.receive_packet(), Err(CaptureError::NotRunning));
}

#[test]
fn native_open_needs_a_handle_and_a_direction() {
    assert_eq!(native_open_outcome(true, 0), Ok(()));
    assert_eq!(native_open_outcome(false, 0), Err(CaptureError::InterfaceUnavailable));
    assert_eq!(native_open_outcome(true, -1), Err(CaptureError::InterfaceUnavailable));
}

#[test]
fn valid_packet_step_carries_header_values() {
    let mut session = running_session(CaptureConfig::new(1).unwrap());
    let header = PcapPkthdr { ts_sec: 12, ts_usec: 34, caplen: 60, len: 80 };
    let step = session.begin_receive(1, Some(header), true).unwrap();
    assert_eq!(step, ReceiveStep::Copy { captured: 60, original: 80, secs: 12, micros: 34 });
    assert_eq!(session.state(), CaptureState::Running);
}

#[test]
fn receive_steps_for_each_status() {
    let mut session = running_session(CaptureConfig::new(1).unwrap());
    assert_eq!(session.begin_receive(0, None, false), Ok(ReceiveStep::Idle));
    let bad = PcapPkthdr { ts_sec: 1, ts_usec: 0, caplen: 90, len: 80 };
    assert_eq!(session.begin_receive(1, Some(bad), true), Err(CaptureError::InvalidPacket));
    let early = PcapPkthdr { ts_sec: -1, ts_usec: 0, caplen: 10, len: 10 };
    assert_eq!(session.begin_receive(1, Some(early), true), Err(CaptureError::InvalidPacket));
    assert_eq!(session.state(), CaptureState::Running);
    assert_eq!(session.begin_receive(-1, None, false), Err(CaptureError::ReceiveFailed));
    assert_eq!(session.state(), CaptureState::Failed);
}

#[test]
fn finishing_a_receive_records_the_packet() {
    let mut session = running_session(CaptureConfig::new(1).unwrap());
    let t = SystemTime::UNIX_EPOCH + Duration::from_secs(5);
    let packet = session.finish_receive(vec![1, 2, 3], 10, Some(t)).unwrap().unwrap();
    assert_eq!(packet.data, vec![1, 2, 3]);
    assert_eq!(packet.original_length, 10);
    assert_eq!(packet.timestamp, t);
    assert_eq!(session.packets_received(), 1);
    assert_eq!(session.bytes_received(), 3);
    assert_eq!(session.finish_receive(vec![1], 1, None), Err(CaptureError::InvalidPacket));
    assert_eq!(session.packets_received(), 1);
}
