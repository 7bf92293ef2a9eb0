use network_engine::error::EngineErrorCode;
use network_engine::wfp::flow::WfpFlowTable;
use network_engine::wfp::{WfpEngine, WfpEngineState, WfpFlow, WfpFlowState};
use network_engine::wfp::engine::{native_open_outcome, table_open_outcome};
use network_engine::wfp::engine::native_close_outcome;
use network_engine::wfp::engine::filter_add_outcome;
use network_engine::error::EngineError;
use network_engine::wfp::engine::{first_close_error, sublayer_install_failure};
use network_engine::wfp::management::{sublayer_add_outcome, sublayer_remove_outcome, FWP_E_ALREADY_EXISTS, FWP_E_NOT_FOUND};
use network_engine::wfp::filter::WfpFilterTable;
use network_engine::wfp::{WfpAction, WfpFilter};

#[test]
fn initial_state_is_closed() {
    let engine = WfpEngine::new();
    assert_eq!(engine.state(), WfpEngineState::Closed);
    assert!(!engine.is_open());
    assert_eq!(engine.native_handle(), None);
    assert!(!engine.sublayer_installed());
}

#[test]
fn valid_transitions() {
    assert!(WfpEngineState::Closed.can_transition_to(WfpEngineState::Opening));
    assert!(WfpEngineState::Opening.can_transition_to(WfpEngineState::Open));
    assert!(WfpEngineState::Open.can_transition_to(WfpEngineState::Closing));
    assert!(WfpEngineState::Closing.can_transition_to(WfpEngineState::Closed));
}

#[test]
fn engine_invalid_transition_is_rejected() {
    assert!(!WfpEngineState::Closed.can_transition_to(WfpEngineState::Open));
    assert!(!WfpEngineState::Opening.can_transition_to(WfpEngineState::Closed));
}

#[test]
fn require_open_fails_when_closed() {
    assert!(WfpEngine::new().require_open().is_err());
}

#[test]
fn non_windows_open_fails_cleanly() {
    let mut engine = WfpEngine::new();
    assert!(engine.open().is_err());
    assert_eq!(engine.state(), WfpEngineState::Failed);
}

#[test]
fn engine_session_opens_and_closes_with_a_handle() {
    let mut engine = WfpEngine::new();
    engine.begin_open().unwrap();
    assert_eq!(engine.state(), WfpEngineState::Opening);
    engine.opened(42).unwrap();
    assert!(engine.is_open());
    assert_eq!(engine.native_handle(), Some(42));
    assert!(engine.require_open().is_ok());
    engine.begin_close().unwrap();
    engine.closed(None).unwrap();
    assert_eq!(engine.state(), WfpEngineState::Closed);
    assert_eq!(engine.native_handle(), None);
}

#[test]
fn creates_flow() {
    let flow = WfpFlow::new(1, 6, 100).unwrap();
    assert_eq!(flow.flow_id, 1);
    assert_eq!(flow.protocol, 6);
    assert_eq!(flow.state, WfpFlowState::New);
}

#[test]
fn invalid_flow_id_is_rejected() {
    assert!(WfpFlow::new(0, 6, 0).is_err());
}

#[test]
fn packet_record_updates_flow() {
    let mut flow = WfpFlow::new(1, 6, 100).unwrap();
    flow.record_packet(100, 200).unwrap();
    flow.record_packet(200, 300).unwrap();
    assert_eq!(flow.packet_count, 2);
    assert_eq!(flow.byte_count, 300);
    assert_eq!(flow.state, WfpFlowState::Established);
    assert_eq!(flow.last_seen_ns, 300);
}

#[test]
fn byte_counter_overflow_is_reported() {
    let mut flow = WfpFlow::new(1, 6, 0).unwrap();
    flow.record_packet(u64::MAX, 1).unwrap();
    let err = flow.record_packet(1, 2).unwrap_err();
    assert_eq!(err.code(), EngineErrorCode::IntegerOverflow);
}

#[test]
fn flow_state_transition() {
    let mut flow = WfpFlow::new(1, 6, 0).unwrap();
    flow.transition(WfpFlowState::Established).unwrap();
    flow.transition(WfpFlowState::Closing).unwrap();
    flow.transition(WfpFlowState::Closed).unwrap();
    assert!(flow.state.is_terminal());
}

#[test]
fn flow_state_numbers_round_trip() {
    for n in 0u8..6 {
        assert!(WfpFlowState::try_from(n).is_ok());
    }
    assert_eq!(WfpFlowState::try_from(2).unwrap(), WfpFlowState::Established);
    assert!(WfpFlowState::try_from(6).is_err());
}

#[test]
fn closed_flow_rejects_packets() {
    let mut flow = WfpFlow::new(1, 6, 0).unwrap();
    flow.close().unwrap();
    assert!(flow.record_packet(100, 100).is_err());
}

#[test]
fn idle_calculation_is_safe() {
    let flow = WfpFlow::new(1, 6, 100).unwrap();
    assert_eq!(flow.age_ns(50), 0);
    assert_eq!(flow.idle_ns(50), 0);
    assert!(flow.is_idle(1_100, 1_000));
}

#[test]
fn flow_table_insert_and_lookup() {
    let mut table = WfpFlowTable::new(10).unwrap();
    let flow = WfpFlow::new(1, 6, 0).unwrap();
    table.insert(flow).unwrap();
    assert_eq!(table.len(), 1);
    assert!(table.contains(1));
    assert_eq!(table.get(1).unwrap().flow_id, 1);
}

#[test]
fn flow_table_rejects_duplicate() {
    let mut table = WfpFlowTable::new(10).unwrap();
    table.insert(WfpFlow::new(1, 6, 0).unwrap()).unwrap();
    assert!(table.insert(WfpFlow::new(1, 17, 0).unwrap()).is_err());
}

#[test]
fn flow_table_respects_capacity() {
    let mut table = WfpFlowTable::new(1).unwrap();
    table.insert(WfpFlow::new(1, 6, 0).unwrap()).unwrap();
    let result = table.insert(WfpFlow::new(2, 6, 0).unwrap());
    assert_eq!(result.unwrap_err().code(), EngineErrorCode::ResourceExhausted);
}

#[test]
fn zero_capacity_table_is_refused() {
    assert_eq!(WfpFlowTable::new(0).unwrap_err().code(), EngineErrorCode::InvalidArgument);
    assert_eq!(WfpFlowTable::with_default_capacity().max_entries(), 100_000);
}

#[test]
fn idle_flows_are_expired() {
    let mut table = WfpFlowTable::new(10).unwrap();
    table.insert(WfpFlow::new(1, 6, 0).unwrap()).unwrap();
    table.insert(WfpFlow::new(2, 6, 900).unwrap()).unwrap();
    let expired = table.expire_idle(1_000, 500);
    assert_eq!(expired, 1);
    assert!(!table.contains(1));
    assert!(table.contains(2));
}

#[test]
fn removed_flow_is_handed_back() {
    let mut table = WfpFlowTable::new(4).unwrap();
    table.insert(WfpFlow::new(9, 6, 0).unwrap()).unwrap();
    assert_eq!(table.remove(9).unwrap().flow_id, 9);
    assert!(table.remove(9).is_none());
    assert!(table.is_empty());
}

#[test]
fn abort_flow() {
    let mut flow = WfpFlow::new(1, 17, 0).unwrap();
    flow.abort().unwrap();
    assert_eq!(flow.state, WfpFlowState::Aborted);
    assert!(flow.state.is_terminal());
}

#[test]
fn engine_open_outcomes() {
    assert_eq!(native_open_outcome(0, 0x40).unwrap(), 0x40);
    let e = native_open_outcome(5, 0x40).unwrap_err();
    assert_eq!(e.code, EngineErrorCode::BackendInitializationFailed);
    assert_eq!(e.native_code, Some(5));
    assert_eq!(e.backend.as_deref(), Some("wfp"));
    assert_eq!(native_open_outcome(0, 0).unwrap_err().code, EngineErrorCode::InvalidHandle);
    assert_eq!(table_open_outcome(0, 0x40).unwrap(), 0x40);
    let e = table_open_outcome(0, 0).unwrap_err();
    assert_eq!(e.code, EngineErrorCode::BackendInitializationFailed);
    assert_eq!(e.native_code, Some(0));
}

#[test]
fn engine_close_outcomes() {
    assert!(native_close_outcome(0x40, 0).is_ok());
    let e = native_close_outcome(0x40, 6).unwrap_err();
    assert_eq!(e.code, EngineErrorCode::BackendShutdownFailed);
    assert_eq!(e.native_code, Some(6));
    assert_eq!(native_close_outcome(0, 0).unwrap_err().code, EngineErrorCode::InvalidHandle);
}

#[test]
fn filter_registration_outcome() {
    assert_eq!(filter_add_outcome(0, 77).unwrap(), 77);
    let e = filter_add_outcome(0x8032_0009, 77).unwrap_err();
    assert_eq!(e.code, EngineErrorCode::BackendStartFailed);
    assert_eq!(e.native_code, Some(0x8032_0009u32 as i32));
}

#[test]
fn sublayer_failures_carry_the_cause() {
    let cause = EngineError::with_message(EngineErrorCode::InternalError, "boom");
    let e = sublayer_install_failure(&cause);
    assert_eq!(e.code, EngineErrorCode::BackendInitializationFailed);
    assert_eq!(e.message, "WFP sublayer install failed: boom");
    let close = EngineError::with_message(EngineErrorCode::InternalError, "close");
    let first = first_close_error(Err(cause.clone()), Err(close.clone())).unwrap();
    assert_eq!(first.code, EngineErrorCode::BackendShutdownFailed);
    assert_eq!(first.message, "WFP sublayer removal failed: boom");
    assert_eq!(first_close_error(Ok(()), Err(close)).unwrap().message, "close");
    assert!(first_close_error(Ok(()), Ok(())).is_none());
}

#[test]
fn sublayer_outcomes() {
    assert!(sublayer_add_outcome(1, 0).is_ok());
    assert!(sublayer_add_outcome(1, FWP_E_ALREADY_EXISTS).is_ok());
    assert_eq!(sublayer_add_outcome(1, 3).unwrap_err().code, EngineErrorCode::BackendInitializationFailed);
    assert_eq!(sublayer_add_outcome(0, 0).unwrap_err().code, EngineErrorCode::InvalidHandle);
    assert!(sublayer_remove_outcome(0, 9).is_ok());
    assert!(sublayer_remove_outcome(1, FWP_E_NOT_FOUND).is_ok());
    assert_eq!(sublayer_remove_outcome(1, 3).unwrap_err().code, EngineErrorCode::BackendShutdownFailed);
}

#[test]
fn filter_table_insertion_checks() {
    let mut table = WfpFilterTable::new();
    assert!(table.begin_initialize().is_ok());
    assert_eq!(table.begin_insert(1).unwrap_err().code, EngineErrorCode::NotInitialized);
    table.attach_engine(0x40).unwrap();
    assert_eq!(table.engine_handle(), Some(0x40));
    assert_eq!(table.begin_initialize().unwrap_err().code, EngineErrorCode::AlreadyInitialized);
    assert_eq!(table.begin_insert(1).unwrap(), 0x40);
    let filter = WfpFilter::new(1, "block", "ale_auth_connect_v4", WfpAction::Block).unwrap();
    table.insert_registered(filter, 900).unwrap();
    assert_eq!(table.begin_insert(1).unwrap_err().code, EngineErrorCode::InvalidArgument);
    assert_eq!(table.get(1).unwrap().kernel_filter_id, 900);
    assert_eq!(table.detach_engine(), Some(0x40));
    assert_eq!(table.engine_handle(), None);
    assert!(table.is_empty());
}

#[test]
fn changed_flow_stays_filed_under_its_id() {
    let mut table = WfpFlowTable::new(4).unwrap();
    table.insert(WfpFlow::new(1, 6, 0).unwrap()).unwrap();
    table.get_mut(1).unwrap().flow_id = 5;
    assert!(table.contains(1));
    assert!(!table.contains(5));
    assert_eq!(table.get(1).unwrap().flow_id, 5);
    assert!(table.insert(WfpFlow::new(5, 6, 0).unwrap()).is_ok());
    assert_eq!(table.len(), 2);
    assert!(table.get_mut(7).is_none());
}

#[test]
fn expiry_counts_each_idle_flow_once() {
    let mut table = WfpFlowTable::new(8).unwrap();
    table.insert(WfpFlow::new(1, 6, 0).unwrap()).unwrap();
    table.insert(WfpFlow::new(2, 6, 100).unwrap()).unwrap();
    table.insert(WfpFlow::new(3, 6, 950).unwrap()).unwrap();
    table.insert(WfpFlow::new(4, 6, 400).unwrap()).unwrap();
    assert_eq!(table.expire_idle(1_000, 600), 3);
    assert_eq!(table.len(), 1);
    assert!(table.contains(3));
    assert_eq!(table.values()[0].flow_id, 3);
    assert_eq!(table.expire_idle(1_000, 600), 0);
}

#[test]
fn default_table_has_no_room() {
    let mut table = WfpFlowTable::default();
    assert_eq!(table.max_entries(), 0);
    let e = table.insert(WfpFlow::new(1, 6, 0).unwrap()).unwrap_err();
    assert_eq!(e.code(), EngineErrorCode::ResourceExhausted);
    assert!(table.is_empty());
}
