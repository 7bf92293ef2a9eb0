use network_engine::etw::{
    EtwBackend, EtwError, EtwEvent, EtwEventId, EtwEventKind, EtwProvider, EtwSeverity,
};
use network_engine::etw::provider::severity_to_etw_level;
use network_engine::etw::provider::registration_outcome;
use network_engine::etw::provider::write_outcome;

#[test]
fn severity_has_stable_names() {
    assert_eq!(EtwSeverity::Trace.as_str(), "trace");
    assert_eq!(EtwSeverity::Info.as_str(), "info");
    assert_eq!(EtwSeverity::Critical.as_str(), "critical");
}

#[test]
fn event_is_created_correctly() {
    let event = EtwEvent::new(
        EtwEventId::BACKEND_STARTED,
        EtwEventKind::BackendStarted,
        EtwSeverity::Info,
        100,
        "network-engine",
        "backend started",
    );
    assert_eq!(event.kind, EtwEventKind::BackendStarted);
    assert_eq!(event.severity, EtwSeverity::Info);
    assert_eq!(event.timestamp, 100);
    assert_eq!(event.provider, "network-engine");
    assert_eq!(event.message, "backend started");
    assert_eq!(event.event_id, EtwEventId::BACKEND_STARTED);
}

#[test]
fn diagnostic_event_uses_expected_defaults() {
    let event = EtwEvent::diagnostic(42, "engine", "diagnostic message");
    assert_eq!(event.kind, EtwEventKind::Diagnostic);
    assert_eq!(event.severity, EtwSeverity::Info);
    assert_eq!(event.timestamp, 42);
    assert_eq!(event.event_id, EtwEventId::DIAGNOSTIC);
}

#[test]
fn event_display_is_readable() {
    let event = EtwEvent::new(
        EtwEventId::BACKEND_ERROR,
        EtwEventKind::BackendError,
        EtwSeverity::Error,
        1,
        "wfp",
        "initialization failed",
    );
    assert_eq!(event.to_display_string(), "[error] wfp: initialization failed");
}

#[test]
fn event_ids_are_stable() {
    assert_eq!(EtwEventId::for_kind(EtwEventKind::PacketObserved), EtwEventId::PACKET_OBSERVED);
    assert_eq!(EtwEventId::for_kind(EtwEventKind::BackendError), EtwEventId::BACKEND_ERROR);
}

#[test]
fn event_id_numbers_follow_kind_order() {
    assert_eq!(EtwEventId::PACKET_OBSERVED.value(), 1);
    assert_eq!(EtwEventId::DIAGNOSTIC.value(), 11);
    assert_eq!(EtwEventId::for_kind(EtwEventKind::FilterInstalled).value(), 18);
}

#[test]
fn helper_constructors_pick_kind_and_severity() {
    let e = EtwEvent::backend_failover(5, "manager", "switched");
    assert_eq!(e.kind, EtwEventKind::BackendFailover);
    assert_eq!(e.severity, EtwSeverity::Warning);
    assert_eq!(e.event_id, EtwEventId::BACKEND_FAILOVER);
    let e = EtwEvent::policy_applied(6, "engine", "policy");
    assert_eq!(e.severity, EtwSeverity::Debug);
    assert_eq!(e.event_id, EtwEventId::POLICY_APPLIED);
    let e = EtwEvent::drop_recorded(7, "engine", "drop");
    assert_eq!(e.severity, EtwSeverity::Warning);
    let e = EtwEvent::capture_started(8, "npcap", "start");
    assert_eq!(e.event_id, EtwEventId::CAPTURE_STARTED);
    assert_eq!(e.to_display_string(), "[info] npcap: start");
}

#[test]
fn backend_starts_and_stops() {
    let provider = EtwProvider::new("network-engine");
    let mut backend = EtwBackend::new(provider);
    assert!(!backend.is_running());
    assert!(backend.start().is_ok());
    assert!(backend.is_running());
    assert!(backend.stop().is_ok());
    assert!(!backend.is_running());
}

#[test]
fn repeated_start_is_safe() {
    let provider = EtwProvider::new("network-engine");
    let mut backend = EtwBackend::new(provider);
    backend.start().unwrap();
    backend.start().unwrap();
    assert!(backend.is_running());
}

#[test]
fn repeated_stop_is_safe() {
    let provider = EtwProvider::new("network-engine");
    let mut backend = EtwBackend::new(provider);
    backend.stop().unwrap();
    backend.stop().unwrap();
    assert!(!backend.is_running());
}

#[test]
fn backend_with_blank_provider_does_not_start() {
    let mut backend = EtwBackend::new(EtwProvider::new("  "));
    assert_eq!(backend.start(), Err(EtwError::InvalidProviderName));
    assert!(!backend.is_running());
    assert!(!backend.provider().is_running());
}

#[test]
fn provider_starts() {
    let mut provider = EtwProvider::new("network-engine");
    assert!(provider.start().is_ok());
    assert!(provider.is_running());
}

#[test]
fn provider_stops() {
    let mut provider = EtwProvider::new("network-engine");
    provider.start().unwrap();
    assert!(provider.stop().is_ok());
    assert!(!provider.is_running());
}

#[test]
fn starting_twice_returns_error() {
    let mut provider = EtwProvider::new("network-engine");
    provider.start().unwrap();
    assert_eq!(provider.start(), Err(EtwError::AlreadyRunning));
}

#[test]
fn stopping_when_not_running_returns_error() {
    let mut provider = EtwProvider::new("network-engine");
    assert_eq!(provider.stop(), Err(EtwError::NotRunning));
}

#[test]
fn empty_provider_name_is_rejected() {
    let mut provider = EtwProvider::new("   ");
    assert_eq!(provider.start(), Err(EtwError::InvalidProviderName));
}

#[test]
fn event_requires_running_provider() {
    let provider = EtwProvider::new("network-engine");
    let result = provider.emit_simple(EtwEventKind::Diagnostic, EtwSeverity::Info, 1, "test");
    assert_eq!(result, Err(EtwError::NotRunning));
}

#[test]
fn valid_event_is_accepted() {
    let mut provider = EtwProvider::new("network-engine");
    provider.start().unwrap();
    let result = provider.emit_simple(EtwEventKind::Diagnostic, EtwSeverity::Info, 1, "test");
    assert!(result.is_ok());
}

#[test]
fn empty_event_message_is_rejected() {
    let mut provider = EtwProvider::new("network-engine");
    provider.start().unwrap();
    let event = EtwEvent::new(
        EtwEventId::DIAGNOSTIC,
        EtwEventKind::Diagnostic,
        EtwSeverity::Info,
        1,
        "network-engine",
        "   ",
    );
    assert_eq!(provider.emit(&event), Err(EtwError::EventRejected));
}

#[test]
fn event_ids_are_available() {
    let provider = EtwProvider::default();
    assert_eq!(provider.event_id(EtwEventKind::PacketObserved), EtwEventId::PACKET_OBSERVED);
}

#[test]
fn default_provider_is_named_after_the_engine() {
    let provider = EtwProvider::default();
    assert_eq!(provider.name(), "network-engine");
    assert!(!provider.is_running());
}

#[test]
fn provider_mut_reaches_the_provider() {
    let mut backend = EtwBackend::default();
    backend.provider_mut().start().unwrap();
    assert!(backend.provider().is_running());
    assert!(!backend.is_running());
}

#[test]
fn severities_map_to_trace_levels() {
    assert_eq!(severity_to_etw_level(EtwSeverity::Critical), 1);
    assert_eq!(severity_to_etw_level(EtwSeverity::Error), 2);
    assert_eq!(severity_to_etw_level(EtwSeverity::Warning), 3);
    assert_eq!(severity_to_etw_level(EtwSeverity::Info), 4);
    assert_eq!(severity_to_etw_level(EtwSeverity::Debug), 5);
    assert_eq!(severity_to_etw_level(EtwSeverity::Trace), 5);
}

#[test]
fn registration_needs_success_and_a_handle() {
    assert_eq!(registration_outcome(0, 42), Ok(42));
    assert_eq!(registration_outcome(5, 42), Err(EtwError::RegistrationFailed));
    assert_eq!(registration_outcome(0, 0), Err(EtwError::RegistrationFailed));
}

#[test]
fn failed_write_rejects_the_event() {
    assert_eq!(write_outcome(0), Ok(()));
    assert_eq!(write_outcome(87), Err(EtwError::EventRejected));
}

#[test]
fn any_number_can_name_an_event() {
    let custom = EtwEventId::from_value(300);
    assert_eq!(custom, EtwEventId::Other(300));
    assert_eq!(custom.value(), 300);
    assert_eq!(EtwEventId::from_value(11), EtwEventId::DIAGNOSTIC);
    assert_eq!(EtwEventId::Other(11), EtwEventId::DIAGNOSTIC);
    assert_ne!(EtwEventId::Other(12), EtwEventId::DIAGNOSTIC);
    assert_eq!(EtwEventId::from_value(0).value(), 0);
}
