use network_engine::manager::health::is_recent;
use network_engine::manager::{BackendHealth, HealthMonitor};
use std::time::Duration;

#[test]
fn default_monitor_starts_unknown() {
    let monitor = HealthMonitor::default();
    assert_eq!(monitor.health(), BackendHealth::Unknown);
    assert_eq!(monitor.failures(), 0);
    assert_eq!(monitor.recoveries(), 0);
}

#[test]
fn success_marks_unknown_backend_healthy() {
    let mut monitor = HealthMonitor::new(3, 2);
    assert_eq!(monitor.record_success(), BackendHealth::Healthy);
    assert!(monitor.health().is_healthy());
    assert_eq!(monitor.failures(), 0);
    assert_eq!(monitor.recoveries(), 1);
}

#[test]
fn failures_degrade_then_fail() {
    let mut monitor = HealthMonitor::new(3, 2);
    assert_eq!(monitor.record_failure(), BackendHealth::Degraded);
    assert_eq!(monitor.record_failure(), BackendHealth::Degraded);
    assert_eq!(monitor.record_failure(), BackendHealth::Unhealthy);
    assert!(monitor.health().is_failed());
    assert_eq!(monitor.failures(), 3);
}

#[test]
fn success_recovers_failed_backend() {
    let mut monitor = HealthMonitor::new(2, 2);
    monitor.record_failure();
    monitor.record_failure();
    assert_eq!(monitor.health(), BackendHealth::Unhealthy);
    assert_eq!(monitor.record_success(), BackendHealth::Degraded);
    assert_eq!(monitor.record_success(), BackendHealth::Healthy);
}

#[test]
fn recovery_requires_consecutive_successes() {
    let mut monitor = HealthMonitor::new(2, 3);
    monitor.record_failure();
    monitor.record_failure();
    assert_eq!(monitor.health(), BackendHealth::Unhealthy);
    assert_eq!(monitor.record_success(), BackendHealth::Degraded);
    assert_eq!(monitor.record_success(), BackendHealth::Degraded);
    assert_eq!(monitor.record_success(), BackendHealth::Healthy);
}

#[test]
fn success_resets_failure_counter() {
    let mut monitor = HealthMonitor::new(3, 2);
    monitor.record_failure();
    monitor.record_failure();
    assert_eq!(monitor.failures(), 2);
    monitor.record_success();
    assert_eq!(monitor.failures(), 0);
}

#[test]
fn failure_resets_recovery_counter() {
    let mut monitor = HealthMonitor::new(3, 2);
    monitor.record_success();
    assert_eq!(monitor.recoveries(), 1);
    monitor.record_failure();
    assert_eq!(monitor.recoveries(), 0);
}

#[test]
fn thresholds_are_at_least_one() {
    let monitor = HealthMonitor::new(0, 0);
    assert_eq!(monitor.failure_threshold(), 1);
    assert_eq!(monitor.recovery_threshold(), 1);
}

#[test]
fn reset_restores_unknown() {
    let mut monitor = HealthMonitor::new(2, 2);
    monitor.record_failure();
    monitor.record_success();
    monitor.reset();
    assert_eq!(monitor.health(), BackendHealth::Unknown);
    assert_eq!(monitor.failures(), 0);
    assert_eq!(monitor.recoveries(), 0);
    assert!(monitor.last_check().is_none());
    assert!(monitor.last_failure().is_none());
    assert!(monitor.last_recovery().is_none());
}

#[test]
fn force_health_works() {
    let mut monitor = HealthMonitor::default();
    monitor.force_health(BackendHealth::Healthy);
    assert_eq!(monitor.health(), BackendHealth::Healthy);
    monitor.force_health(BackendHealth::Unhealthy);
    assert!(monitor.health().is_failed());
    assert_eq!(monitor.failures(), 0);
    assert_eq!(monitor.recoveries(), 0);
}

#[test]
fn recent_check_is_detected() {
    let mut monitor = HealthMonitor::default();
    assert!(!monitor.checked_recently(Duration::from_secs(1)));
    monitor.record_success();
    assert!(monitor.checked_recently(Duration::from_secs(1)));
}

#[test]
fn health_availability() {
    assert!(BackendHealth::Healthy.is_available());
    assert!(BackendHealth::Degraded.is_available());
    assert!(!BackendHealth::Unhealthy.is_available());
    assert!(!BackendHealth::Unknown.is_available());
}

#[test]
fn unknown_success_does_not_require_recovery_threshold() {
    let mut monitor = HealthMonitor::new(3, 10);
    assert_eq!(monitor.record_success(), BackendHealth::Healthy);
    assert!(monitor.health().is_healthy());
}

#[test]
fn failure_after_success_starts_new_failure_sequence() {
    let mut monitor = HealthMonitor::new(3, 2);
    monitor.record_success();
    assert_eq!(monitor.failures(), 0);
    monitor.record_failure();
    assert_eq!(monitor.failures(), 1);
    assert_eq!(monitor.recoveries(), 0);
    assert_eq!(monitor.health(), BackendHealth::Degraded);
}

#[test]
fn success_after_failure_starts_new_recovery_sequence() {
    let mut monitor = HealthMonitor::new(3, 3);
    monitor.record_failure();
    assert_eq!(monitor.health(), BackendHealth::Degraded);
    monitor.record_success();
    assert_eq!(monitor.recoveries(), 1);
    assert_eq!(monitor.failures(), 0);
    assert_eq!(monitor.health(), BackendHealth::Degraded);
    monitor.record_success();
    assert_eq!(monitor.health(), BackendHealth::Degraded);
    monitor.record_success();
    assert_eq!(monitor.health(), BackendHealth::Healthy);
}

#[test]
fn failures_record_their_time() {
    let mut monitor = HealthMonitor::new(1, 1);
    assert!(monitor.last_failure().is_none());
    monitor.record_failure();
    assert!(monitor.last_failure().is_some());
    assert!(monitor.last_check().is_some());
    assert_eq!(monitor.health(), BackendHealth::Unhealthy);
}

#[test]
fn recent_check_needs_a_check_within_the_limit() {
    assert!(!is_recent(None, 10));
    assert!(is_recent(Some(10), 10));
    assert!(!is_recent(Some(11), 10));
    assert!(is_recent(Some(0), 0));
}

#[test]
fn observations_are_counted_in_total() {
    let mut monitor = HealthMonitor::new(10, 10);
    assert_eq!(monitor.failures_seen(), 0);
    assert_eq!(monitor.successes_seen(), 0);
    monitor.record_failure();
    monitor.record_failure();
    monitor.record_success();
    monitor.record_success();
    assert_eq!(monitor.failures(), 0);
    assert_eq!(monitor.failures_seen(), 2);
    assert_eq!(monitor.successes_seen(), 2);
    let ratio = monitor.failures_seen() as f64
        / (monitor.failures_seen() + monitor.successes_seen()) as f64;
    assert!((ratio - 0.5).abs() < f64::EPSILON);
    monitor.reset();
    assert_eq!(monitor.failures_seen(), 0);
    assert_eq!(monitor.successes_seen(), 0);
}
