//! Backend health tracking from consecutive success/failure observations.
use vstd::prelude::*;

use crate::clock::{duration_as_nanos, instant_elapsed, instant_now};
use std::time::{Duration, Instant};

verus! {

/// Health of one backend, independent from its lifecycle.
#[derive(Debug, Clone, Copy, PartialEq, Eq, Structural)]
pub enum BackendHealth {
    Unknown,
    Healthy,
    Degraded,
    Unhealthy,
}

impl BackendHealth {
    pub fn is_healthy(self) -> (r: bool)
        ensures
            r == (self == Self::Healthy),
    {
        self == Self::Healthy
    }

    /// Health alone permits use (`Healthy` or `Degraded`).
    pub fn is_available(self) -> (r: bool)
        ensures
            r == (self == Self::Healthy || self == Self::Degraded),
    {
        matches!(self, Self::Healthy | Self::Degraded)
    }

    pub fn is_failed(self) -> (r: bool)
        ensures
            r == (self == Self::Unhealthy),
    {
        self == Self::Unhealthy
    }

    pub fn is_unknown(self) -> (r: bool)
        ensures
            r == (self == Self::Unknown),
    {
        self == Self::Unknown
    }

    pub fn is_degraded(self) -> (r: bool)
        ensures
            r == (self == Self::Degraded),
    {
        self == Self::Degraded
    }
}

/// `x + 1`, saturating at `u64::MAX`.
pub open spec fn sat_inc64(x: u64) -> u64 {
    if x == u64::MAX {
        x
    } else {
        (x + 1) as u64
    }
}

/// `x + 1`, saturating at `u32::MAX`.
pub open spec fn sat_inc(x: u32) -> u32 {
    if x == u32::MAX {
        x
    } else {
        (x + 1) as u32
    }
}

/// Health after one success observation, and the recovery count with it.
pub open spec fn after_success(health: BackendHealth, recoveries: u32, recovery_threshold: u32) -> (
    BackendHealth,
    u32,
) {
    match health {
        BackendHealth::Unknown => (BackendHealth::Healthy, 1),
        BackendHealth::Healthy => (BackendHealth::Healthy, sat_inc(recoveries)),
        _ => {
            let n = sat_inc(recoveries);
            (
                if n >= recovery_threshold {
                    BackendHealth::Healthy
                } else {
                    BackendHealth::Degraded
                },
                n,
            )
        },
    }
}

/// Health after one failure observation, and the failure count with it.
pub open spec fn after_failure(failures: u32, failure_threshold: u32) -> (BackendHealth, u32) {
    let n = sat_inc(failures);
    (
        if n >= failure_threshold {
            BackendHealth::Unhealthy
        } else {
            BackendHealth::Degraded
        },
        n,
    )
}

/// Tracks backend health using consecutive success/failure observations
/// supplied by the backend or the Engine.
#[derive(Debug)]
pub struct HealthMonitor {
    failure_threshold: u32,
    recovery_threshold: u32,
    failures: u32,
    recoveries: u32,
    health: BackendHealth,
    last_check: Option<Instant>,
    last_failure: Option<Instant>,
    last_recovery: Option<Instant>,
    failures_seen: u64,
    successes_seen: u64,
}

impl HealthMonitor {
    #[verifier::type_invariant]
    closed spec fn inv(self) -> bool {
        self.failure_threshold >= 1 && self.recovery_threshold >= 1
    }

    pub closed spec fn spec_health(self) -> BackendHealth {
        self.health
    }

    pub closed spec fn spec_failures(self) -> u32 {
        self.failures
    }

    pub closed spec fn spec_recoveries(self) -> u32 {
        self.recoveries
    }

    /// Failed observations since the monitor was made or last reset.
    pub closed spec fn spec_failures_seen(self) -> u64 {
        self.failures_seen
    }

    /// Successful observations since the monitor was made or last reset.
    pub closed spec fn spec_successes_seen(self) -> u64 {
        self.successes_seen
    }

    pub closed spec fn spec_failure_threshold(self) -> u32 {
        self.failure_threshold
    }

    pub closed spec fn spec_recovery_threshold(self) -> u32 {
        self.recovery_threshold
    }

    pub closed spec fn spec_checked(self) -> bool {
        self.last_check.is_some()
    }

    pub closed spec fn spec_failed_once(self) -> bool {
        self.last_failure.is_some()
    }

    pub closed spec fn spec_recovered_once(self) -> bool {
        self.last_recovery.is_some()
    }

    /// `next` is this monitor after one successful observation.
    pub open spec fn succeeded_to(self, next: HealthMonitor) -> bool {
        &&& (next.spec_health(), next.spec_recoveries()) == after_success(
            self.spec_health(),
            self.spec_recoveries(),
            self.spec_recovery_threshold(),
        )
        &&& next.spec_failures() == 0
        &&& next.spec_failure_threshold() == self.spec_failure_threshold()
        &&& next.spec_recovery_threshold() == self.spec_recovery_threshold()
        &&& next.spec_checked()
        &&& next.spec_recovered_once()
        &&& next.spec_failed_once() == self.spec_failed_once()
        &&& next.spec_successes_seen() == sat_inc64(self.spec_successes_seen())
        &&& next.spec_failures_seen() == self.spec_failures_seen()
    }

    /// `next` is this monitor after one failed observation.
    pub open spec fn failed_to(self, next: HealthMonitor) -> bool {
        &&& (next.spec_health(), next.spec_failures()) == after_failure(
            self.spec_failures(),
            self.spec_failure_threshold(),
        )
        &&& next.spec_recoveries() == 0
        &&& next.spec_failure_threshold() == self.spec_failure_threshold()
        &&& next.spec_recovery_threshold() == self.spec_recovery_threshold()
        &&& next.spec_checked()
        &&& next.spec_failed_once()
        &&& next.spec_recovered_once() == self.spec_recovered_once()
        &&& next.spec_failures_seen() == sat_inc64(self.spec_failures_seen())
        &&& next.spec_successes_seen() == self.spec_successes_seen()
    }

    /// `next` is this monitor with health overridden to `health`.
    pub open spec fn forced_to(self, next: HealthMonitor, health: BackendHealth) -> bool {
        &&& next.spec_health() == health
        &&& next.spec_failures() == 0
        &&& next.spec_recoveries() == 0
        &&& next.spec_failure_threshold() == self.spec_failure_threshold()
        &&& next.spec_recovery_threshold() == self.spec_recovery_threshold()
        &&& next.spec_checked() == self.spec_checked()
        &&& next.spec_failed_once() == self.spec_failed_once()
        &&& next.spec_recovered_once() == self.spec_recovered_once()
        &&& next.spec_failures_seen() == self.spec_failures_seen()
        &&& next.spec_successes_seen() == self.spec_successes_seen()
    }

    /// A monitor in `Unknown` health; thresholds are raised to at least one
    /// so that zero cannot disable a transition.
    pub fn new(failure_threshold: u32, recovery_threshold: u32) -> (r: Self)
        ensures
            r.spec_failure_threshold() == (if failure_threshold >= 1 {
                failure_threshold
            } else {
                1
            }),
            r.spec_recovery_threshold() == (if recovery_threshold >= 1 {
                recovery_threshold
            } else {
                1
            }),
            r.spec_failures() == 0,
            r.spec_recoveries() == 0,
            r.spec_health() == BackendHealth::Unknown,
            !r.spec_checked(),
            !r.spec_failed_once(),
            !r.spec_recovered_once(),
            r.spec_failures_seen() == 0,
            r.spec_successes_seen() == 0,
    {
        HealthMonitor {
            failure_threshold: if failure_threshold >= 1 {
                failure_threshold
            } else {
                1
            },
            recovery_threshold: if recovery_threshold >= 1 {
                recovery_threshold
            } else {
                1
            },
            failures: 0,
            recoveries: 0,
            health: BackendHealth::Unknown,
            last_check: None,
            last_failure: None,
            last_recovery: None,
            failures_seen: 0,
            successes_seen: 0,
        }
    }

    /// Failure threshold 3, recovery threshold 2.
    pub fn with_defaults() -> (r: Self)
        ensures
            r.spec_failure_threshold() == 3,
            r.spec_recovery_threshold() == 2,
            r.spec_failures() == 0,
            r.spec_recoveries() == 0,
            r.spec_health() == BackendHealth::Unknown,
            !r.spec_checked(),
    {
        Self::new(3, 2)
    }

    pub fn health(&self) -> (r: BackendHealth)
        ensures
            r == self.spec_health(),
    {
        self.health
    }

    pub fn failures(&self) -> (r: u32)
        ensures
            r == self.spec_failures(),
    {
        self.failures
    }

    pub fn recoveries(&self) -> (r: u32)
        ensures
            r == self.spec_recoveries(),
    {
        self.recoveries
    }

    /// Failed observations since the monitor was made or last reset.
    pub fn failures_seen(&self) -> (r: u64)
        ensures
            r == self.spec_failures_seen(),
    {
        self.failures_seen
    }

    /// Successful observations since the monitor was made or last reset.
    pub fn successes_seen(&self) -> (r: u64)
        ensures
            r == self.spec_successes_seen(),
    {
        self.successes_seen
    }

    pub fn failure_threshold(&self) -> (r: u32)
        ensures
            r == self.spec_failure_threshold(),
            r >= 1,
    {
        proof {
            use_type_invariant(self);
        }
        self.failure_threshold
    }

    pub fn recovery_threshold(&self) -> (r: u32)
        ensures
            r == self.spec_recovery_threshold(),
            r >= 1,
    {
        proof {
            use_type_invariant(self);
        }
        self.recovery_threshold
    }

    pub fn last_check(&self) -> (r: Option<Instant>)
        ensures
            r.is_some() == self.spec_checked(),
    {
        self.last_check
    }

    pub fn last_failure(&self) -> (r: Option<Instant>)
        ensures
            r.is_some() == self.spec_failed_once(),
    {
        self.last_failure
    }

    pub fn last_recovery(&self) -> (r: Option<Instant>)
        ensures
            r.is_some() == self.spec_recovered_once(),
    {
        self.last_recovery
    }

    /// Records one successful observation: the failure run ends, and
    /// health moves as `after_success` says.
    pub fn record_success(&mut self) -> (r: BackendHealth)
        ensures
            (final(self).spec_health(), final(self).spec_recoveries()) == after_success(
                old(self).spec_health(),
                old(self).spec_recoveries(),
                old(self).spec_recovery_threshold(),
            ),
            r == final(self).spec_health(),
            old(self).succeeded_to(*final(self)),
            final(self).spec_failures() == 0,
            final(self).spec_failure_threshold() == old(self).spec_failure_threshold(),
            final(self).spec_recovery_threshold() == old(self).spec_recovery_threshold(),
            final(self).spec_checked(),
            final(self).spec_recovered_once(),
            final(self).spec_failed_once() == old(self).spec_failed_once(),
    {
        proof {
            use_type_invariant(&*self);
        }
        let now = instant_now();
        self.last_check = Some(now);
        self.last_recovery = Some(now);
        self.failures = 0;
        self.successes_seen = self.successes_seen.saturating_add(1);
        match self.health {
            BackendHealth::Unknown => {
                self.recoveries = 1;
                self.health = BackendHealth::Healthy;
            },
            BackendHealth::Healthy => {
                self.recoveries = self.recoveries.saturating_add(1);
                self.health = BackendHealth::Healthy;
            },
            BackendHealth::Degraded | BackendHealth::Unhealthy => {
                self.recoveries = self.recoveries.saturating_add(1);
                if self.recoveries >= self.recovery_threshold {
                    self.health = BackendHealth::Healthy;
                } else {
                    self.health = BackendHealth::Degraded;
                }
            },
        }
        self.health
    }

    /// Records one failed observation: the recovery run ends, and health
    /// moves as `after_failure` says.
    pub fn record_failure(&mut self) -> (r: BackendHealth)
        ensures
            (final(self).spec_health(), final(self).spec_failures()) == after_failure(
                old(self).spec_failures(),
                old(self).spec_failure_threshold(),
            ),
            r == final(self).spec_health(),
            old(self).failed_to(*final(self)),
            final(self).spec_recoveries() == 0,
            final(self).spec_failure_threshold() == old(self).spec_failure_threshold(),
            final(self).spec_recovery_threshold() == old(self).spec_recovery_threshold(),
            final(self).spec_checked(),
            final(self).spec_failed_once(),
            final(self).spec_recovered_once() == old(self).spec_recovered_once(),
    {
        proof {
            use_type_invariant(&*self);
        }
        let now = instant_now();
        self.last_check = Some(now);
        self.last_failure = Some(now);
        self.recoveries = 0;
        self.failures_seen = self.failures_seen.saturating_add(1);
        self.failures = self.failures.saturating_add(1);
        if self.failures >= self.failure_threshold {
            self.health = BackendHealth::Unhealthy;
        } else {
            self.health = BackendHealth::Degraded;
        }
        self.health
    }

    /// Returns the monitor to `Unknown` and forgets every observation.
    pub fn reset(&mut self)
        ensures
            final(self).spec_health() == BackendHealth::Unknown,
            final(self).spec_failures() == 0,
            final(self).spec_recoveries() == 0,
            !final(self).spec_checked(),
            !final(self).spec_failed_once(),
            !final(self).spec_recovered_once(),
            final(self).spec_failure_threshold() == old(self).spec_failure_threshold(),
            final(self).spec_recovery_threshold() == old(self).spec_recovery_threshold(),
            final(self).spec_failures_seen() == 0,
            final(self).spec_successes_seen() == 0,
    {
        proof {
            use_type_invariant(&*self);
        }
        self.failures = 0;
        self.recoveries = 0;
        self.failures_seen = 0;
        self.successes_seen = 0;
        self.health = BackendHealth::Unknown;
        self.last_check = None;
        self.last_failure = None;
        self.last_recovery = None;
    }

    /// Overrides health and restarts both observation runs.
    pub fn force_health(&mut self, health: BackendHealth)
        ensures
            old(self).forced_to(*final(self), health),
            final(self).spec_health() == health,
            final(self).spec_failures() == 0,
            final(self).spec_recoveries() == 0,
            final(self).spec_failure_threshold() == old(self).spec_failure_threshold(),
            final(self).spec_recovery_threshold() == old(self).spec_recovery_threshold(),
            final(self).spec_checked() == old(self).spec_checked(),
            final(self).spec_failed_once() == old(self).spec_failed_once(),
            final(self).spec_recovered_once() == old(self).spec_recovered_once(),
    {
        proof {
            use_type_invariant(&*self);
        }
        self.health = health;
        self.failures = 0;
        self.recoveries = 0;
    }

    /// True when the last observation is at most `max_age` old; never true
    /// before any observation. The age is read from the monotonic clock,
    /// and `is_recent` decides from the reading.
    pub fn checked_recently(&self, max_age: Duration) -> (r: bool)
        ensures
            !self.spec_checked() ==> !r,
    {
        let age_ns = match &self.last_check {
            Some(last) => Some(duration_as_nanos(&instant_elapsed(last))),
            None => None,
        };
        is_recent(age_ns, duration_as_nanos(&max_age))
    }
}

/// Whether a check of age `age_ns` nanoseconds, if one was made, is at
/// most `max_ns` old.
pub fn is_recent(age_ns: Option<u128>, max_ns: u128) -> (r: bool)
    ensures
        r == (age_ns matches Some(a) && a <= max_ns),
{
    match age_ns {
        Some(a) => a <= max_ns,
        None => false,
    }
}

impl Default for HealthMonitor {
    fn default() -> (r: Self)
        ensures
            r.spec_failure_threshold() == 3,
            r.spec_recovery_threshold() == 2,
            r.spec_failures() == 0,
            r.spec_recoveries() == 0,
            r.spec_health() == BackendHealth::Unknown,
            !r.spec_checked(),
    {
        Self::with_defaults()
    }
}

} // verus!
