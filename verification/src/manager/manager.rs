//! The backend manager: registration, lifecycle and health of every
//! backend, and the selection policy used to pick one.
use vstd::prelude::*;

use crate::error::{EngineError, EngineErrorCode};
use crate::manager::backend::{
    lifecycle_step, BackendDescriptor, BackendLifecycle, BackendRole, BackendRuntimeState,
};
use crate::manager::capabilities::{BackendCapability, CapabilitySet};
use crate::manager::health::{after_failure, BackendHealth, HealthMonitor};
use crate::namemap::{name_seq, names_sorted, pos_of, NameMap};
use crate::text::{owned, str_is_blank, trim};

verus! {

/// Backend selection preference. It governs which backend is picked, and
/// nothing about packets.
#[derive(Debug, Clone, Copy, PartialEq, Eq, Structural)]
pub enum FailoverPolicy {
    NoFailover,
    PreferPrimary,
    PreferHealthy,
    RoundRobin,
}

impl Default for FailoverPolicy {
    fn default() -> (r: Self)
        ensures
            r == FailoverPolicy::PreferHealthy,
    {
        FailoverPolicy::PreferHealthy
    }
}

/// Two backends that would serve the same capability.
#[derive(Debug, Clone, PartialEq, Eq)]
pub struct CapabilityConflict {
    pub capability: BackendCapability,
    pub requesting_backend: String,
    pub active_backend: String,
    pub active_backend_role: BackendRole,
}

/// Whether `policy` moves work from `primary` to `fallback`.
pub open spec fn spec_should_failover(
    policy: FailoverPolicy,
    primary: Option<BackendRuntimeState>,
    fallback: Option<BackendRuntimeState>,
) -> bool {
    let fallback_available = match fallback {
        Some(b) => b.spec_is_lifecycle_available(),
        None => false,
    };
    fallback_available && match policy {
        FailoverPolicy::NoFailover => false,
        FailoverPolicy::PreferHealthy => match primary {
            Some(p) => p.lifecycle != BackendLifecycle::Running,
            None => true,
        },
        _ => match primary {
            Some(p) => !p.spec_is_lifecycle_available(),
            None => true,
        },
    }
}

/// How each policy decides, stated over lifecycles. Nothing fails over to a
/// fallback that is missing or neither running nor degraded. Otherwise
/// `NoFailover` never fails over; `PreferHealthy` fails over exactly when
/// the primary is missing or not running, a degraded primary included;
/// `PreferPrimary` and `RoundRobin` exactly when the primary is missing or
/// neither running nor degraded.
pub proof fn lemma_failover_decision(
    policy: FailoverPolicy,
    primary: Option<BackendRuntimeState>,
    fallback: Option<BackendRuntimeState>,
)
    ensures
        !(fallback matches Some(f) && (f.lifecycle == BackendLifecycle::Running || f.lifecycle
            == BackendLifecycle::Degraded)) ==> !spec_should_failover(policy, primary, fallback),
        policy == FailoverPolicy::NoFailover ==> !spec_should_failover(policy, primary, fallback),
        (fallback matches Some(f) && (f.lifecycle == BackendLifecycle::Running || f.lifecycle
            == BackendLifecycle::Degraded)) && policy == FailoverPolicy::PreferHealthy ==> (
        spec_should_failover(policy, primary, fallback) <==> (primary is None
            || primary->Some_0.lifecycle != BackendLifecycle::Running)),
        (fallback matches Some(f) && (f.lifecycle == BackendLifecycle::Running || f.lifecycle
            == BackendLifecycle::Degraded)) && (policy == FailoverPolicy::PreferPrimary || policy
            == FailoverPolicy::RoundRobin) ==> (spec_should_failover(policy, primary, fallback) <==> (
        primary is None || (primary->Some_0.lifecycle != BackendLifecycle::Running
            && primary->Some_0.lifecycle != BackendLifecycle::Degraded))),
{
}

impl FailoverPolicy {
    /// Never with an unavailable fallback; otherwise as the policy says:
    /// `NoFailover` never, `PreferHealthy` when the primary is not running, the
    /// others when the primary is not available. A missing primary counts
    /// as unavailable.
    pub fn should_failover(
        self,
        primary: Option<&BackendRuntimeState>,
        fallback: Option<&BackendRuntimeState>,
    ) -> (r: bool)
        ensures
            r == spec_should_failover(
                self,
                match primary {
                    Some(p) => Some(*p),
                    None => None,
                },
                match fallback {
                    Some(f) => Some(*f),
                    None => None,
                },
            ),
    {
        let fallback_available = match fallback {
            Some(b) => b.is_available(),
            None => false,
        };
        if !fallback_available {
            return false;
        }
        match self {
            FailoverPolicy::NoFailover => false,
            FailoverPolicy::PreferHealthy => match primary {
                Some(p) => p.lifecycle != BackendLifecycle::Running,
                None => true,
            },
            FailoverPolicy::PreferPrimary | FailoverPolicy::RoundRobin => match primary {
                Some(p) => !p.is_available(),
                None => true,
            },
        }
    }
}

/// Counts of registered backends by lifecycle.
#[derive(Debug, Clone, Copy, PartialEq, Eq, Structural)]
pub struct BackendManagerStats {
    pub registered: usize,
    pub running: usize,
    pub degraded: usize,
    pub failed: usize,
    /// `Stopped` or `Disabled`.
    pub stopped: usize,
}

impl BackendManagerStats {
    /// Backends that can take work: running or degraded.
    pub fn available(&self) -> (r: usize)
        requires
            self.running + self.degraded <= usize::MAX,
        ensures
            r == self.running + self.degraded,
    {
        self.running + self.degraded
    }
}

struct ManagedBackend {
    runtime: BackendRuntimeState,
    health: HealthMonitor,
}

/// Registered backends, their runtime state and health, and the selection
/// policy.
pub struct BackendManager {
    backends: NameMap<ManagedBackend>,
    failover_policy: FailoverPolicy,
    round_robin_cursor: usize,
}

impl Default for BackendManager {
    fn default() -> (r: Self)
        ensures
            r.backend_map() == Map::<Seq<char>, (BackendRuntimeState, HealthMonitor)>::empty(),
            r.policy() == FailoverPolicy::PreferHealthy,
            r.cursor() == 0,
    {
        Self::new()
    }
}

impl BackendManager {
    #[verifier::type_invariant]
    closed spec fn inv(self) -> bool {
        &&& self.backends.wf()
        &&& forall|k: Seq<char>| #[trigger]
            self.backends.spec_map().contains_key(k) ==> self.backends.spec_map()[k].runtime.descriptor.name@
                == k
    }

    /// Each registered name with its runtime state and health monitor.
    pub closed spec fn backend_map(self) -> Map<Seq<char>, (BackendRuntimeState, HealthMonitor)> {
        Map::new(
            |k: Seq<char>| self.backends.spec_map().contains_key(k),
            |k: Seq<char>| (self.backends.spec_map()[k].runtime, self.backends.spec_map()[k].health),
        )
    }

    /// The registered names, in order.
    pub closed spec fn names_view(self) -> Seq<Seq<char>> {
        self.backends.key_seq()
    }

    pub closed spec fn policy(self) -> FailoverPolicy {
        self.failover_policy
    }

    /// Position of the round-robin selection.
    pub closed spec fn cursor(self) -> usize {
        self.round_robin_cursor
    }

    pub open spec fn has(self, name: Seq<char>) -> bool {
        self.backend_map().contains_key(name)
    }

    pub open spec fn runtime_of(self, name: Seq<char>) -> BackendRuntimeState {
        self.backend_map()[name].0
    }

    pub open spec fn monitor_of(self, name: Seq<char>) -> HealthMonitor {
        self.backend_map()[name].1
    }

    /// Available and declaring `capability`.
    pub open spec fn is_capable(self, name: Seq<char>, capability: BackendCapability) -> bool {
        self.runtime_of(name).spec_is_lifecycle_available() && self.runtime_of(
            name,
        ).descriptor.capabilities@.contains(capability)
    }

    /// Capable and reporting `Healthy`.
    pub open spec fn is_healthy_capable(self, name: Seq<char>, capability: BackendCapability) -> bool {
        self.is_capable(name, capability) && self.monitor_of(name).spec_health()
            == BackendHealth::Healthy
    }

    /// Every entry other than `name` is the same in `self` and `other`.
    pub open spec fn same_except(self, other: Self, name: Seq<char>) -> bool {
        &&& forall|k: Seq<char>| k != name ==> (#[trigger] self.has(k)) == other.has(k)
        &&& forall|k: Seq<char>|
            k != name && #[trigger] self.has(k) ==> self.backend_map()[k] == other.backend_map()[k]
        &&& self.policy() == other.policy()
        &&& self.cursor() == other.cursor()
    }

    /// A name is listed exactly when it is registered.
    pub proof fn lemma_has(self)
        ensures
            forall|k: Seq<char>| #[trigger] self.names_view().contains(k) == self.has(k),
    {
    }

    proof fn lemma_view(self)
        requires
            self.inv(),
        ensures
            names_sorted(self.names_view()),
            self.names_view().len() == self.backend_map().dom().len(),
            forall|k: Seq<char>| #[trigger] self.names_view().contains(k) == self.has(k),
            forall|k: Seq<char>| #[trigger]
                self.has(k) ==> self.runtime_of(k).descriptor.name@ == k,
            forall|j: int|
                0 <= j < self.names_view().len() ==> #[trigger] pos_of(
                    self.names_view(),
                    self.names_view()[j],
                ) == j,
    {
        self.backends.lemma_wf();
        self.backends.lemma_dom();
        assert(self.backend_map().dom() =~= self.backends.spec_map().dom());
        assert forall|k: Seq<char>| #[trigger] self.names_view().contains(k) == self.has(k) by {
            assert(self.backends.key_seq().to_set().contains(k) == self.names_view().contains(k));
        }
    }

    pub fn new() -> (r: Self)
        ensures
            r.backend_map() == Map::<Seq<char>, (BackendRuntimeState, HealthMonitor)>::empty(),
            r.names_view().len() == 0,
            r.policy() == FailoverPolicy::PreferHealthy,
            r.cursor() == 0,
    {
        let r = BackendManager {
            backends: NameMap::new(),
            failover_policy: FailoverPolicy::PreferHealthy,
            round_robin_cursor: 0,
        };
        assert(r.backend_map() =~= Map::<Seq<char>, (BackendRuntimeState, HealthMonitor)>::empty());
        r
    }

    /// Takes the entry `name` out.
    fn take(&mut self, name: &str) -> (r: Option<ManagedBackend>)
        ensures
            r is Some == old(self).has(name@),
            r matches Some(mb) ==> (mb.runtime, mb.health) == old(self).backend_map()[name@],
            final(self).backend_map() == old(self).backend_map().remove(name@),
            final(self).policy() == old(self).policy(),
            final(self).cursor() == old(self).cursor(),
            r is None ==> *final(self) == *old(self),
    {
        proof {
            use_type_invariant(&*self);
        }
        let mut entries = NameMap::new();
        std::mem::swap(&mut entries, &mut self.backends);
        let r = entries.remove(name);
        self.backends = entries;
        assert(self.backend_map() =~= old(self).backend_map().remove(name@));
        r
    }

    /// Puts an entry (back) under its name.
    fn put(&mut self, name: &str, mb: ManagedBackend)
        requires
            mb.runtime.descriptor.name@ == name@,
        ensures
            final(self).backend_map() == old(self).backend_map().insert(name@, (mb.runtime, mb.health)),
            final(self).policy() == old(self).policy(),
            final(self).cursor() == old(self).cursor(),
    {
        proof {
            use_type_invariant(&*self);
        }
        let ghost m = (mb.runtime, mb.health);
        let mut entries = NameMap::new();
        std::mem::swap(&mut entries, &mut self.backends);
        entries.insert(owned(name), mb);
        self.backends = entries;
        assert(self.backend_map() =~= old(self).backend_map().insert(name@, m));
    }

    /// Adds a stopped backend with a fresh health monitor. A blank name and
    /// a name already registered are refused.
    pub fn register(&mut self, descriptor: BackendDescriptor) -> (r: Result<(), EngineError>)
        ensures
            trim(descriptor.name@).len() == 0 ==> (r matches Err(e) && e.code
                == EngineErrorCode::InvalidArgument),
            trim(descriptor.name@).len() > 0 && old(self).has(descriptor.name@) ==> (r matches Err(e)
                && e.code == EngineErrorCode::BackendAlreadyRegistered),
            r is Err ==> *final(self) == *old(self),
            r is Ok == (trim(descriptor.name@).len() > 0 && !old(self).has(descriptor.name@)),
            r is Ok ==> {
                &&& final(self).same_except(*old(self), descriptor.name@)
                &&& final(self).has(descriptor.name@)
                &&& final(self).runtime_of(descriptor.name@).descriptor == descriptor
                &&& final(self).runtime_of(descriptor.name@).lifecycle == BackendLifecycle::Stopped
                &&& final(self).runtime_of(descriptor.name@).error_count == 0
                &&& final(self).runtime_of(descriptor.name@).last_native_error is None
                &&& final(self).monitor_of(descriptor.name@).spec_health() == BackendHealth::Unknown
                &&& final(self).monitor_of(descriptor.name@).spec_failure_threshold() == 3
                &&& final(self).monitor_of(descriptor.name@).spec_recovery_threshold() == 2
                &&& final(self).monitor_of(descriptor.name@).spec_failures() == 0
                &&& final(self).monitor_of(descriptor.name@).spec_recoveries() == 0
                &&& !final(self).monitor_of(descriptor.name@).spec_checked()
            },
    {
        proof {
            use_type_invariant(&*self);
        }
        if str_is_blank(descriptor.name.as_str()) {
            return Err(EngineError::from_code(EngineErrorCode::InvalidArgument));
        }
        if self.backends.find(descriptor.name.as_str()).is_some() {
            return Err(EngineError::from_code(EngineErrorCode::BackendAlreadyRegistered));
        }
        let name = descriptor.name.clone();
        let ghost d = descriptor;
        let mb = ManagedBackend { runtime: BackendRuntimeState::new(descriptor), health: HealthMonitor::default() };
        self.put(name.as_str(), mb);
        Ok(())
    }

    /// Removes a backend that is not active.
    pub fn unregister(&mut self, name: &str) -> (r: Result<(), EngineError>)
        ensures
            !old(self).has(name@) ==> (r matches Err(e) && e.code == EngineErrorCode::BackendNotFound),
            old(self).has(name@) && old(self).runtime_of(name@).lifecycle.spec_is_active()
                ==> (r matches Err(e) && e.code == EngineErrorCode::ConcurrentOperation),
            r is Err ==> *final(self) == *old(self),
            r is Ok == (old(self).has(name@) && !old(self).runtime_of(name@).lifecycle.spec_is_active()),
            r is Ok ==> final(self).backend_map() == old(self).backend_map().remove(name@)
                && final(self).policy() == old(self).policy() && final(self).cursor() == old(self).cursor(),
    {
        proof {
            use_type_invariant(&*self);
            self.backends.lemma_wf();
        }
        match self.backends.find(name) {
            None => {
                return Err(EngineError::from_code(EngineErrorCode::BackendNotFound));
            },
            Some(i) => {
                if self.backends.val_at(i).runtime.lifecycle.is_active() {
                    return Err(EngineError::from_code(EngineErrorCode::ConcurrentOperation));
                }
            },
        }
        let _ = self.take(name);
        Ok(())
    }

    pub fn contains(&self, name: &str) -> (r: bool)
        ensures
            r == self.has(name@),
    {
        proof {
            use_type_invariant(self);
        }
        self.backends.find(name).is_some()
    }

    /// Number of registered backends.
    pub fn count(&self) -> (r: usize)
        ensures
            r == self.backend_map().dom().len(),
            r == self.names_view().len(),
    {
        proof {
            use_type_invariant(self);
            self.lemma_view();
        }
        self.backends.len()
    }

    /// Position of `name` with the entry's state.
    fn entry(&self, name: &str) -> (r: Option<&ManagedBackend>)
        ensures
            r is Some == self.has(name@),
            r matches Some(mb) ==> (mb.runtime, mb.health) == self.backend_map()[name@],
    {
        proof {
            use_type_invariant(self);
            self.backends.lemma_wf();
        }
        match self.backends.find(name) {
            Some(i) => Some(self.backends.val_at(i)),
            None => None,
        }
    }

    pub fn descriptor(&self, name: &str) -> (r: Result<BackendDescriptor, EngineError>)
        ensures
            r is Ok == self.has(name@),
            r matches Ok(d) ==> d.agrees_with(self.runtime_of(name@).descriptor),
            r matches Err(e) ==> e.code == EngineErrorCode::BackendNotFound,
    {
        match self.entry(name) {
            Some(mb) => Ok(mb.runtime.descriptor.clone()),
            None => Err(EngineError::from_code(EngineErrorCode::BackendNotFound)),
        }
    }

    pub fn runtime_state(&self, name: &str) -> (r: Result<BackendRuntimeState, EngineError>)
        ensures
            r is Ok == self.has(name@),
            r matches Ok(s) ==> s.agrees_with(self.runtime_of(name@)),
            r matches Err(e) ==> e.code == EngineErrorCode::BackendNotFound,
    {
        match self.entry(name) {
            Some(mb) => Ok(mb.runtime.clone()),
            None => Err(EngineError::from_code(EngineErrorCode::BackendNotFound)),
        }
    }

    pub fn health(&self, name: &str) -> (r: Result<BackendHealth, EngineError>)
        ensures
            r is Ok == self.has(name@),
            r matches Ok(h) ==> h == self.monitor_of(name@).spec_health(),
            r matches Err(e) ==> e.code == EngineErrorCode::BackendNotFound,
    {
        match self.entry(name) {
            Some(mb) => Ok(mb.health.health()),
            None => Err(EngineError::from_code(EngineErrorCode::BackendNotFound)),
        }
    }

    pub fn capabilities(&self, name: &str) -> (r: Result<CapabilitySet, EngineError>)
        ensures
            r is Ok == self.has(name@),
            r matches Ok(c) ==> c@ == self.runtime_of(name@).descriptor.capabilities@,
            r matches Err(e) ==> e.code == EngineErrorCode::BackendNotFound,
    {
        match self.entry(name) {
            Some(mb) => Ok(mb.runtime.descriptor.capabilities.clone()),
            None => Err(EngineError::from_code(EngineErrorCode::BackendNotFound)),
        }
    }

    pub fn supports(&self, name: &str, capability: BackendCapability) -> (r: Result<
        bool,
        EngineError,
    >)
        ensures
            r is Ok == self.has(name@),
            r matches Ok(b) ==> b == self.runtime_of(name@).descriptor.capabilities@.contains(
                capability,
            ),
            r matches Err(e) ==> e.code == EngineErrorCode::BackendNotFound,
    {
        match self.entry(name) {
            Some(mb) => Ok(mb.runtime.supports(capability)),
            None => Err(EngineError::from_code(EngineErrorCode::BackendNotFound)),
        }
    }

    /// Moves a backend to `lifecycle` when the transition matrix allows it.
    /// Reaching `Running` forces its health to `Healthy`, reaching `Failed`
    /// forces it to `Unhealthy`.
    pub fn set_lifecycle(&mut self, name: &str, lifecycle: BackendLifecycle) -> (r: Result<
        (),
        EngineError,
    >)
        ensures
            !old(self).has(name@) ==> (r matches Err(e) && e.code == EngineErrorCode::BackendNotFound),
            old(self).has(name@) && !lifecycle_step(old(self).runtime_of(name@).lifecycle, lifecycle)
                ==> (r matches Err(e) && e.code == EngineErrorCode::InvalidStateTransition),
            r is Ok == (old(self).has(name@) && lifecycle_step(
                old(self).runtime_of(name@).lifecycle,
                lifecycle,
            )),
            r is Err ==> final(self).backend_map() == old(self).backend_map() && final(self).policy()
                == old(self).policy() && final(self).cursor() == old(self).cursor(),
            r is Ok ==> {
                let before = old(self).runtime_of(name@);
                let after = final(self).runtime_of(name@);
                &&& final(self).same_except(*old(self), name@)
                &&& final(self).has(name@)
                &&& after.lifecycle == lifecycle
                &&& after.descriptor == before.descriptor
                &&& after.error_count == before.error_count
                &&& after.last_native_error == before.last_native_error
                &&& lifecycle == BackendLifecycle::Running ==> old(self).monitor_of(name@).forced_to(
                    final(self).monitor_of(name@),
                    BackendHealth::Healthy,
                )
                &&& lifecycle == BackendLifecycle::Failed ==> old(self).monitor_of(name@).forced_to(
                    final(self).monitor_of(name@),
                    BackendHealth::Unhealthy,
                )
                &&& lifecycle != BackendLifecycle::Running && lifecycle != BackendLifecycle::Failed
                    ==> final(self).monitor_of(name@) == old(self).monitor_of(name@)
            },
    {
        proof {
            use_type_invariant(&*self);
        }
        let mut mb = match self.take(name) {
            Some(mb) => mb,
            None => {
                return Err(EngineError::from_code(EngineErrorCode::BackendNotFound));
            },
        };
        match mb.runtime.transition(lifecycle) {
            Ok(()) => {},
            Err(e) => {
                self.put(name, mb);
                proof {
                    assert(self.backend_map() =~= old(self).backend_map());
                }
                return Err(e);
            },
        }
        match lifecycle {
            BackendLifecycle::Running => mb.health.force_health(BackendHealth::Healthy),
            BackendLifecycle::Failed => mb.health.force_health(BackendHealth::Unhealthy),
            _ => {},
        }
        self.put(name, mb);
        Ok(())
    }

    /// No capability conflict is decided here: the engine resolves
    /// conflicts with knowledge of scopes that the manager lacks.
    pub fn check_activation_conflict(&self, name: &str) -> (r: Result<
        Option<CapabilityConflict>,
        EngineError,
    >)
        ensures
            r is Ok == self.has(name@),
            r matches Ok(c) ==> c is None,
            r matches Err(e) ==> e.code == EngineErrorCode::BackendNotFound,
    {
        if !self.contains(name) {
            return Err(EngineError::from_code(EngineErrorCode::BackendNotFound));
        }
        Ok(None)
    }

    /// Begins starting a backend (`Starting`); it must be stopped, disabled
    /// or failed.
    pub fn start(&mut self, name: &str) -> (r: Result<(), EngineError>)
        ensures
            !old(self).has(name@) ==> (r matches Err(e) && e.code == EngineErrorCode::BackendNotFound),
            old(self).has(name@) && old(self).runtime_of(name@).lifecycle == BackendLifecycle::Running
                ==> (r matches Err(e) && e.code == EngineErrorCode::BackendAlreadyRunning),
            old(self).has(name@) && !old(self).runtime_of(name@).lifecycle.spec_can_start()
                && old(self).runtime_of(name@).lifecycle != BackendLifecycle::Running ==> (r matches Err(
                e,
            ) && e.code == EngineErrorCode::InvalidStateTransition),
            r is Ok == (old(self).has(name@) && old(self).runtime_of(name@).lifecycle.spec_can_start()),
            r is Err ==> final(self).backend_map() == old(self).backend_map() && final(self).policy()
                == old(self).policy() && final(self).cursor() == old(self).cursor(),
            r is Ok ==> {
                let before = old(self).backend_map()[name@];
                &&& final(self).same_except(*old(self), name@)
                &&& final(self).has(name@)
                &&& final(self).runtime_of(name@).lifecycle == BackendLifecycle::Starting
                &&& final(self).runtime_of(name@).descriptor == before.0.descriptor
                &&& final(self).runtime_of(name@).error_count == before.0.error_count
                &&& final(self).runtime_of(name@).last_native_error == before.0.last_native_error
                &&& final(self).monitor_of(name@) == before.1
            },
    {
        proof {
            use_type_invariant(&*self);
        }
        let mut mb = match self.take(name) {
            Some(mb) => mb,
            None => {
                return Err(EngineError::from_code(EngineErrorCode::BackendNotFound));
            },
        };
        if !mb.runtime.lifecycle.can_start() {
            let running = mb.runtime.lifecycle == BackendLifecycle::Running;
            self.put(name, mb);
            proof {
                assert(self.backend_map() =~= old(self).backend_map());
            }
            if running {
                return Err(EngineError::from_code(EngineErrorCode::BackendAlreadyRunning));
            }
            return Err(EngineError::from_code(EngineErrorCode::InvalidStateTransition));
        }
        let r = mb.runtime.transition(BackendLifecycle::Starting);
        self.put(name, mb);
        r
    }

    /// The backend finished starting.
    pub fn mark_running(&mut self, name: &str) -> (r: Result<(), EngineError>)
        ensures
            r is Ok == (old(self).has(name@) && lifecycle_step(
                old(self).runtime_of(name@).lifecycle,
                BackendLifecycle::Running,
            )),
            !old(self).has(name@) ==> (r matches Err(e) && e.code == EngineErrorCode::BackendNotFound),
            r is Err ==> final(self).backend_map() == old(self).backend_map(),
            r is Ok ==> {
                &&& final(self).same_except(*old(self), name@)
                &&& final(self).has(name@)
                &&& final(self).runtime_of(name@).lifecycle == BackendLifecycle::Running
                &&& final(self).runtime_of(name@).descriptor == old(self).runtime_of(name@).descriptor
                &&& final(self).runtime_of(name@).error_count == old(self).runtime_of(
                    name@,
                ).error_count
                &&& old(self).monitor_of(name@).forced_to(
                    final(self).monitor_of(name@),
                    BackendHealth::Healthy,
                )
            },
    {
        self.set_lifecycle(name, BackendLifecycle::Running)
    }

    /// Begins stopping a backend (`Stopping`); it must be starting, running
    /// or degraded.
    pub fn stop(&mut self, name: &str) -> (r: Result<(), EngineError>)
        ensures
            !old(self).has(name@) ==> (r matches Err(e) && e.code == EngineErrorCode::BackendNotFound),
            old(self).has(name@) && old(self).runtime_of(name@).lifecycle == BackendLifecycle::Stopped
                ==> (r matches Err(e) && e.code == EngineErrorCode::BackendNotRunning),
            old(self).has(name@) && !old(self).runtime_of(name@).lifecycle.spec_can_stop()
                && old(self).runtime_of(name@).lifecycle != BackendLifecycle::Stopped ==> (r matches Err(
                e,
            ) && e.code == EngineErrorCode::InvalidStateTransition),
            r is Ok == (old(self).has(name@) && old(self).runtime_of(name@).lifecycle.spec_can_stop()),
            r is Err ==> final(self).backend_map() == old(self).backend_map() && final(self).policy()
                == old(self).policy() && final(self).cursor() == old(self).cursor(),
            r is Ok ==> {
                let before = old(self).backend_map()[name@];
                &&& final(self).same_except(*old(self), name@)
                &&& final(self).has(name@)
                &&& final(self).runtime_of(name@).lifecycle == BackendLifecycle::Stopping
                &&& final(self).runtime_of(name@).descriptor == before.0.descriptor
                &&& final(self).runtime_of(name@).error_count == before.0.error_count
                &&& final(self).runtime_of(name@).last_native_error == before.0.last_native_error
                &&& final(self).monitor_of(name@) == before.1
            },
    {
        proof {
            use_type_invariant(&*self);
        }
        let mut mb = match self.take(name) {
            Some(mb) => mb,
            None => {
                return Err(EngineError::from_code(EngineErrorCode::BackendNotFound));
            },
        };
        if mb.runtime.lifecycle == BackendLifecycle::Stopped || !mb.runtime.lifecycle.can_stop() {
            let stopped = mb.runtime.lifecycle == BackendLifecycle::Stopped;
            self.put(name, mb);
            proof {
                assert(self.backend_map() =~= old(self).backend_map());
            }
            if stopped {
                return Err(EngineError::from_code(EngineErrorCode::BackendNotRunning));
            }
            return Err(EngineError::from_code(EngineErrorCode::InvalidStateTransition));
        }
        let r = mb.runtime.transition(BackendLifecycle::Stopping);
        self.put(name, mb);
        r
    }

    /// The backend finished stopping.
    pub fn mark_stopped(&mut self, name: &str) -> (r: Result<(), EngineError>)
        ensures
            r is Ok == (old(self).has(name@) && lifecycle_step(
                old(self).runtime_of(name@).lifecycle,
                BackendLifecycle::Stopped,
            )),
            !old(self).has(name@) ==> (r matches Err(e) && e.code == EngineErrorCode::BackendNotFound),
            r is Err ==> final(self).backend_map() == old(self).backend_map(),
            r is Ok ==> {
                &&& final(self).same_except(*old(self), name@)
                &&& final(self).has(name@)
                &&& final(self).runtime_of(name@).lifecycle == BackendLifecycle::Stopped
                &&& final(self).runtime_of(name@).descriptor == old(self).runtime_of(name@).descriptor
                &&& final(self).monitor_of(name@) == old(self).monitor_of(name@)
            },
    {
        self.set_lifecycle(name, BackendLifecycle::Stopped)
    }

    /// Records a successful observation. A degraded backend is running
    /// again after any success, whatever its health then reports.
    pub fn record_success(&mut self, name: &str) -> (r: Result<BackendHealth, EngineError>)
        ensures
            r is Ok == old(self).has(name@),
            r matches Err(e) ==> e.code == EngineErrorCode::BackendNotFound && *final(self) == *old(self),
            r matches Ok(h) ==> {
                let before = old(self).runtime_of(name@);
                let after = final(self).runtime_of(name@);
                &&& final(self).same_except(*old(self), name@)
                &&& final(self).has(name@)
                &&& old(self).monitor_of(name@).succeeded_to(final(self).monitor_of(name@))
                &&& h == final(self).monitor_of(name@).spec_health()
                &&& after.lifecycle == (if before.lifecycle == BackendLifecycle::Degraded {
                    BackendLifecycle::Running
                } else {
                    before.lifecycle
                })
                &&& after.descriptor == before.descriptor
                &&& after.error_count == before.error_count
                &&& after.last_native_error == before.last_native_error
            },
    {
        proof {
            use_type_invariant(&*self);
        }
        let mut mb = match self.take(name) {
            Some(mb) => mb,
            None => {
                return Err(EngineError::from_code(EngineErrorCode::BackendNotFound));
            },
        };
        let health = mb.health.record_success();
        if mb.runtime.lifecycle == BackendLifecycle::Degraded {
            let _ = mb.runtime.transition(BackendLifecycle::Running);
        }
        self.put(name, mb);
        Ok(health)
    }

    /// Records a failed observation: the error is counted and remembered,
    /// and the health monitor decides. `Unhealthy` fails the backend,
    /// `Degraded` degrades a running one. Failing a stopped or disabled
    /// backend is not a valid transition: the error is then reported, with
    /// the observation still recorded.
    pub fn record_failure(&mut self, name: &str, native_error: Option<i32>) -> (r: Result<
        BackendHealth,
        EngineError,
    >)
        ensures
            !old(self).has(name@) ==> (r matches Err(e) && e.code == EngineErrorCode::BackendNotFound
                && *final(self) == *old(self)),
            old(self).has(name@) ==> {
                let before = old(self).runtime_of(name@);
                let after = final(self).runtime_of(name@);
                let h = after_failure(
                    old(self).monitor_of(name@).spec_failures(),
                    old(self).monitor_of(name@).spec_failure_threshold(),
                ).0;
                let refused = h == BackendHealth::Unhealthy && (before.lifecycle
                    == BackendLifecycle::Stopped || before.lifecycle == BackendLifecycle::Disabled);
                &&& final(self).same_except(*old(self), name@)
                &&& final(self).has(name@)
                &&& old(self).monitor_of(name@).failed_to(final(self).monitor_of(name@))
                &&& after.error_count == (if before.error_count == u64::MAX {
                    u64::MAX as int
                } else {
                    before.error_count + 1
                })
                &&& after.last_native_error == native_error
                &&& after.descriptor == before.descriptor
                &&& (refused ==> (r matches Err(e) && e.code == EngineErrorCode::InvalidStateTransition
                    && after.lifecycle == before.lifecycle))
                &&& (!refused ==> r == Ok::<BackendHealth, EngineError>(h))
                &&& (!refused ==> after.lifecycle == (if h == BackendHealth::Unhealthy {
                    BackendLifecycle::Failed
                } else if h == BackendHealth::Degraded && before.lifecycle
                    == BackendLifecycle::Running {
                    BackendLifecycle::Degraded
                } else {
                    before.lifecycle
                }))
            },
    {
        proof {
            use_type_invariant(&*self);
        }
        let mut mb = match self.take(name) {
            Some(mb) => mb,
            None => {
                return Err(EngineError::from_code(EngineErrorCode::BackendNotFound));
            },
        };
        mb.runtime.record_error(native_error);
        let health = mb.health.record_failure();
        let mut result: Result<BackendHealth, EngineError> = Ok(health);
        match health {
            BackendHealth::Unhealthy => {
                if mb.runtime.lifecycle != BackendLifecycle::Failed {
                    match mb.runtime.transition(BackendLifecycle::Failed) {
                        Ok(()) => {},
                        Err(e) => {
                            result = Err(e);
                        },
                    }
                }
            },
            BackendHealth::Degraded => {
                if mb.runtime.lifecycle == BackendLifecycle::Running {
                    let _ = mb.runtime.transition(BackendLifecycle::Degraded);
                }
            },
            BackendHealth::Healthy | BackendHealth::Unknown => {},
        }
        self.put(name, mb);
        result
    }

    pub fn set_failover_policy(&mut self, policy: FailoverPolicy) -> (r: Result<(), EngineError>)
        ensures
            r is Ok,
            final(self).policy() == policy,
            final(self).backend_map() == old(self).backend_map(),
            final(self).cursor() == old(self).cursor(),
    {
        proof {
            use_type_invariant(&*self);
        }
        self.failover_policy = policy;
        Ok(())
    }

    pub fn failover_policy(&self) -> (r: Result<FailoverPolicy, EngineError>)
        ensures
            r == Ok::<FailoverPolicy, EngineError>(self.policy()),
    {
        Ok(self.failover_policy)
    }

    /// Position of the round-robin selection, advanced by one (wrapping).
    pub(crate) fn advance_cursor(&mut self) -> (r: usize)
        ensures
            r == old(self).cursor(),
            final(self).cursor() == (if old(self).cursor() == usize::MAX {
                0
            } else {
                (old(self).cursor() + 1) as usize
            }),
            final(self).backend_map() == old(self).backend_map(),
            final(self).policy() == old(self).policy(),
            final(self).names_view() == old(self).names_view(),
    {
        proof {
            use_type_invariant(&*self);
        }
        let c = self.round_robin_cursor;
        self.round_robin_cursor = c.wrapping_add(1);
        c
    }

    /// The capable backends (or, with `healthy_only`, the healthy capable
    /// backends) in name order.
    pub open spec fn capable_listing(self, capability: BackendCapability, healthy_only: bool) -> Seq<
        Seq<char>,
    > {
        self.names_view().filter(
            |n: Seq<char>|
                if healthy_only {
                    self.is_healthy_capable(n, capability)
                } else {
                    self.is_capable(n, capability)
                },
        )
    }

    /// Names of the available backends that declare `capability`, in name
    /// order.
    pub fn find_capable(&self, capability: BackendCapability) -> (r: Vec<String>)
        ensures
            name_seq(r@) == self.capable_listing(capability, false),
    {
        self.filter_names(capability, false)
    }

    /// Names of the available, healthy backends that declare `capability`,
    /// in name order.
    pub fn find_healthy_capable(&self, capability: BackendCapability) -> (r: Vec<String>)
        ensures
            name_seq(r@) == self.capable_listing(capability, true),
    {
        self.filter_names(capability, true)
    }

    fn filter_names(&self, capability: BackendCapability, healthy_only: bool) -> (r: Vec<String>)
        ensures
            name_seq(r@) == self.capable_listing(capability, healthy_only),
    {
        proof {
            use_type_invariant(self);
            self.lemma_view();
        }
        let ghost pred = |n: Seq<char>|
            if healthy_only {
                self.is_healthy_capable(n, capability)
            } else {
                self.is_capable(n, capability)
            };
        let ghost ks = self.names_view();
        let n = self.backends.len();
        let mut result: Vec<String> = Vec::new();
        let mut i: usize = 0;
        while i < n
            invariant
                n == ks.len(),
                i <= n,
                ks == self.names_view(),
                ks == self.backends.key_seq(),
                self.backends.wf(),
                forall|j: int| 0 <= j < ks.len() ==> #[trigger] pos_of(ks, ks[j]) == j,
                pred == (|n: Seq<char>|
                    if healthy_only {
                        self.is_healthy_capable(n, capability)
                    } else {
                        self.is_capable(n, capability)
                    }),
                name_seq(result@) == ks.take(i as int).filter(pred),
            decreases n - i,
        {
            let mb = self.backends.val_at(i);
            let ghost before = result@;
            proof {
                assert(ks.take(i + 1).drop_last() =~= ks.take(i as int));
                reveal(Seq::filter);
                assert(self.backends.spec_map().contains_key(ks[i as int]));
                assert(self.backend_map()[ks[i as int]] == (mb.runtime, mb.health));
            }
            let keep = mb.runtime.is_available() && mb.runtime.supports(capability) && (!healthy_only
                || mb.health.health() == BackendHealth::Healthy);
            if keep {
                let name = self.backends.key_at(i).clone();
                result.push(name);
                proof {
                    assert(name_seq(result@) =~= name_seq(before).push(ks[i as int]));
                }
            }
            i = i + 1;
        }
        assert(ks.take(n as int) =~= ks);
        result
    }

    /// Backend for `capability` by the selection policy; see
    /// `select_backend_for_requirements`.
    pub fn select_backend(&mut self, capability: BackendCapability) -> (r: Option<String>)
        ensures
            final(self).backend_map() == old(self).backend_map(),
            final(self).policy() == old(self).policy(),
            r matches Some(n) ==> old(self).has(n@) && old(self).runtime_of(
                n@,
            ).spec_is_lifecycle_available() && old(self).runtime_of(
                n@,
            ).descriptor.capabilities@.contains(capability),
            ({
                let capable = crate::manager::selection::capable_names(
                    *old(self),
                    seq![crate::manager::capabilities::CapabilityRequirement { capability, required: true }],
                );
                &&& final(self).names_view() == old(self).names_view()
                &&& final(self).cursor() == crate::manager::selection::cursor_after(
                    old(self).policy(),
                    old(self).cursor(),
                    capable.len(),
                )
                &&& capable.len() == 0 ==> r is None
                &&& capable.len() > 0 ==> (r matches Some(n) && n@
                    == crate::manager::selection::policy_pick(*old(self), capable))
            }),
    {
        let requirement = crate::manager::capabilities::CapabilityRequirement::required(capability);
        let requirements = vec![requirement];
        proof {
            assert(requirements@ =~= seq![requirement]);
            assert(requirement == crate::manager::capabilities::CapabilityRequirement { capability, required: true });
        }
        let r = crate::manager::selection::select_backend_for_requirements(self, requirements.as_slice());
        proof {
            if r is Some {
                let n = r->Some_0;
                let m = *old(self);
                let pred = |k: Seq<char>|
                    m.runtime_of(k).spec_is_lifecycle_available()
                        && crate::manager::capabilities::requirements_met(
                        m.runtime_of(k).descriptor.capabilities@,
                        requirements@,
                    );
                crate::namemap::lemma_filter_members(m.names_view(), pred);
                let c = crate::manager::selection::capable_names(m, requirements@);
                let j = choose|j: int| 0 <= j < c.len() && c[j] == n@;
                assert(pred(c[j]));
                m.lemma_has();
                crate::manager::capabilities::lemma_requirements_met_single(
                    m.runtime_of(n@).descriptor.capabilities@,
                    requirements@,
                    capability,
                );
            }
        }
        r
    }

    /// Coverage report for `capability`; see `select_with_fallback`.
    pub fn select_with_fallback(&self, capability: BackendCapability) -> (r:
        crate::manager::complementarity::CapabilityCoverage)
        ensures
            r.matches_manager(*self, capability),
    {
        crate::manager::complementarity::select_with_fallback(self, capability)
    }

    /// Status of the coverage report for `capability`.
    pub fn capability_status(&self, capability: BackendCapability) -> (r:
        crate::manager::complementarity::CapabilityStatus)
        ensures
            r == crate::manager::complementarity::coverage_of(*self, capability).0,
    {
        crate::manager::complementarity::capability_status(self, capability)
    }

    /// Counts of backends per lifecycle.
    pub fn stats(&self) -> (r: BackendManagerStats)
        ensures
            r.registered == self.names_view().len(),
            r.running == self.names_view().filter(
                |n: Seq<char>| self.runtime_of(n).lifecycle == BackendLifecycle::Running,
            ).len(),
            r.degraded == self.names_view().filter(
                |n: Seq<char>| self.runtime_of(n).lifecycle == BackendLifecycle::Degraded,
            ).len(),
            r.failed == self.names_view().filter(
                |n: Seq<char>| self.runtime_of(n).lifecycle == BackendLifecycle::Failed,
            ).len(),
            r.stopped == self.names_view().filter(
                |n: Seq<char>|
                    self.runtime_of(n).lifecycle == BackendLifecycle::Stopped || self.runtime_of(
                        n,
                    ).lifecycle == BackendLifecycle::Disabled,
            ).len(),
    {
        proof {
            use_type_invariant(self);
            self.lemma_view();
        }
        let ghost ks = self.names_view();
        let ghost p_run = |n: Seq<char>| self.runtime_of(n).lifecycle == BackendLifecycle::Running;
        let ghost p_deg = |n: Seq<char>| self.runtime_of(n).lifecycle == BackendLifecycle::Degraded;
        let ghost p_fail = |n: Seq<char>| self.runtime_of(n).lifecycle == BackendLifecycle::Failed;
        let ghost p_stop = |n: Seq<char>|
            self.runtime_of(n).lifecycle == BackendLifecycle::Stopped || self.runtime_of(
                n,
            ).lifecycle == BackendLifecycle::Disabled;
        let n = self.backends.len();
        let mut stats = BackendManagerStats { registered: n, running: 0, degraded: 0, failed: 0, stopped: 0 };
        let mut i: usize = 0;
        while i < n
            invariant
                n == ks.len(),
                i <= n,
                ks == self.names_view(),
                ks == self.backends.key_seq(),
                self.backends.wf(),
                forall|j: int| 0 <= j < ks.len() ==> #[trigger] pos_of(ks, ks[j]) == j,
                p_run == (|n: Seq<char>| self.runtime_of(n).lifecycle == BackendLifecycle::Running),
                p_deg == (|n: Seq<char>| self.runtime_of(n).lifecycle == BackendLifecycle::Degraded),
                p_fail == (|n: Seq<char>| self.runtime_of(n).lifecycle == BackendLifecycle::Failed),
                p_stop == (|n: Seq<char>|
                    self.runtime_of(n).lifecycle == BackendLifecycle::Stopped || self.runtime_of(
                        n,
                    ).lifecycle == BackendLifecycle::Disabled),
                stats.registered == n,
                stats.running == ks.take(i as int).filter(p_run).len(),
                stats.degraded == ks.take(i as int).filter(p_deg).len(),
                stats.failed == ks.take(i as int).filter(p_fail).len(),
                stats.stopped == ks.take(i as int).filter(p_stop).len(),
            decreases n - i,
        {
            let mb = self.backends.val_at(i);
            proof {
                assert(ks.take(i + 1).drop_last() =~= ks.take(i as int));
                reveal(Seq::filter);
                assert(self.backends.spec_map().contains_key(ks[i as int]));
                assert(self.backend_map()[ks[i as int]] == (mb.runtime, mb.health));
                ks.take(i as int).lemma_filter_len(p_run);
                ks.take(i as int).lemma_filter_len(p_deg);
                ks.take(i as int).lemma_filter_len(p_fail);
                ks.take(i as int).lemma_filter_len(p_stop);
            }
            match mb.runtime.lifecycle {
                BackendLifecycle::Running => stats.running = stats.running + 1,
                BackendLifecycle::Degraded => stats.degraded = stats.degraded + 1,
                BackendLifecycle::Failed => stats.failed = stats.failed + 1,
                BackendLifecycle::Stopped | BackendLifecycle::Disabled => stats.stopped = stats.stopped
                    + 1,
                BackendLifecycle::Starting | BackendLifecycle::Stopping => {},
            }
            i = i + 1;
        }
        assert(ks.take(n as int) =~= ks);
        stats
    }

    /// The registered names, in order.
    pub fn names(&self) -> (r: Vec<String>)
        ensures
            name_seq(r@) == self.names_view(),
            names_sorted(self.names_view()),
            forall|k: Seq<char>| #[trigger] self.names_view().contains(k) == self.has(k),
    {
        proof {
            use_type_invariant(self);
            self.lemma_view();
        }
        self.backends.keys().clone()
    }

    /// The descriptors of all backends, in name order.
    pub fn descriptors(&self) -> (r: Vec<BackendDescriptor>)
        ensures
            r@.len() == self.names_view().len(),
            forall|i: int|
                0 <= i < r@.len() ==> (#[trigger] r@[i]).agrees_with(
                    self.runtime_of(self.names_view()[i]).descriptor,
                ),
            forall|i: int| 0 <= i < r@.len() ==> (#[trigger] r@[i]).name@ == self.names_view()[i],
    {
        proof {
            use_type_invariant(self);
            self.lemma_view();
        }
        let ghost ks = self.names_view();
        let n = self.backends.len();
        let mut result: Vec<BackendDescriptor> = Vec::new();
        let mut i: usize = 0;
        while i < n
            invariant
                n == ks.len(),
                i <= n,
                ks == self.names_view(),
                ks == self.backends.key_seq(),
                self.backends.wf(),
                forall|j: int| 0 <= j < ks.len() ==> #[trigger] pos_of(ks, ks[j]) == j,
                forall|k: Seq<char>| #[trigger]
                    self.has(k) ==> self.runtime_of(k).descriptor.name@ == k,
                result@.len() == i,
                forall|j: int|
                    0 <= j < i ==> (#[trigger] result@[j]).agrees_with(
                        self.runtime_of(ks[j]).descriptor,
                    ),
            decreases n - i,
        {
            let mb = self.backends.val_at(i);
            proof {
                assert(self.backends.spec_map().contains_key(ks[i as int]));
                assert(self.backend_map()[ks[i as int]] == (mb.runtime, mb.health));
            }
            result.push(mb.runtime.descriptor.clone());
            i = i + 1;
        }
        proof {
            assert forall|j: int| 0 <= j < result@.len() implies (#[trigger] result@[j]).name@
                == ks[j] by {
                assert(self.has(ks[j]));
            }
        }
        result
    }
}

} // verus!
