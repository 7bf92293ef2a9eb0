//! Priority-based failover between backends.
//!
//! Backends are kept ordered by `(priority, name)`, lowest first; the
//! backend chosen for a capability is the first one in that order that
//! declares it.
use vstd::prelude::*;

use crate::manager::capabilities::{strictly_sorted, BackendCapability, CapabilitySet};
use crate::namemap::{name_seq, names_sorted, NameMap};
use crate::text::{
    lemma_seq_lt_asymmetric, lemma_seq_lt_irreflexive, lemma_seq_lt_total,
    lemma_seq_lt_transitive, seq_lt, str_eq, str_is_blank, str_lt, trim, trim_str,
};

verus! {

/// State of the failover coordinator.
#[derive(Debug, Clone, Copy, PartialEq, Eq, Structural)]
pub enum FailoverState {
    Disabled,
    Ready,
    Active,
    Degraded,
    Failed,
}

impl FailoverState {
    pub open spec fn spec_is_available(self) -> bool {
        self is Ready || self is Active || self is Degraded
    }

    pub open spec fn spec_can_activate(self) -> bool {
        self is Ready || self is Degraded
    }

    pub fn is_available(self) -> (r: bool)
        ensures
            r == self.spec_is_available(),
    {
        matches!(self, FailoverState::Ready | FailoverState::Active | FailoverState::Degraded)
    }

    pub fn can_activate(self) -> (r: bool)
        ensures
            r == self.spec_can_activate(),
    {
        matches!(self, FailoverState::Ready | FailoverState::Degraded)
    }

    pub fn is_failed(self) -> (r: bool)
        ensures
            r == (self is Failed),
    {
        self == FailoverState::Failed
    }

    pub fn is_disabled(self) -> (r: bool)
        ensures
            r == (self is Disabled),
    {
        self == FailoverState::Disabled
    }
}

/// A backend that can take over a capability.
#[derive(Debug, Clone, PartialEq, Eq)]
pub struct FailoverBackend {
    pub name: String,
    /// Lower values are preferred.
    pub priority: u32,
    /// The declared capabilities.
    pub capabilities: CapabilitySet,
}

impl FailoverBackend {
    pub open spec fn capability_set(self) -> Set<BackendCapability> {
        self.capabilities@
    }

    pub open spec fn spec_supports(self, capability: BackendCapability) -> bool {
        self.capability_set().contains(capability)
    }

    /// A backend named by the trimmed `name`, without capabilities; `None`
    /// for a blank name.
    pub fn new(name: &str, priority: u32) -> (r: Option<Self>)
        ensures
            r.is_some() == (trim(name@).len() > 0),
            r matches Some(b) ==> {
                &&& b.name@ == trim(name@)
                &&& b.priority == priority
                &&& b.capability_set() == Set::<BackendCapability>::empty()
            },
    {
        let trimmed = trim_str(name);
        if trimmed.as_str().unicode_len() == 0 {
            return None;
        }
        Some(FailoverBackend { name: trimmed, priority, capabilities: CapabilitySet::new() })
    }

    /// Declares a capability; declaring it again changes nothing, the
    /// listing of capabilities included.
    pub fn add_capability(&mut self, capability: BackendCapability)
        ensures
            final(self).name == old(self).name,
            final(self).priority == old(self).priority,
            final(self).capability_set() == old(self).capability_set().insert(capability),
            final(self).spec_supports(capability),
            old(self).spec_supports(capability) ==> final(self).capabilities.elems()
                == old(self).capabilities.elems(),
    {
        self.capabilities.insert(capability);
    }

    pub fn supports(&self, capability: BackendCapability) -> (r: bool)
        ensures
            r == self.spec_supports(capability),
    {
        self.capabilities.contains(capability)
    }

    /// The declared capabilities, each once, in ABI order.
    pub fn capabilities(&self) -> (r: &[BackendCapability])
        ensures
            r@ == self.capabilities.elems(),
            strictly_sorted(r@),
            r@.to_set() == self.capability_set(),
    {
        self.capabilities.iter()
    }
}

/// Why a failover request was refused.
#[derive(Debug, Clone, Copy, PartialEq, Eq, Structural)]
pub enum FailoverError {
    CapabilityUnavailable,
    NoBackendAvailable,
    InvalidBackend,
    InvalidState,
    AlreadyActive,
}

/// `a` is preferred to `b`: lower priority, then smaller name.
pub open spec fn precedes(a: FailoverBackend, b: FailoverBackend) -> bool {
    a.priority < b.priority || (a.priority == b.priority && seq_lt(a.name@, b.name@))
}

pub proof fn lemma_precedes_transitive(a: FailoverBackend, b: FailoverBackend, c: FailoverBackend)
    requires
        precedes(a, b),
        precedes(b, c),
    ensures
        precedes(a, c),
{
    if a.priority == b.priority && b.priority == c.priority {
        lemma_seq_lt_transitive(a.name@, b.name@, c.name@);
    }
}

pub proof fn lemma_precedes_asymmetric(a: FailoverBackend, b: FailoverBackend)
    ensures
        precedes(a, b) ==> !precedes(b, a),
        !precedes(a, a),
{
    lemma_seq_lt_asymmetric(a.name@, b.name@);
    lemma_seq_lt_irreflexive(a.name@);
}

pub proof fn lemma_precedes_total(a: FailoverBackend, b: FailoverBackend)
    requires
        a.name@ != b.name@,
    ensures
        precedes(a, b) || precedes(b, a),
{
    lemma_seq_lt_total(a.name@, b.name@);
}

/// Strictly ordered by preference, no name twice.
pub open spec fn ordered(bs: Seq<FailoverBackend>) -> bool {
    &&& forall|a: int, b: int| 0 <= a < b < bs.len() ==> precedes(#[trigger] bs[a], #[trigger] bs[b])
    &&& forall|a: int, b: int|
        0 <= a < bs.len() && 0 <= b < bs.len() && a != b ==> (#[trigger] bs[a]).name@ != (
        #[trigger] bs[b]).name@
}

/// Some listed backend carries `name`.
pub open spec fn has_name(bs: Seq<FailoverBackend>, name: Seq<char>) -> bool {
    exists|k: int| 0 <= k < bs.len() && (#[trigger] bs[k]).name@ == name
}

/// The position of the backend carrying `name`.
pub open spec fn name_index(bs: Seq<FailoverBackend>, name: Seq<char>) -> int {
    choose|k: int| 0 <= k < bs.len() && (#[trigger] bs[k]).name@ == name
}

/// Some listed backend declares `capability`.
pub open spec fn has_candidate(bs: Seq<FailoverBackend>, capability: BackendCapability) -> bool {
    exists|k: int| 0 <= k < bs.len() && (#[trigger] bs[k]).spec_supports(capability)
}

/// `b` is listed, declares `capability`, and is preferred to every other
/// listed backend that declares it.
pub open spec fn is_best_in(
    bs: Seq<FailoverBackend>,
    capability: BackendCapability,
    b: FailoverBackend,
) -> bool {
    &&& bs.contains(b)
    &&& b.spec_supports(capability)
    &&& forall|k: int|
        0 <= k < bs.len() && (#[trigger] bs[k]).spec_supports(capability) && bs[k] != b
            ==> precedes(b, bs[k])
}

/// The preferred backend for `capability`.
pub open spec fn best_in(bs: Seq<FailoverBackend>, capability: BackendCapability) -> FailoverBackend {
    choose|b: FailoverBackend| is_best_in(bs, capability, b)
}

/// There is at most one preferred backend.
pub proof fn lemma_best_unique(
    bs: Seq<FailoverBackend>,
    capability: BackendCapability,
    b1: FailoverBackend,
    b2: FailoverBackend,
)
    requires
        is_best_in(bs, capability, b1),
        is_best_in(bs, capability, b2),
    ensures
        b1 == b2,
{
    if b1 != b2 {
        let k1 = choose|k: int| 0 <= k < bs.len() && bs[k] == b1;
        let k2 = choose|k: int| 0 <= k < bs.len() && bs[k] == b2;
        assert(bs[k2].spec_supports(capability));
        assert(bs[k1].spec_supports(capability));
        lemma_precedes_asymmetric(b1, b2);
    }
}

/// Every element of `bs` that `pred` keeps is in `bs.filter(pred)`.
proof fn lemma_filter_complete(bs: Seq<FailoverBackend>, pred: spec_fn(FailoverBackend) -> bool, k: int)
    requires
        0 <= k < bs.len(),
        pred(bs[k]),
    ensures
        bs.filter(pred).contains(bs[k]),
    decreases bs.len(),
{
    reveal(Seq::filter);
    let t = bs.drop_last();
    if k == bs.len() - 1 {
        assert(bs.filter(pred) == t.filter(pred).push(bs.last()));
        assert(bs.filter(pred)[t.filter(pred).len() as int] == bs[k]);
    } else {
        assert(t[k] == bs[k]);
        lemma_filter_complete(t, pred, k);
        let m = choose|m: int| 0 <= m < t.filter(pred).len() && t.filter(pred)[m] == bs[k];
        if pred(bs.last()) {
            assert(bs.filter(pred)[m] == bs[k]);
        }
    }
}

/// The backends of a preference-ordered list that `pred` keeps stay in
/// preference order.
proof fn lemma_filter_ordered(bs: Seq<FailoverBackend>, pred: spec_fn(FailoverBackend) -> bool)
    requires
        ordered(bs),
    ensures
        forall|a: int, b: int|
            0 <= a < b < bs.filter(pred).len() ==> precedes(
                #[trigger] bs.filter(pred)[a],
                #[trigger] bs.filter(pred)[b],
            ),
    decreases bs.len(),
{
    reveal(Seq::filter);
    if bs.len() > 0 {
        let t = bs.drop_last();
        assert(ordered(t)) by {
            assert forall|a: int, b: int| 0 <= a < b < t.len() implies precedes(
                #[trigger] t[a],
                #[trigger] t[b],
            ) by {
                assert(t[a] == bs[a] && t[b] == bs[b]);
            }
            assert forall|a: int, b: int|
                0 <= a < t.len() && 0 <= b < t.len() && a != b implies (#[trigger] t[a]).name@ != (
                #[trigger] t[b]).name@ by {
                assert(t[a] == bs[a] && t[b] == bs[b]);
            }
        }
        lemma_filter_ordered(t, pred);
        crate::namemap::lemma_filter_members(t, pred);
        let f = bs.filter(pred);
        let g = t.filter(pred);
        if pred(bs.last()) {
            assert forall|a: int, b: int| 0 <= a < b < f.len() implies precedes(
                #[trigger] f[a],
                #[trigger] f[b],
            ) by {
                if b < g.len() {
                    assert(f[a] == g[a] && f[b] == g[b]);
                } else {
                    assert(f[b] == bs.last());
                    assert(f[a] == g[a]);
                    assert(t.contains(g[a]));
                    let i = choose|i: int| 0 <= i < t.len() && t[i] == g[a];
                    assert(bs[i] == g[a]);
                    assert(bs[bs.len() - 1] == bs.last());
                }
            }
        } else {
            assert(f == g);
        }
    }
}

/// In a preference-ordered list, the first backend declaring `capability`
/// is the preferred one.
pub proof fn lemma_first_candidate_is_best(bs: Seq<FailoverBackend>, capability: BackendCapability)
    requires
        ordered(bs),
    ensures
        ({
            let c = bs.filter(|b: FailoverBackend| b.spec_supports(capability));
            &&& (c.len() > 0 <==> has_candidate(bs, capability))
            &&& c.len() > 0 ==> is_best_in(bs, capability, c[0]) && c[0] == best_in(bs, capability)
            &&& forall|a: int, b: int| 0 <= a < b < c.len() ==> precedes(#[trigger] c[a], #[trigger] c[b])
        }),
{
    let pred = |b: FailoverBackend| b.spec_supports(capability);
    let c = bs.filter(pred);
    crate::namemap::lemma_filter_members(bs, pred);
    lemma_filter_ordered(bs, pred);
    if has_candidate(bs, capability) {
        let k = choose|k: int| 0 <= k < bs.len() && (#[trigger] bs[k]).spec_supports(capability);
        lemma_filter_complete(bs, pred, k);
        assert(c.len() > 0);
    }
    if c.len() > 0 {
        assert(bs.contains(c[0]) && pred(c[0]));
        let i0 = choose|i: int| 0 <= i < bs.len() && bs[i] == c[0];
        assert(bs[i0].spec_supports(capability));
        assert forall|k: int|
            0 <= k < bs.len() && (#[trigger] bs[k]).spec_supports(capability) && bs[k] != c[0] implies precedes(
            c[0],
            bs[k],
        ) by {
            lemma_filter_complete(bs, pred, k);
            let m = choose|m: int| 0 <= m < c.len() && c[m] == bs[k];
            assert(m != 0);
            assert(precedes(c[0], c[m]));
        }
        assert(is_best_in(bs, capability, c[0]));
        let b = best_in(bs, capability);
        assert(is_best_in(bs, capability, b));
        lemma_best_unique(bs, capability, b, c[0]);
    }
}

fn precedes_exec(a: &FailoverBackend, b: &FailoverBackend) -> (r: bool)
    ensures
        r == precedes(*a, *b),
{
    a.priority < b.priority || (a.priority == b.priority && str_lt(a.name.as_str(), b.name.as_str()))
}

/// Coordinates which backend serves a capability.
#[derive(Debug)]
pub struct FailoverManager {
    backends: Vec<FailoverBackend>,
    active_backend: Option<String>,
    state: FailoverState,
}

impl Default for FailoverManager {
    fn default() -> (r: Self)
        ensures
            r.entries().len() == 0,
            r.spec_active() is None,
            r.spec_state() == FailoverState::Ready,
    {
        Self::new()
    }
}

impl FailoverManager {
    #[verifier::type_invariant]
    closed spec fn inv(self) -> bool {
        ordered(self.backends@)
    }

    /// The registered backends, most preferred first.
    pub closed spec fn entries(self) -> Seq<FailoverBackend> {
        self.backends@
    }

    /// Name of the active backend.
    pub closed spec fn spec_active(self) -> Option<Seq<char>> {
        match self.active_backend {
            Some(s) => Some(s@),
            None => None,
        }
    }

    pub closed spec fn spec_state(self) -> FailoverState {
        self.state
    }

    pub fn new() -> (r: Self)
        ensures
            r.entries().len() == 0,
            r.spec_active() is None,
            r.spec_state() == FailoverState::Ready,
    {
        FailoverManager { backends: Vec::new(), active_backend: None, state: FailoverState::Ready }
    }

    pub fn state(&self) -> (r: FailoverState)
        ensures
            r == self.spec_state(),
    {
        self.state
    }

    /// Position of the backend called `name`.
    fn index_of(&self, name: &str) -> (r: Option<usize>)
        ensures
            r.is_some() == has_name(self.entries(), name@),
            r matches Some(i) ==> i < self.entries().len() && self.entries()[i as int].name@
                == name@ && name_index(self.entries(), name@) == i,
    {
        proof {
            use_type_invariant(self);
        }
        let mut i: usize = 0;
        while i < self.backends.len()
            invariant
                i <= self.backends@.len(),
                ordered(self.backends@),
                forall|k: int| 0 <= k < i ==> (#[trigger] self.backends@[k]).name@ != name@,
            decreases self.backends@.len() - i,
        {
            if str_eq(self.backends[i].name.as_str(), name) {
                proof {
                    let bs = self.backends@;
                    assert(bs[i as int].name@ == name@);
                    let k = name_index(bs, name@);
                    assert(0 <= k < bs.len() && bs[k].name@ == name@);
                    if k != i {
                        assert(bs[k].name@ != bs[i as int].name@);
                    }
                }
                return Some(i);
            }
            i = i + 1;
        }
        None
    }

    /// Adds a backend at its place in preference order. A blank name, or
    /// a name already registered, is refused. A failed coordinator becomes
    /// ready again.
    pub fn register(&mut self, backend: FailoverBackend) -> (r: Result<(), FailoverError>)
        ensures
            r is Err == (trim(backend.name@).len() == 0 || has_name(old(self).entries(), backend.name@)),
            r is Err ==> r == Err::<(), FailoverError>(FailoverError::InvalidBackend) && *final(self)
                == *old(self),
            r is Ok ==> {
                &&& ordered(final(self).entries())
                &&& final(self).entries().len() == old(self).entries().len() + 1
                &&& final(self).entries().to_set() == old(self).entries().to_set().insert(backend)
                &&& final(self).spec_active() == old(self).spec_active()
                &&& final(self).spec_state() == (if old(self).spec_state() is Failed {
                    FailoverState::Ready
                } else {
                    old(self).spec_state()
                })
            },
    {
        proof {
            use_type_invariant(&*self);
        }
        if str_is_blank(backend.name.as_str()) {
            return Err(FailoverError::InvalidBackend);
        }
        if self.index_of(backend.name.as_str()).is_some() {
            return Err(FailoverError::InvalidBackend);
        }
        let ghost old_bs = self.backends@;
        let mut i: usize = 0;
        while i < self.backends.len() && precedes_exec(&self.backends[i], &backend)
            invariant
                i <= self.backends@.len(),
                self.backends@ == old_bs,
                forall|k: int| 0 <= k < i ==> precedes(#[trigger] old_bs[k], backend),
            decreases self.backends@.len() - i,
        {
            i = i + 1;
        }
        proof {
            assert forall|k: int| i <= k < old_bs.len() implies precedes(
                backend,
                #[trigger] old_bs[k],
            ) by {
                assert(old_bs[k].name@ != backend.name@);
                if precedes(old_bs[k], backend) {
                    assert(k != i);
                    assert(precedes(old_bs[i as int], old_bs[k]));
                    lemma_precedes_transitive(old_bs[i as int], old_bs[k], backend);
                }
                lemma_precedes_total(old_bs[k], backend);
            }
        }
        let ghost nb = backend;
        let mut bs: Vec<FailoverBackend> = Vec::new();
        std::mem::swap(&mut bs, &mut self.backends);
        bs.insert(i, backend);
        proof {
            let n = bs@;
            assert(n =~= old_bs.insert(i as int, nb));
            assert forall|a: int, b: int| 0 <= a < b < n.len() implies precedes(
                #[trigger] n[a],
                #[trigger] n[b],
            ) by {
                if a < i && b > i {
                    assert(n[b] == old_bs[b - 1]);
                    if b - 1 != a {
                        assert(precedes(old_bs[a], old_bs[b - 1]));
                    }
                } else if a > i {
                    assert(n[a] == old_bs[a - 1]);
                    assert(n[b] == old_bs[b - 1]);
                } else if a == i {
                    assert(n[b] == old_bs[b - 1]);
                }
            }
            assert forall|a: int, b: int|
                0 <= a < n.len() && 0 <= b < n.len() && a != b implies (#[trigger] n[a]).name@ != (
                #[trigger] n[b]).name@ by {
                let oa = if a < i { a } else { a - 1 };
                let ob = if b < i { b } else { b - 1 };
                if a != i && b != i {
                    assert(n[a] == old_bs[oa]);
                    assert(n[b] == old_bs[ob]);
                } else if a == i {
                    assert(n[b] == old_bs[ob]);
                } else {
                    assert(n[a] == old_bs[oa]);
                }
            }
            assert forall|c: FailoverBackend| #[trigger] n.contains(c) <==> old_bs.contains(c) || c
                == nb by {
                if n.contains(c) {
                    let k = choose|k: int| 0 <= k < n.len() && n[k] == c;
                    if k < i {
                        assert(old_bs[k] == c);
                    } else if k > i {
                        assert(old_bs[k - 1] == c);
                    }
                }
                if old_bs.contains(c) {
                    let k = choose|k: int| 0 <= k < old_bs.len() && old_bs[k] == c;
                    if k < i {
                        assert(n[k] == c);
                    } else {
                        assert(n[k + 1] == c);
                    }
                }
                if c == nb {
                    assert(n[i as int] == c);
                }
            }
            assert(n.to_set() =~= old_bs.to_set().insert(nb));
        }
        self.backends = bs;
        if self.state == FailoverState::Failed {
            self.state = FailoverState::Ready;
        }
        Ok(())
    }

    /// Removes the backend called `name`. When it was the active one, the
    /// coordinator has no active backend and is ready again.
    pub fn unregister(&mut self, name: &str) -> (r: Result<(), FailoverError>)
        ensures
            r is Ok == has_name(old(self).entries(), name@),
            r is Err ==> r == Err::<(), FailoverError>(FailoverError::InvalidBackend) && *final(self)
                == *old(self),
            r is Ok ==> {
                &&& final(self).entries() == old(self).entries().remove(
                    name_index(old(self).entries(), name@),
                )
                &&& old(self).spec_active() == Some(name@) ==> final(self).spec_active() is None
                    && final(self).spec_state() == FailoverState::Ready
                &&& old(self).spec_active() != Some(name@) ==> final(self).spec_active() == old(self).spec_active() && final(self).spec_state() == old(self).spec_state()
            },
    {
        proof {
            use_type_invariant(&*self);
        }
        let position = match self.index_of(name) {
            Some(i) => i,
            None => {
                return Err(FailoverError::InvalidBackend);
            },
        };
        let is_active = match &self.active_backend {
            Some(active) => str_eq(active.as_str(), name),
            None => false,
        };
        if is_active {
            self.active_backend = None;
            self.state = FailoverState::Ready;
        }
        let ghost old_bs = self.backends@;
        let mut bs: Vec<FailoverBackend> = Vec::new();
        std::mem::swap(&mut bs, &mut self.backends);
        bs.remove(position);
        proof {
            let n = bs@;
            assert(n =~= old_bs.remove(position as int));
            assert forall|a: int, b: int| 0 <= a < b < n.len() implies precedes(
                #[trigger] n[a],
                #[trigger] n[b],
            ) by {
                let oa = if a < position { a } else { a + 1 };
                let ob = if b < position { b } else { b + 1 };
                assert(n[a] == old_bs[oa]);
                assert(n[b] == old_bs[ob]);
            }
            assert forall|a: int, b: int|
                0 <= a < n.len() && 0 <= b < n.len() && a != b implies (#[trigger] n[a]).name@ != (
                #[trigger] n[b]).name@ by {
                let oa = if a < position { a } else { a + 1 };
                let ob = if b < position { b } else { b + 1 };
                assert(n[a] == old_bs[oa]);
                assert(n[b] == old_bs[ob]);
            }
        }
        self.backends = bs;
        Ok(())
    }

    /// Position of the first backend that declares `capability`.
    fn best_index(&self, capability: BackendCapability) -> (r: Option<usize>)
        ensures
            r is Some == has_candidate(self.entries(), capability),
            r matches Some(i) ==> i < self.entries().len() && is_best_in(
                self.entries(),
                capability,
                self.entries()[i as int],
            ) && best_in(self.entries(), capability) == self.entries()[i as int],
    {
        proof {
            use_type_invariant(self);
        }
        let mut i: usize = 0;
        while i < self.backends.len()
            invariant
                i <= self.backends@.len(),
                ordered(self.backends@),
                forall|k: int| 0 <= k < i ==> !(#[trigger] self.backends@[k]).spec_supports(capability),
            decreases self.backends@.len() - i,
        {
            if self.backends[i].supports(capability) {
                proof {
                    let bs = self.backends@;
                    let b = bs[i as int];
                    assert(bs.contains(b));
                    assert forall|k: int|
                        0 <= k < bs.len() && (#[trigger] bs[k]).spec_supports(capability) && bs[k]
                            != b implies precedes(b, bs[k]) by {
                        assert(k != i);
                        assert(k > i);
                    }
                    assert(is_best_in(bs, capability, b));
                    lemma_best_unique(bs, capability, b, best_in(bs, capability));
                }
                return Some(i);
            }
            i = i + 1;
        }
        None
    }

    /// The preferred backend for `capability`.
    pub fn select(&self, capability: BackendCapability) -> (r: Result<&FailoverBackend, FailoverError>)
        ensures
            r is Ok == has_candidate(self.entries(), capability),
            r matches Ok(b) ==> is_best_in(self.entries(), capability, *b) && *b == best_in(
                self.entries(),
                capability,
            ),
            r matches Err(e) ==> e == FailoverError::CapabilityUnavailable,
    {
        match self.best_index(capability) {
            Some(i) => Ok(&self.backends[i]),
            None => Err(FailoverError::CapabilityUnavailable),
        }
    }

    /// The coordinator already has the preferred backend for `capability`
    /// active.
    pub open spec fn reactivates(self, capability: BackendCapability) -> bool {
        &&& self.spec_state() == FailoverState::Active
        &&& has_candidate(self.entries(), capability)
        &&& self.spec_active() == Some(best_in(self.entries(), capability).name@)
    }

    /// Makes the preferred backend for `capability` the active one. Asking
    /// again for the backend that is already active is answered
    /// `AlreadyActive`; otherwise only a ready or degraded coordinator
    /// activates.
    pub fn activate_best(&mut self, capability: BackendCapability) -> (r: Result<
        String,
        FailoverError,
    >)
        ensures
            old(self).reactivates(capability) ==> r == Err::<String, FailoverError>(
                FailoverError::AlreadyActive,
            ) && *final(self) == *old(self),
            !old(self).spec_state().spec_can_activate() && !old(self).reactivates(capability) ==> r
                == Err::<String, FailoverError>(FailoverError::InvalidState) && *final(self) == *old(self),
            old(self).spec_state().spec_can_activate() && !has_candidate(
                old(self).entries(),
                capability,
            ) ==> r == Err::<String, FailoverError>(FailoverError::CapabilityUnavailable)
                && *final(self) == *old(self),
            old(self).spec_state().spec_can_activate() && has_candidate(
                old(self).entries(),
                capability,
            ) ==> {
                let best = best_in(old(self).entries(), capability);
                if old(self).spec_active() == Some(best.name@) {
                    r == Err::<String, FailoverError>(FailoverError::AlreadyActive) && *final(self)
                        == *old(self)
                } else {
                    &&& r matches Ok(n) && n@ == best.name@
                    &&& final(self).spec_active() == Some(best.name@)
                    &&& final(self).spec_state() == FailoverState::Active
                    &&& final(self).entries() == old(self).entries()
                }
            },
    {
        proof {
            use_type_invariant(&*self);
        }
        let best = self.best_index(capability);
        let already = match best {
            Some(i) => match &self.active_backend {
                Some(active) => str_eq(active.as_str(), self.backends[i].name.as_str()),
                None => false,
            },
            None => false,
        };
        if !self.state.can_activate() {
            if self.state == FailoverState::Active && already {
                return Err(FailoverError::AlreadyActive);
            }
            return Err(FailoverError::InvalidState);
        }
        let i = match best {
            Some(i) => i,
            None => {
                return Err(FailoverError::CapabilityUnavailable);
            },
        };
        if already {
            return Err(FailoverError::AlreadyActive);
        }
        let selected = self.backends[i].name.clone();
        self.active_backend = Some(selected.clone());
        self.state = FailoverState::Active;
        Ok(selected)
    }

    /// Drops the active backend; the coordinator is ready unless disabled.
    pub fn deactivate(&mut self)
        ensures
            final(self).spec_active() is None,
            final(self).entries() == old(self).entries(),
            final(self).spec_state() == (if old(self).spec_state() is Disabled {
                FailoverState::Disabled
            } else {
                FailoverState::Ready
            }),
    {
        proof {
            use_type_invariant(&*self);
        }
        self.active_backend = None;
        if self.state != FailoverState::Disabled {
            self.state = FailoverState::Ready;
        }
    }

    pub fn mark_degraded(&mut self)
        ensures
            final(self).spec_active() == old(self).spec_active(),
            final(self).entries() == old(self).entries(),
            final(self).spec_state() == (if old(self).spec_state() is Disabled {
                FailoverState::Disabled
            } else {
                FailoverState::Degraded
            }),
    {
        proof {
            use_type_invariant(&*self);
        }
        if self.state != FailoverState::Disabled {
            self.state = FailoverState::Degraded;
        }
    }

    pub fn mark_failed(&mut self)
        ensures
            final(self).spec_active() is None,
            final(self).entries() == old(self).entries(),
            final(self).spec_state() == FailoverState::Failed,
    {
        proof {
            use_type_invariant(&*self);
        }
        self.state = FailoverState::Failed;
        self.active_backend = None;
    }

    pub fn mark_ready(&mut self)
        ensures
            final(self).spec_active() == old(self).spec_active(),
            final(self).entries() == old(self).entries(),
            final(self).spec_state() == (if old(self).spec_state() is Disabled {
                FailoverState::Disabled
            } else {
                FailoverState::Ready
            }),
    {
        proof {
            use_type_invariant(&*self);
        }
        if self.state != FailoverState::Disabled {
            self.state = FailoverState::Ready;
        }
    }

    pub fn disable(&mut self)
        ensures
            final(self).spec_active() is None,
            final(self).entries() == old(self).entries(),
            final(self).spec_state() == FailoverState::Disabled,
    {
        proof {
            use_type_invariant(&*self);
        }
        self.state = FailoverState::Disabled;
        self.active_backend = None;
    }

    pub fn active_backend(&self) -> (r: Option<&str>)
        ensures
            r is Some == self.spec_active() is Some,
            r matches Some(s) ==> self.spec_active() == Some(s@),
    {
        match &self.active_backend {
            Some(s) => Some(s.as_str()),
            None => None,
        }
    }

    /// The backend called `name`.
    pub fn get(&self, name: &str) -> (r: Option<&FailoverBackend>)
        ensures
            r is Some == has_name(self.entries(), name@),
            r matches Some(b) ==> *b == self.entries()[name_index(self.entries(), name@)],
    {
        match self.index_of(name) {
            Some(i) => Some(&self.backends[i]),
            None => None,
        }
    }

    /// The backends, most preferred first.
    pub fn backends(&self) -> (r: &[FailoverBackend])
        ensures
            r@ == self.entries(),
            ordered(r@),
    {
        proof {
            use_type_invariant(self);
        }
        self.backends.as_slice()
    }

    pub fn clear(&mut self)
        ensures
            final(self).entries().len() == 0,
            final(self).spec_active() is None,
            final(self).spec_state() == FailoverState::Ready,
    {
        proof {
            use_type_invariant(&*self);
        }
        self.backends = Vec::new();
        self.active_backend = None;
        self.state = FailoverState::Ready;
    }

    pub fn len(&self) -> (r: usize)
        ensures
            r == self.entries().len(),
    {
        self.backends.len()
    }

    pub fn is_empty(&self) -> (r: bool)
        ensures
            r == (self.entries().len() == 0),
    {
        self.backends.len() == 0
    }

    /// The backends that declare `capability`, most preferred first.
    pub fn candidates(&self, capability: BackendCapability) -> (r: Vec<&FailoverBackend>)
        ensures
            r@.map_values(|b: &FailoverBackend| *b) == self.entries().filter(
                |b: FailoverBackend| b.spec_supports(capability),
            ),
            r@.len() > 0 <==> has_candidate(self.entries(), capability),
            r@.len() > 0 ==> *r@[0] == best_in(self.entries(), capability),
            forall|a: int, b: int| 0 <= a < b < r@.len() ==> precedes(*#[trigger] r@[a], *#[trigger] r@[b]),
    {
        proof {
            use_type_invariant(self);
            lemma_first_candidate_is_best(self.entries(), capability);
        }
        let ghost pred = |b: FailoverBackend| b.spec_supports(capability);
        let ghost bs = self.entries();
        let mut result: Vec<&FailoverBackend> = Vec::new();
        let mut i: usize = 0;
        while i < self.backends.len()
            invariant
                i <= bs.len(),
                bs == self.backends@,
                pred == (|b: FailoverBackend| b.spec_supports(capability)),
                result@.map_values(|b: &FailoverBackend| *b) == bs.take(i as int).filter(pred),
            decreases bs.len() - i,
        {
            let ghost before = result@;
            proof {
                assert(bs.take(i + 1).drop_last() =~= bs.take(i as int));
                reveal(Seq::filter);
            }
            if self.backends[i].supports(capability) {
                result.push(&self.backends[i]);
                proof {
                    assert(result@.map_values(|b: &FailoverBackend| *b) =~= before.map_values(
                        |b: &FailoverBackend| *b,
                    ).push(bs[i as int]));
                }
            } else {
                proof {
                    assert(result@ == before);
                }
            }
            i = i + 1;
        }
        assert(bs.take(bs.len() as int) =~= bs);
        proof {
            let m = result@.map_values(|b: &FailoverBackend| *b);
            assert forall|a: int, b: int| 0 <= a < b < result@.len() implies precedes(
                *#[trigger] result@[a],
                *#[trigger] result@[b],
            ) by {
                assert(*result@[a] == m[a]);
                assert(*result@[b] == m[b]);
            }
        }
        result
    }

    /// The names of the backends in name order.
    pub fn names(&self) -> (r: Vec<String>)
        ensures
            names_sorted(name_seq(r@)),
            r@.len() == self.entries().len(),
            forall|k: Seq<char>| #[trigger] name_seq(r@).contains(k) == has_name(self.entries(), k),
    {
        proof {
            use_type_invariant(self);
        }
        let ghost bs = self.entries();
        let mut set: NameMap<()> = NameMap::new();
        let mut i: usize = 0;
        while i < self.backends.len()
            invariant
                i <= bs.len(),
                bs == self.backends@,
                ordered(bs),
                set.wf(),
                set.key_seq().len() == i,
                forall|k: Seq<char>| #[trigger] set.spec_map().contains_key(k) <==> exists|j: int|
                    0 <= j < i && (#[trigger] bs[j]).name@ == k,
            decreases bs.len() - i,
        {
            let ghost before = set.spec_map();
            proof {
                if before.contains_key(bs[i as int].name@) {
                    let j = choose|j: int| 0 <= j < i && (#[trigger] bs[j]).name@ == bs[i as int].name@;
                    assert(bs[j].name@ != bs[i as int].name@);
                }
            }
            set.insert(self.backends[i].name.clone(), ());
            proof {
                assert forall|k: Seq<char>| #[trigger] set.spec_map().contains_key(k) implies exists|j: int|
                    0 <= j < i + 1 && (#[trigger] bs[j]).name@ == k by {
                    if k != bs[i as int].name@ {
                        assert(before.contains_key(k));
                    }
                }
                assert forall|k: Seq<char>| (exists|j: int|
                    0 <= j < i + 1 && (#[trigger] bs[j]).name@ == k) implies #[trigger] set.spec_map().contains_key(k) by {
                    let j = choose|j: int| 0 <= j < i + 1 && (#[trigger] bs[j]).name@ == k;
                    if j < i {
                        assert(before.contains_key(k));
                    }
                }
            }
            i = i + 1;
        }
        proof {
            set.lemma_wf();
            set.lemma_dom();
        }
        let r = set.keys().clone();
        proof {
            assert forall|k: Seq<char>| #[trigger] name_seq(r@).contains(k) == has_name(bs, k) by {
                assert(set.spec_map().dom().contains(k) == set.key_seq().to_set().contains(k));
                if has_name(bs, k) {
                    let j = choose|j: int| 0 <= j < bs.len() && (#[trigger] bs[j]).name@ == k;
                    assert(set.spec_map().contains_key(k));
                }
                if set.spec_map().contains_key(k) {
                    let j = choose|j: int| 0 <= j < i && (#[trigger] bs[j]).name@ == k;
                }
            }
        }
        r
    }
}

} // verus!
