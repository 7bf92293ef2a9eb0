//! Choosing a backend for a set of capability requirements.
//!
//! Selection reads the manager's registry and policy only; it never starts,
//! stops or otherwise changes a backend. Round-robin selection advances the
//! manager's cursor.
use vstd::prelude::*;

use crate::manager::backend::{BackendLifecycle, BackendRole};
use crate::manager::capabilities::{
    check_requirements, requirements_met, BackendCapability, CapabilityRequirement,
};
use crate::manager::health::BackendHealth;
use crate::manager::manager::{BackendManager, FailoverPolicy};
use crate::namemap::{lemma_filter_members, name_seq};
use crate::text::str_eq;

verus! {

/// The first element of `s` that satisfies `pred`.
pub open spec fn first_match(s: Seq<Seq<char>>, pred: spec_fn(Seq<char>) -> bool) -> Option<
    Seq<char>,
>
    decreases s.len(),
{
    if s.len() == 0 {
        None
    } else if pred(s[0]) {
        Some(s[0])
    } else {
        first_match(s.drop_first(), pred)
    }
}

/// What `first_match` finds is an element satisfying the predicate.
pub proof fn lemma_first_match(s: Seq<Seq<char>>, pred: spec_fn(Seq<char>) -> bool)
    ensures
        first_match(s, pred) is Some == (exists|i: int| 0 <= i < s.len() && pred(#[trigger] s[i])),
        first_match(s, pred) matches Some(x) ==> s.contains(x) && pred(x),
    decreases s.len(),
{
    if s.len() > 0 {
        lemma_first_match(s.drop_first(), pred);
        if !pred(s[0]) {
            if exists|i: int| 0 <= i < s.len() && pred(#[trigger] s[i]) {
                let i = choose|i: int| 0 <= i < s.len() && pred(#[trigger] s[i]);
                assert(s.drop_first()[i - 1] == s[i]);
            }
            if first_match(s, pred) is Some {
                let x = first_match(s, pred)->Some_0;
                let j = choose|j: int| 0 <= j < s.drop_first().len() && s.drop_first()[j] == x;
                assert(s[j + 1] == x);
            }
            if exists|i: int| 0 <= i < s.drop_first().len() && pred(#[trigger] s.drop_first()[i]) {
                let i = choose|i: int| 0 <= i < s.drop_first().len() && pred(#[trigger] s.drop_first()[i]);
                assert(s[i + 1] == s.drop_first()[i]);
            }
        } else {
            assert(s.contains(s[0]));
        }
    }
}

/// The operational backends that meet every required capability, in name
/// order.
pub open spec fn capable_names(
    manager: BackendManager,
    requirements: Seq<CapabilityRequirement>,
) -> Seq<Seq<char>> {
    manager.names_view().filter(
        |n: Seq<char>|
            manager.runtime_of(n).spec_is_lifecycle_available() && requirements_met(
                manager.runtime_of(n).descriptor.capabilities@,
                requirements,
            ),
    )
}

/// The capable backends that report `Healthy`, in name order.
pub open spec fn healthy_capable_names(
    manager: BackendManager,
    requirements: Seq<CapabilityRequirement>,
) -> Seq<Seq<char>> {
    capable_names(manager, requirements).filter(
        |n: Seq<char>| manager.monitor_of(n).spec_health() == BackendHealth::Healthy,
    )
}

/// A candidate that `PreferPrimary` (`primary`) or `PreferHealthy`
/// (otherwise) prefers: registered with role `Primary`, or registered and
/// reporting `Healthy`.
pub open spec fn preference(manager: BackendManager, primary: bool) -> spec_fn(Seq<char>) -> bool {
    |c: Seq<char>|
        manager.has(c) && if primary {
            manager.runtime_of(c).descriptor.role == BackendRole::Primary
        } else {
            manager.monitor_of(c).spec_health() == BackendHealth::Healthy
        }
}

/// The candidate the manager's policy picks from a non-empty list.
pub open spec fn policy_pick(manager: BackendManager, candidates: Seq<Seq<char>>) -> Seq<char> {
    match manager.policy() {
        FailoverPolicy::NoFailover => candidates[0],
        FailoverPolicy::PreferPrimary => match first_match(candidates, preference(manager, true)) {
            Some(c) => c,
            None => candidates[0],
        },
        FailoverPolicy::PreferHealthy => match first_match(candidates, preference(manager, false)) {
            Some(c) => c,
            None => candidates[0],
        },
        FailoverPolicy::RoundRobin => candidates[(manager.cursor() as int) % (candidates.len() as int)],
    }
}

/// The policy pick is one of the candidates.
pub proof fn lemma_policy_pick_member(manager: BackendManager, candidates: Seq<Seq<char>>)
    requires
        candidates.len() > 0,
    ensures
        candidates.contains(policy_pick(manager, candidates)),
{
    lemma_first_match(candidates, preference(manager, true));
    lemma_first_match(candidates, preference(manager, false));
    assert(candidates.contains(candidates[0]));
    let i = (manager.cursor() as int) % (candidates.len() as int);
    assert(candidates.contains(candidates[i]));
}

/// What `first_match` finds is the earliest element satisfying the
/// predicate.
proof fn lemma_first_match_index(s: Seq<Seq<char>>, pred: spec_fn(Seq<char>) -> bool)
    ensures
        first_match(s, pred) matches Some(x) ==> exists|i: int|
            0 <= i < s.len() && s[i] == x && pred(x) && forall|k: int| 0 <= k < i ==> !pred(#[trigger] s[k]),
        first_match(s, pred) is None ==> forall|k: int| 0 <= k < s.len() ==> !pred(#[trigger] s[k]),
    decreases s.len(),
{
    if s.len() > 0 {
        let t = s.drop_first();
        lemma_first_match_index(t, pred);
        if !pred(s[0]) {
            if first_match(t, pred) is Some {
                let x = first_match(t, pred)->Some_0;
                let i = choose|i: int|
                    0 <= i < t.len() && t[i] == x && pred(x) && forall|k: int| 0 <= k < i ==> !pred(#[trigger] t[k]);
                assert(s[i + 1] == x);
                assert forall|k: int| 0 <= k < i + 1 implies !pred(#[trigger] s[k]) by {
                    if k > 0 {
                        assert(s[k] == t[k - 1]);
                    }
                }
            } else {
                assert forall|k: int| 0 <= k < s.len() implies !pred(#[trigger] s[k]) by {
                    if k > 0 {
                        assert(s[k] == t[k - 1]);
                    }
                }
            }
        }
    }
}

/// How each policy picks among a non-empty list of candidates.
/// `NoFailover` takes the first. `PreferPrimary` takes the first candidate
/// registered with role `Primary`, and the first candidate when there is
/// none; `PreferHealthy` likewise with the first registered candidate whose
/// health is `Healthy`. `RoundRobin` takes the candidate at the cursor,
/// counted around the list.
pub proof fn lemma_policy_pick_rules(manager: BackendManager, candidates: Seq<Seq<char>>)
    requires
        candidates.len() > 0,
    ensures
        manager.policy() == FailoverPolicy::NoFailover ==> policy_pick(manager, candidates)
            == candidates[0],
        manager.policy() == FailoverPolicy::PreferPrimary ==> {
            ||| exists|i: int|
                0 <= i < candidates.len() && policy_pick(manager, candidates) == candidates[i]
                    && manager.has(candidates[i]) && manager.runtime_of(candidates[i]).descriptor.role
                    == BackendRole::Primary && forall|k: int|
                    0 <= k < i ==> !(manager.has(#[trigger] candidates[k]) && manager.runtime_of(
                        candidates[k],
                    ).descriptor.role == BackendRole::Primary)
            ||| policy_pick(manager, candidates) == candidates[0] && forall|k: int|
                0 <= k < candidates.len() ==> !(manager.has(#[trigger] candidates[k])
                    && manager.runtime_of(candidates[k]).descriptor.role == BackendRole::Primary)
        },
        manager.policy() == FailoverPolicy::PreferHealthy ==> {
            ||| exists|i: int|
                0 <= i < candidates.len() && policy_pick(manager, candidates) == candidates[i]
                    && manager.has(candidates[i]) && manager.monitor_of(candidates[i]).spec_health()
                    == BackendHealth::Healthy && forall|k: int|
                    0 <= k < i ==> !(manager.has(#[trigger] candidates[k]) && manager.monitor_of(
                        candidates[k],
                    ).spec_health() == BackendHealth::Healthy)
            ||| policy_pick(manager, candidates) == candidates[0] && forall|k: int|
                0 <= k < candidates.len() ==> !(manager.has(#[trigger] candidates[k])
                    && manager.monitor_of(candidates[k]).spec_health() == BackendHealth::Healthy)
        },
        manager.policy() == FailoverPolicy::RoundRobin ==> policy_pick(manager, candidates)
            == candidates[(manager.cursor() as int) % (candidates.len() as int)],
{
    let pp = preference(manager, true);
    let ph = preference(manager, false);
    lemma_first_match_index(candidates, pp);
    lemma_first_match_index(candidates, ph);
    assert forall|c: Seq<char>| #[trigger] pp(c) == (manager.has(c) && manager.runtime_of(c).descriptor.role
        == BackendRole::Primary) by {}
    assert forall|c: Seq<char>| #[trigger] ph(c) == (manager.has(c) && manager.monitor_of(c).spec_health()
        == BackendHealth::Healthy) by {}
}

/// The cursor after a selection among `n` candidates under `policy`.
pub open spec fn cursor_after(policy: FailoverPolicy, cursor: usize, n: nat) -> usize {
    if policy == FailoverPolicy::RoundRobin && n > 0 {
        if cursor == usize::MAX {
            0
        } else {
            (cursor + 1) as usize
        }
    } else {
        cursor
    }
}

/// Operational backends meeting every required capability, in name order.
/// Missing optional capabilities never exclude a backend.
pub fn find_capable_requirements(
    manager: &BackendManager,
    requirements: &[CapabilityRequirement],
) -> (r: Vec<String>)
    ensures
        name_seq(r@) == capable_names(*manager, requirements@),
{
    let names = manager.names();
    let ghost ks = manager.names_view();
    let ghost pred = |n: Seq<char>|
        manager.runtime_of(n).spec_is_lifecycle_available() && requirements_met(
            manager.runtime_of(n).descriptor.capabilities@,
            requirements@,
        );
    let mut candidates: Vec<String> = Vec::new();
    let mut i: usize = 0;
    while i < names.len()
        invariant
            i <= names@.len(),
            name_seq(names@) == ks,
            ks == manager.names_view(),
            forall|k: Seq<char>| #[trigger] ks.contains(k) == manager.has(k),
            pred == (|n: Seq<char>|
                manager.runtime_of(n).spec_is_lifecycle_available() && requirements_met(
                    manager.runtime_of(n).descriptor.capabilities@,
                    requirements@,
                )),
            name_seq(candidates@) == ks.take(i as int).filter(pred),
        decreases names@.len() - i,
    {
        let ghost before = candidates@;
        let ghost n = ks[i as int];
        proof {
            assert(names@[i as int]@ == n);
            assert(ks.take(i + 1).drop_last() =~= ks.take(i as int));
            reveal(Seq::filter);
            assert(ks.contains(n));
        }
        let keep = match manager.runtime_state(names[i].as_str()) {
            Ok(runtime) => {
                if matches!(runtime.lifecycle, BackendLifecycle::Running | BackendLifecycle::Degraded) {
                    match manager.capabilities(names[i].as_str()) {
                        Ok(capabilities) => check_requirements(&capabilities, requirements).is_satisfied(),
                        Err(_) => false,
                    }
                } else {
                    false
                }
            },
            Err(_) => false,
        };
        if keep {
            candidates.push(names[i].clone());
            proof {
                assert(name_seq(candidates@) =~= name_seq(before).push(n));
            }
        }
        i = i + 1;
    }
    assert(ks.take(names@.len() as int) =~= ks);
    candidates
}

/// The capable backends that currently report `Healthy`, in name order.
pub fn find_healthy_capable_requirements(
    manager: &BackendManager,
    requirements: &[CapabilityRequirement],
) -> (r: Vec<String>)
    ensures
        name_seq(r@) == healthy_capable_names(*manager, requirements@),
{
    let capable = find_capable_requirements(manager, requirements);
    let ghost cs = name_seq(capable@);
    let ghost pred = |n: Seq<char>| manager.monitor_of(n).spec_health() == BackendHealth::Healthy;
    let mut result: Vec<String> = Vec::new();
    let mut i: usize = 0;
    while i < capable.len()
        invariant
            i <= capable@.len(),
            cs == name_seq(capable@),
            cs == capable_names(*manager, requirements@),
            pred == (|n: Seq<char>| manager.monitor_of(n).spec_health() == BackendHealth::Healthy),
            name_seq(result@) == cs.take(i as int).filter(pred),
        decreases capable@.len() - i,
    {
        let ghost before = result@;
        let ghost n = cs[i as int];
        proof {
            assert(capable@[i as int]@ == n);
            assert(cs.take(i + 1).drop_last() =~= cs.take(i as int));
            reveal(Seq::filter);
        }
        let keep = match manager.health(capable[i].as_str()) {
            Ok(h) => h == BackendHealth::Healthy,
            Err(_) => false,
        };
        proof {
            lemma_filter_members(
                manager.names_view(),
                |n: Seq<char>|
                    manager.runtime_of(n).spec_is_lifecycle_available() && requirements_met(
                        manager.runtime_of(n).descriptor.capabilities@,
                        requirements@,
                    ),
            );
            manager.lemma_has();
        }
        if keep {
            result.push(capable[i].clone());
            proof {
                assert(name_seq(result@) =~= name_seq(before).push(n));
            }
        }
        i = i + 1;
    }
    assert(cs.take(capable@.len() as int) =~= cs);
    result
}

/// Position of the first candidate that the preference of `primary`
/// accepts.
fn first_preferred(manager: &BackendManager, candidates: &[String], primary: bool) -> (r: Option<
    usize,
>)
    ensures
        match first_match(name_seq(candidates@), preference(*manager, primary)) {
            Some(c) => r matches Some(i) && i < candidates@.len() && candidates@[i as int]@ == c,
            None => r is None,
        },
{
    let ghost cs = name_seq(candidates@);
    let ghost pred = preference(*manager, primary);
    let mut i: usize = 0;
    assert(cs.subrange(0, cs.len() as int) =~= cs);
    while i < candidates.len()
        invariant
            i <= candidates@.len(),
            cs == name_seq(candidates@),
            pred == preference(*manager, primary),
            first_match(cs, pred) == first_match(cs.subrange(i as int, cs.len() as int), pred),
        decreases candidates@.len() - i,
    {
        let ghost rest = cs.subrange(i as int, cs.len() as int);
        proof {
            assert(rest[0] == candidates@[i as int]@);
            assert(rest.drop_first() =~= cs.subrange(i + 1, cs.len() as int));
        }
        let hit = match manager.runtime_state(candidates[i].as_str()) {
            Ok(runtime) => if primary {
                runtime.descriptor.role == BackendRole::Primary
            } else {
                match manager.health(candidates[i].as_str()) {
                    Ok(h) => h == BackendHealth::Healthy,
                    Err(_) => false,
                }
            },
            Err(_) => false,
        };
        proof {
            assert(hit == pred(rest[0]));
        }
        if hit {
            return Some(i);
        }
        i = i + 1;
    }
    proof {
        assert(cs.subrange(cs.len() as int, cs.len() as int).len() == 0);
    }
    None
}

/// Picks one candidate by the manager's policy: the first for `NoFailover`; the
/// first primary for `PreferPrimary` and the first healthy for
/// `PreferHealthy`, each falling back to the first; the one under the
/// cursor for `RoundRobin`, which then advances.
fn select_from_candidates(manager: &mut BackendManager, candidates: &[String]) -> (r: Option<
    String,
>)
    ensures
        final(manager).backend_map() == old(manager).backend_map(),
        final(manager).names_view() == old(manager).names_view(),
        final(manager).policy() == old(manager).policy(),
        final(manager).cursor() == cursor_after(
            old(manager).policy(),
            old(manager).cursor(),
            candidates@.len(),
        ),
        candidates@.len() == 0 ==> r is None,
        candidates@.len() > 0 ==> (r matches Some(n) && n@ == policy_pick(
            *old(manager),
            name_seq(candidates@),
        )),
{
    if candidates.len() == 0 {
        return None;
    }
    let ghost cs = name_seq(candidates@);
    proof {
        assert(cs[0] == candidates@[0]@);
    }
    match manager.failover_policy() {
        Ok(FailoverPolicy::NoFailover) => Some(candidates[0].clone()),
        Ok(FailoverPolicy::PreferPrimary) => match first_preferred(manager, candidates, true) {
            Some(i) => Some(candidates[i].clone()),
            None => Some(candidates[0].clone()),
        },
        Ok(FailoverPolicy::PreferHealthy) => match first_preferred(manager, candidates, false) {
            Some(i) => Some(candidates[i].clone()),
            None => Some(candidates[0].clone()),
        },
        Ok(FailoverPolicy::RoundRobin) => {
            let cursor = manager.advance_cursor();
            let index = cursor % candidates.len();
            proof {
                assert(cs[index as int] == candidates@[index as int]@);
            }
            Some(candidates[index].clone())
        },
        Err(_) => None,
    }
}

/// The backend the manager's policy picks among the capable ones; `None`
/// when no backend is capable.
pub fn select_backend_for_requirements(
    manager: &mut BackendManager,
    requirements: &[CapabilityRequirement],
) -> (r: Option<String>)
    ensures
        final(manager).backend_map() == old(manager).backend_map(),
        final(manager).names_view() == old(manager).names_view(),
        final(manager).policy() == old(manager).policy(),
        final(manager).cursor() == cursor_after(
            old(manager).policy(),
            old(manager).cursor(),
            capable_names(*old(manager), requirements@).len(),
        ),
        capable_names(*old(manager), requirements@).len() == 0 ==> r is None,
        capable_names(*old(manager), requirements@).len() > 0 ==> (r matches Some(n) && n@
            == policy_pick(*old(manager), capable_names(*old(manager), requirements@))),
        r matches Some(n) ==> capable_names(*old(manager), requirements@).contains(n@),
{
    let candidates = find_capable_requirements(manager, requirements);
    let r = select_from_candidates(manager, candidates.as_slice());
    proof {
        if candidates@.len() > 0 {
            lemma_policy_pick_member(*old(manager), name_seq(candidates@));
        }
    }
    r
}

/// A healthy replacement for `excluded_backend` under the manager's
/// failover policy. `NoFailover` disables failover. Candidates are the capable
/// backends reporting `Healthy` whose lifecycle is `Running` (a degraded
/// backend is not healthy), other than `excluded_backend`.
pub fn select_healthy_backend_for_failover(
    manager: &mut BackendManager,
    capability: BackendCapability,
    excluded_backend: &str,
) -> (r: Option<String>)
    ensures
        ({
            let candidates = healthy_capable_names(
                *old(manager),
                seq![CapabilityRequirement { capability, required: true }],
            ).filter(
                |n: Seq<char>|
                    n != excluded_backend@ && old(manager).runtime_of(n).lifecycle
                        == BackendLifecycle::Running,
            );
            &&& final(manager).backend_map() == old(manager).backend_map()
            &&& final(manager).policy() == old(manager).policy()
            &&& old(manager).policy() == FailoverPolicy::NoFailover ==> r is None && final(manager).cursor()
                == old(manager).cursor()
            &&& old(manager).policy() != FailoverPolicy::NoFailover ==> {
                &&& final(manager).cursor() == cursor_after(
                    old(manager).policy(),
                    old(manager).cursor(),
                    candidates.len(),
                )
                &&& candidates.len() == 0 ==> r is None
                &&& candidates.len() > 0 ==> (r matches Some(n) && n@ == policy_pick(
                    *old(manager),
                    candidates,
                ))
            }
        }),
{
    match manager.failover_policy() {
        Ok(FailoverPolicy::NoFailover) => {
            return None;
        },
        _ => {},
    }
    let requirement = CapabilityRequirement::required(capability);
    let requirements = vec![requirement];
    proof {
        assert(requirements@ =~= seq![requirement]);
        assert(requirements@ =~= seq![CapabilityRequirement { capability, required: true }]);
    }
    let healthy = find_healthy_capable_requirements(manager, requirements.as_slice());
    let ghost hs = name_seq(healthy@);
    let ghost pred = |n: Seq<char>|
        n != excluded_backend@ && manager.runtime_of(n).lifecycle == BackendLifecycle::Running;
    let mut candidates: Vec<String> = Vec::new();
    let mut i: usize = 0;
    while i < healthy.len()
        invariant
            i <= healthy@.len(),
            hs == name_seq(healthy@),
            requirements@ == seq![CapabilityRequirement { capability, required: true }],
            hs == healthy_capable_names(*manager, requirements@),
            pred == (|n: Seq<char>|
                n != excluded_backend@ && manager.runtime_of(n).lifecycle
                    == BackendLifecycle::Running),
            name_seq(candidates@) == hs.take(i as int).filter(pred),
        decreases healthy@.len() - i,
    {
        let ghost before = candidates@;
        let ghost n = hs[i as int];
        proof {
            assert(healthy@[i as int]@ == n);
            assert(hs.take(i + 1).drop_last() =~= hs.take(i as int));
            reveal(Seq::filter);
        }
        let keep = !str_eq(healthy[i].as_str(), excluded_backend) && match manager.runtime_state(
            healthy[i].as_str(),
        ) {
            Ok(runtime) => runtime.lifecycle == BackendLifecycle::Running,
            Err(_) => false,
        };
        proof {
            let req = seq![CapabilityRequirement { capability, required: true }];
            assert(requirements@ =~= req);
            let cap_pred = |n: Seq<char>|
                manager.runtime_of(n).spec_is_lifecycle_available() && requirements_met(
                    manager.runtime_of(n).descriptor.capabilities@,
                    req,
                );
            lemma_filter_members(manager.names_view(), cap_pred);
            lemma_filter_members(
                capable_names(*manager, req),
                |n: Seq<char>| manager.monitor_of(n).spec_health() == BackendHealth::Healthy,
            );
            manager.lemma_has();
        }
        if keep {
            candidates.push(healthy[i].clone());
            proof {
                assert(name_seq(candidates@) =~= name_seq(before).push(n));
            }
        }
        i = i + 1;
    }
    assert(hs.take(healthy@.len() as int) =~= hs);
    proof {
        assert(requirements@ =~= seq![CapabilityRequirement { capability, required: true }]);
    }
    select_from_candidates(manager, candidates.as_slice())
}

} // verus!
