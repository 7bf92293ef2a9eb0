//! Flows observed through WFP and the table that tracks them.
use vstd::prelude::*;

use crate::error::{EngineError, EngineErrorCode};
use crate::wfp::engine::wfp_error;

verus! {

#[derive(Debug, Clone, Copy, PartialEq, Eq, Structural)]
pub enum WfpFlowState {
    Unknown,
    New,
    Established,
    Closing,
    Closed,
    Aborted,
}

/// The transition matrix of a flow; staying put is always allowed.
pub open spec fn flow_step(from: WfpFlowState, to: WfpFlowState) -> bool {
    ||| from == to
    ||| (from is Unknown && (to is New || to is Established))
    ||| (from is New && (to is Established || to is Closing || to is Aborted))
    ||| (from is Established && (to is Closing || to is Closed || to is Aborted))
    ||| (from is Closing && (to is Closed || to is Aborted))
}

impl WfpFlowState {
    pub open spec fn spec_is_terminal(self) -> bool {
        self is Closed || self is Aborted
    }

    pub fn is_terminal(self) -> (r: bool)
        ensures
            r == self.spec_is_terminal(),
    {
        matches!(self, WfpFlowState::Closed | WfpFlowState::Aborted)
    }

    pub fn is_active(self) -> (r: bool)
        ensures
            r == (self is New || self is Established || self is Closing),
    {
        matches!(self, WfpFlowState::New | WfpFlowState::Established | WfpFlowState::Closing)
    }

    pub fn can_transition_to(self, next: Self) -> (r: bool)
        ensures
            r == flow_step(self, next),
    {
        if self == next {
            return true;
        }
        match (self, next) {
            (WfpFlowState::Unknown, WfpFlowState::New) => true,
            (WfpFlowState::Unknown, WfpFlowState::Established) => true,
            (WfpFlowState::New, WfpFlowState::Established) => true,
            (WfpFlowState::New, WfpFlowState::Closing) => true,
            (WfpFlowState::New, WfpFlowState::Aborted) => true,
            (WfpFlowState::Established, WfpFlowState::Closing) => true,
            (WfpFlowState::Established, WfpFlowState::Closed) => true,
            (WfpFlowState::Established, WfpFlowState::Aborted) => true,
            (WfpFlowState::Closing, WfpFlowState::Closed) => true,
            (WfpFlowState::Closing, WfpFlowState::Aborted) => true,
            _ => false,
        }
    }

    /// The state with wire value `value` (0 to 5, in declaration order).
    pub fn try_from(value: u8) -> (r: Result<Self, EngineError>)
        ensures
            r is Ok == (value <= 5),
            value == 0 ==> r == Ok::<Self, EngineError>(WfpFlowState::Unknown),
            value == 1 ==> r == Ok::<Self, EngineError>(WfpFlowState::New),
            value == 2 ==> r == Ok::<Self, EngineError>(WfpFlowState::Established),
            value == 3 ==> r == Ok::<Self, EngineError>(WfpFlowState::Closing),
            value == 4 ==> r == Ok::<Self, EngineError>(WfpFlowState::Closed),
            value == 5 ==> r == Ok::<Self, EngineError>(WfpFlowState::Aborted),
            r matches Err(e) ==> e.code == EngineErrorCode::InvalidArgument,
    {
        match value {
            0 => Ok(WfpFlowState::Unknown),
            1 => Ok(WfpFlowState::New),
            2 => Ok(WfpFlowState::Established),
            3 => Ok(WfpFlowState::Closing),
            4 => Ok(WfpFlowState::Closed),
            5 => Ok(WfpFlowState::Aborted),
            _ => Err(EngineError::invalid_argument()),
        }
    }
}

/// One flow with its endpoints and counters.
#[derive(Debug, Clone, PartialEq, Eq)]
pub struct WfpFlow {
    pub flow_id: u64,
    pub filter_id: Option<u64>,
    pub process_id: Option<u32>,
    pub local_address: Option<Vec<u8>>,
    pub remote_address: Option<Vec<u8>>,
    pub local_port: Option<u16>,
    pub remote_port: Option<u16>,
    pub protocol: u8,
    pub state: WfpFlowState,
    pub packet_count: u64,
    pub byte_count: u64,
    pub created_at_ns: u64,
    pub last_seen_ns: u64,
}

/// `a - b`, or 0 when `b` is larger.
pub open spec fn sat_sub(a: u64, b: u64) -> u64 {
    if a >= b {
        (a - b) as u64
    } else {
        0
    }
}

/// The same flow apart from state, counters and last activity.
pub open spec fn same_identity(a: WfpFlow, b: WfpFlow) -> bool {
    &&& a.flow_id == b.flow_id
    &&& a.filter_id == b.filter_id
    &&& a.process_id == b.process_id
    &&& a.local_address == b.local_address
    &&& a.remote_address == b.remote_address
    &&& a.local_port == b.local_port
    &&& a.remote_port == b.remote_port
    &&& a.protocol == b.protocol
    &&& a.created_at_ns == b.created_at_ns
}

impl WfpFlow {
    pub open spec fn spec_idle(self, now_ns: u64, timeout_ns: u64) -> bool {
        sat_sub(now_ns, self.last_seen_ns) >= timeout_ns
    }

    /// A new flow seen at `timestamp_ns`; flow id 0 is refused.
    pub fn new(flow_id: u64, protocol: u8, timestamp_ns: u64) -> (r: Result<Self, EngineError>)
        ensures
            r is Ok == (flow_id != 0),
            r matches Err(e) ==> e.code == EngineErrorCode::InvalidArgument,
            r matches Ok(f) ==> f.flow_id == flow_id && f.protocol == protocol && f.state
                == WfpFlowState::New && f.packet_count == 0 && f.byte_count == 0 && f.created_at_ns
                == timestamp_ns && f.last_seen_ns == timestamp_ns && f.filter_id is None
                && f.process_id is None && f.local_address is None && f.remote_address is None
                && f.local_port is None && f.remote_port is None,
    {
        if flow_id == 0 {
            return Err(EngineError::invalid_argument());
        }
        Ok(
            WfpFlow {
                flow_id,
                filter_id: None,
                process_id: None,
                local_address: None,
                remote_address: None,
                local_port: None,
                remote_port: None,
                protocol,
                state: WfpFlowState::New,
                packet_count: 0,
                byte_count: 0,
                created_at_ns: timestamp_ns,
                last_seen_ns: timestamp_ns,
            },
        )
    }

    pub fn set_filter_id(&mut self, filter_id: Option<u64>)
        ensures
            *final(self) == (WfpFlow { filter_id, ..*old(self) }),
    {
        self.filter_id = filter_id;
    }

    pub fn set_process_id(&mut self, process_id: Option<u32>)
        ensures
            *final(self) == (WfpFlow { process_id, ..*old(self) }),
    {
        self.process_id = process_id;
    }

    pub fn set_local_address(&mut self, address: Vec<u8>)
        ensures
            *final(self) == (WfpFlow { local_address: Some(address), ..*old(self) }),
    {
        self.local_address = Some(address);
    }

    pub fn set_remote_address(&mut self, address: Vec<u8>)
        ensures
            *final(self) == (WfpFlow { remote_address: Some(address), ..*old(self) }),
    {
        self.remote_address = Some(address);
    }

    pub fn set_ports(&mut self, local: u16, remote: u16)
        ensures
            *final(self) == (WfpFlow {
                local_port: Some(local),
                remote_port: Some(remote),
                ..*old(self)
            }),
    {
        self.local_port = Some(local);
        self.remote_port = Some(remote);
    }

    /// Moves to `next` when the transition matrix allows it.
    pub fn transition(&mut self, next: WfpFlowState) -> (r: Result<(), EngineError>)
        ensures
            r is Ok == flow_step(old(self).state, next),
            r is Ok ==> *final(self) == (WfpFlow { state: next, ..*old(self) }),
            r is Err ==> *final(self) == *old(self) && wfp_error(
                r->Err_0,
                EngineErrorCode::InvalidStateTransition,
            ),
    {
        if !self.state.can_transition_to(next) {
            return Err(EngineError::backend(EngineErrorCode::InvalidStateTransition, "wfp"));
        }
        self.state = next;
        Ok(())
    }

    /// Counts one packet of `bytes` seen at `timestamp_ns`; a new flow
    /// becomes established. A closed or aborted flow refuses; a counter
    /// that would overflow is an error.
    pub fn record_packet(&mut self, bytes: u64, timestamp_ns: u64) -> (r: Result<(), EngineError>)
        ensures
            same_identity(*final(self), *old(self)),
            old(self).state.spec_is_terminal() ==> r is Err && wfp_error(
                r->Err_0,
                EngineErrorCode::InvalidStateTransition,
            ) && *final(self) == *old(self),
            !old(self).state.spec_is_terminal() && (old(self).packet_count == u64::MAX || old(self).byte_count + bytes > u64::MAX) ==> r is Err && r->Err_0.code
                == EngineErrorCode::IntegerOverflow,
            r is Ok == (!old(self).state.spec_is_terminal() && old(self).packet_count < u64::MAX
                && old(self).byte_count + bytes <= u64::MAX),
            r is Ok ==> final(self).packet_count == old(self).packet_count + 1
                && final(self).byte_count == old(self).byte_count + bytes
                && final(self).last_seen_ns == timestamp_ns && final(self).state == (if old(self).state is New {
                WfpFlowState::Established
            } else {
                old(self).state
            }),
    {
        if self.state.is_terminal() {
            return Err(EngineError::backend(EngineErrorCode::InvalidStateTransition, "wfp"));
        }
        let packets = match self.packet_count.checked_add(1) {
            Some(p) => p,
            None => {
                return Err(EngineError::integer_overflow());
            },
        };
        self.packet_count = packets;
        let total = match self.byte_count.checked_add(bytes) {
            Some(b) => b,
            None => {
                return Err(EngineError::integer_overflow());
            },
        };
        self.byte_count = total;
        self.last_seen_ns = timestamp_ns;
        if self.state == WfpFlowState::New {
            self.state = WfpFlowState::Established;
        }
        Ok(())
    }

    /// Time since creation, 0 if `now_ns` is earlier.
    pub fn age_ns(&self, now_ns: u64) -> (r: u64)
        ensures
            r == sat_sub(now_ns, self.created_at_ns),
    {
        now_ns.saturating_sub(self.created_at_ns)
    }

    /// Time since the last packet, 0 if `now_ns` is earlier.
    pub fn idle_ns(&self, now_ns: u64) -> (r: u64)
        ensures
            r == sat_sub(now_ns, self.last_seen_ns),
    {
        now_ns.saturating_sub(self.last_seen_ns)
    }

    pub fn is_idle(&self, now_ns: u64, timeout_ns: u64) -> (r: bool)
        ensures
            r == self.spec_idle(now_ns, timeout_ns),
    {
        self.idle_ns(now_ns) >= timeout_ns
    }

    /// Closes the flow, through `Closing` where needed; closing a closed
    /// flow changes nothing, an aborted one cannot close.
    pub fn close(&mut self) -> (r: Result<(), EngineError>)
        ensures
            same_identity(*final(self), *old(self)),
            final(self).packet_count == old(self).packet_count,
            final(self).byte_count == old(self).byte_count,
            old(self).state is Closed ==> r is Ok && *final(self) == *old(self),
            old(self).state is Aborted ==> r is Err && wfp_error(
                r->Err_0,
                EngineErrorCode::InvalidStateTransition,
            ),
            r is Ok == (old(self).state is Closed || old(self).state is Closing || flow_step(
                old(self).state,
                WfpFlowState::Closing,
            ) && !(old(self).state is Aborted)),
            r is Ok ==> final(self).state == WfpFlowState::Closed,
    {
        if self.state == WfpFlowState::Closed {
            return Ok(());
        }
        if self.state == WfpFlowState::Aborted {
            return Err(EngineError::backend(EngineErrorCode::InvalidStateTransition, "wfp"));
        }
        if self.state != WfpFlowState::Closing {
            self.transition(WfpFlowState::Closing)?;
        }
        self.transition(WfpFlowState::Closed)
    }

    /// Aborts the flow; a closed or aborted flow is left as it is. A flow
    /// in `Unknown` state cannot abort.
    pub fn abort(&mut self) -> (r: Result<(), EngineError>)
        ensures
            r is Ok == !(old(self).state is Unknown),
            old(self).state.spec_is_terminal() ==> *final(self) == *old(self),
            !old(self).state.spec_is_terminal() && r is Ok ==> *final(self) == (WfpFlow {
                state: WfpFlowState::Aborted,
                ..*old(self)
            }),
            r is Err ==> *final(self) == *old(self) && wfp_error(
                r->Err_0,
                EngineErrorCode::InvalidStateTransition,
            ),
    {
        if self.state.is_terminal() {
            return Ok(());
        }
        self.transition(WfpFlowState::Aborted)
    }
}

/// Some entry of `es` is filed under `id`.
pub open spec fn has_key(es: Seq<(u64, WfpFlow)>, id: u64) -> bool {
    exists|i: int| 0 <= i < es.len() && (#[trigger] es[i]).0 == id
}

/// No two entries of `es` are filed under the same id.
pub open spec fn distinct_keys(es: Seq<(u64, WfpFlow)>) -> bool {
    forall|i: int, j: int|
        0 <= i < es.len() && 0 <= j < es.len() && i != j ==> (#[trigger] es[i]).0 != (
        #[trigger] es[j]).0
}

/// The position of the entry filed under `id`.
pub open spec fn key_index(es: Seq<(u64, WfpFlow)>, id: u64) -> int {
    choose|i: int| 0 <= i < es.len() && (#[trigger] es[i]).0 == id
}

/// Pairs each id of `ks` with the flow at the same position of `fs`.
pub open spec fn zip_entries(ks: Seq<u64>, fs: Seq<WfpFlow>) -> Seq<(u64, WfpFlow)> {
    Seq::new(ks.len(), |i: int| (ks[i], fs[i]))
}

/// The entries of two columns of the same length are filed under distinct
/// ids exactly when the id column repeats no id.
pub proof fn lemma_zip_distinct(ks: Seq<u64>, fs: Seq<WfpFlow>)
    requires
        ks.len() == fs.len(),
    ensures
        distinct_keys(zip_entries(ks, fs)) == ks.no_duplicates(),
{
    let es = zip_entries(ks, fs);
    if ks.no_duplicates() {
        assert forall|i: int, j: int|
            0 <= i < es.len() && 0 <= j < es.len() && i != j implies (#[trigger] es[i]).0 != (
            #[trigger] es[j]).0 by {
            assert(es[i].0 == ks[i] && es[j].0 == ks[j]);
        }
    }
    if distinct_keys(es) {
        assert forall|i: int, j: int|
            0 <= i < ks.len() && 0 <= j < ks.len() && i != j implies ks[i] != ks[j] by {
            assert(es[i].0 == ks[i] && es[j].0 == ks[j]);
        }
    }
}

/// In a table without repeated ids, the entry found under `id` is the only
/// one filed there.
pub proof fn lemma_key_index_unique(es: Seq<(u64, WfpFlow)>, id: u64, i: int)
    requires
        distinct_keys(es),
        0 <= i < es.len(),
        es[i].0 == id,
    ensures
        key_index(es, id) == i,
{
    let k = key_index(es, id);
    assert(0 <= k < es.len() && es[k].0 == id);
    if k != i {
        assert(es[k].0 != es[i].0);
    }
}

/// The ids filed under a flow idle for at least `timeout_ns` at `now_ns`.
pub open spec fn idle_ids(es: Seq<(u64, WfpFlow)>, now_ns: u64, timeout_ns: u64) -> Set<u64> {
    Set::new(
        |id: u64| has_key(es, id) && es[key_index(es, id)].1.spec_idle(now_ns, timeout_ns),
    )
}

/// When no id is filed twice, the entries whose flows are idle at `now_ns`
/// are exactly as many as the ids filed under an idle flow.
pub proof fn lemma_idle_entries_are_idle_ids(es: Seq<(u64, WfpFlow)>, now_ns: u64, timeout_ns: u64)
    requires
        distinct_keys(es),
    ensures
        es.filter(|e: (u64, WfpFlow)| e.1.spec_idle(now_ns, timeout_ns)).len() == idle_ids(
            es,
            now_ns,
            timeout_ns,
        ).len(),
{
    let idle = |e: (u64, WfpFlow)| e.1.spec_idle(now_ns, timeout_ns);
    let f = es.filter(idle);
    let ks = f.map_values(|e: (u64, WfpFlow)| e.0);
    crate::namemap::lemma_filter_members(es, idle);
    es.filter_lemma(idle);
    assert forall|a: int, b: int| 0 <= a < ks.len() && 0 <= b < ks.len() && a != b implies ks[a]
        != ks[b] by {
        lemma_filter_index(es, idle, a, b);
        let (i, j) = choose|i: int, j: int|
            0 <= i < es.len() && 0 <= j < es.len() && i != j && es[i] == f[a] && es[j] == f[b];
        assert(es[i].0 != es[j].0);
    }
    ks.unique_seq_to_set();
    assert forall|id: u64| ks.to_set().contains(id) <==> idle_ids(es, now_ns, timeout_ns).contains(
        id,
    ) by {
        if ks.to_set().contains(id) {
            assert(ks.contains(id));
            let a = choose|a: int| 0 <= a < ks.len() && ks[a] == id;
            assert(es.contains(f[a]) && idle(f[a]));
            let i = choose|i: int| 0 <= i < es.len() && es[i] == f[a];
            assert(es[i].0 == id);
            lemma_key_index_unique(es, id, i);
        }
        if idle_ids(es, now_ns, timeout_ns).contains(id) {
            let k = key_index(es, id);
            assert(f.contains(es[k]));
            let a = choose|a: int| 0 <= a < f.len() && f[a] == es[k];
            assert(ks[a] == id);
            assert(ks.contains(id));
        }
    }
    assert(ks.to_set() =~= idle_ids(es, now_ns, timeout_ns));
}

/// A sequence splits into the elements a predicate keeps and those its
/// negation keeps.
pub proof fn lemma_filter_split<A>(s: Seq<A>, pred: spec_fn(A) -> bool, neg: spec_fn(A) -> bool)
    requires
        forall|a: A| #[trigger] neg(a) == !pred(a),
    ensures
        s.filter(pred).len() + s.filter(neg).len() == s.len(),
    decreases s.len(),
{
    reveal(Seq::filter);
    if s.len() > 0 {
        lemma_filter_split(s.drop_last(), pred, neg);
    }
}

/// Two positions of a filtered sequence hold elements from two different
/// positions of the sequence.
proof fn lemma_filter_index<A>(s: Seq<A>, pred: spec_fn(A) -> bool, a: int, b: int)
    requires
        0 <= a < b < s.filter(pred).len() || 0 <= b < a < s.filter(pred).len(),
    ensures
        exists|i: int, j: int|
            0 <= i < s.len() && 0 <= j < s.len() && i != j && s[i] == s.filter(pred)[a] && s[j]
                == s.filter(pred)[b],
    decreases s.len(),
{
    reveal(Seq::filter);
    let t = s.drop_last();
    let f = s.filter(pred);
    let g = t.filter(pred);
    crate::namemap::lemma_filter_members(t, pred);
    if a < g.len() && b < g.len() {
        lemma_filter_index(t, pred, a, b);
        let (i, j) = choose|i: int, j: int|
            0 <= i < t.len() && 0 <= j < t.len() && i != j && t[i] == g[a] && t[j] == g[b];
        assert(s[i] == f[a] && s[j] == f[b]);
    } else if a < g.len() {
        assert(f[b] == s.last());
        let i = choose|i: int| 0 <= i < t.len() && t[i] == g[a];
        assert(s[i] == f[a]);
        assert(s[s.len() - 1] == f[b]);
    } else {
        assert(f[a] == s.last());
        let j = choose|j: int| 0 <= j < t.len() && t[j] == g[b];
        assert(s[j] == f[b]);
        assert(s[s.len() - 1] == f[a]);
    }
}

/// The flows being tracked, at most `max_entries` of them, each filed
/// under the id it carried when it was added, in the order they were
/// added. No id is filed twice.
#[derive(Debug)]
pub struct WfpFlowTable {
    keys: Vec<u64>,
    flows: Vec<WfpFlow>,
    max_entries: usize,
}

impl WfpFlowTable {
    #[verifier::type_invariant]
    closed spec fn inv(self) -> bool {
        &&& self.keys@.len() == self.flows@.len()
        &&& self.keys@.no_duplicates()
    }

    /// Each id with the flow filed under it.
    pub closed spec fn spec_entries(self) -> Seq<(u64, WfpFlow)> {
        zip_entries(self.keys@, self.flows@)
    }

    pub closed spec fn spec_max_entries(self) -> usize {
        self.max_entries
    }

    fn empty(max_entries: usize) -> (r: Self)
        ensures
            r.spec_entries().len() == 0,
            r.spec_max_entries() == max_entries,
    {
        let r = WfpFlowTable { keys: Vec::new(), flows: Vec::new(), max_entries };
        proof {
            assert(r.spec_entries().len() == 0);
        }
        r
    }

    /// An empty table for at most `max_entries` flows; 0 is refused.
    pub fn new(max_entries: usize) -> (r: Result<Self, EngineError>)
        ensures
            r is Ok == (max_entries > 0),
            r matches Err(e) ==> e.code == EngineErrorCode::InvalidArgument,
            r matches Ok(t) ==> t.spec_entries().len() == 0 && t.spec_max_entries() == max_entries,
    {
        if max_entries == 0 {
            return Err(EngineError::invalid_argument());
        }
        Ok(WfpFlowTable::empty(max_entries))
    }

    /// An empty table for 100 000 flows.
    pub fn with_default_capacity() -> (r: Self)
        ensures
            r.spec_entries().len() == 0,
            r.spec_max_entries() == 100000,
    {
        WfpFlowTable::empty(100000)
    }

    fn position(&self, flow_id: u64) -> (r: Option<usize>)
        ensures
            r is Some == has_key(self.spec_entries(), flow_id),
            r matches Some(i) ==> i == key_index(self.spec_entries(), flow_id) && i
                < self.spec_entries().len(),
    {
        proof {
            use_type_invariant(self);
            lemma_zip_distinct(self.keys@, self.flows@);
        }
        let ghost es = self.spec_entries();
        let mut i: usize = 0;
        while i < self.keys.len()
            invariant
                i <= self.keys@.len(),
                es == zip_entries(self.keys@, self.flows@),
                self.keys@.len() == self.flows@.len(),
                distinct_keys(es),
                forall|j: int| 0 <= j < i ==> self.keys@[j] != flow_id,
            decreases self.keys@.len() - i,
        {
            if self.keys[i] == flow_id {
                proof {
                    assert(es[i as int].0 == flow_id);
                    lemma_key_index_unique(es, flow_id, i as int);
                }
                return Some(i);
            }
            i = i + 1;
        }
        proof {
            if has_key(es, flow_id) {
                let k = choose|k: int| 0 <= k < es.len() && (#[trigger] es[k]).0 == flow_id;
                assert(self.keys@[k] == flow_id);
            }
        }
        None
    }

    /// Files a flow under its id, when no flow is filed there yet and there
    /// is room.
    pub fn insert(&mut self, flow: WfpFlow) -> (r: Result<(), EngineError>)
        ensures
            final(self).spec_max_entries() == old(self).spec_max_entries(),
            has_key(old(self).spec_entries(), flow.flow_id) ==> r is Err && r->Err_0.code
                == EngineErrorCode::InvalidArgument,
            !has_key(old(self).spec_entries(), flow.flow_id) && old(self).spec_entries().len()
                >= old(self).spec_max_entries() ==> r is Err && r->Err_0.code
                == EngineErrorCode::ResourceExhausted,
            r is Ok == (!has_key(old(self).spec_entries(), flow.flow_id) && old(self).spec_entries().len() < old(self).spec_max_entries()),
            r is Ok ==> final(self).spec_entries() == old(self).spec_entries().push((flow.flow_id, flow)),
            r is Err ==> final(self).spec_entries() == old(self).spec_entries(),
    {
        proof {
            use_type_invariant(&*self);
            lemma_zip_distinct(self.keys@, self.flows@);
        }
        if self.position(flow.flow_id).is_some() {
            return Err(EngineError::invalid_argument());
        }
        if self.keys.len() >= self.max_entries {
            return Err(EngineError::resource_exhausted());
        }
        let ghost o = self.spec_entries();
        let id = flow.flow_id;
        let mut taken = WfpFlowTable::empty(self.max_entries);
        std::mem::swap(self, &mut taken);
        let WfpFlowTable { mut keys, mut flows, max_entries } = taken;
        keys.push(id);
        flows.push(flow);
        proof {
            let n = zip_entries(keys@, flows@);
            assert(n =~= o.push((id, flow)));
            assert forall|i: int, j: int|
                0 <= i < n.len() && 0 <= j < n.len() && i != j implies (#[trigger] n[i]).0 != (
                #[trigger] n[j]).0 by {
                if i == n.len() - 1 {
                    assert(n[j] == o[j]);
                } else if j == n.len() - 1 {
                    assert(n[i] == o[i]);
                } else {
                    assert(n[i] == o[i]);
                    assert(n[j] == o[j]);
                }
            }
            lemma_zip_distinct(keys@, flows@);
        }
        *self = WfpFlowTable { keys, flows, max_entries };
        Ok(())
    }

    /// The flow filed under `flow_id`.
    pub fn get(&self, flow_id: u64) -> (r: Option<&WfpFlow>)
        ensures
            r is Some == has_key(self.spec_entries(), flow_id),
            r matches Some(f) ==> *f == self.spec_entries()[key_index(self.spec_entries(), flow_id)].1,
    {
        proof {
            use_type_invariant(self);
        }
        match self.position(flow_id) {
            Some(i) => Some(&self.flows[i]),
            None => None,
        }
    }

    /// The flow filed under `flow_id`, for changing it. It stays filed under
    /// `flow_id` whatever is done to it.
    pub fn get_mut(&mut self, flow_id: u64) -> (r: Option<&mut WfpFlow>)
        ensures
            final(self).spec_max_entries() == old(self).spec_max_entries(),
            r is Some == has_key(old(self).spec_entries(), flow_id),
            r is None ==> final(self).spec_entries() == old(self).spec_entries(),
            r is Some ==> *r->Some_0 == old(self).spec_entries()[key_index(old(self).spec_entries(), flow_id)].1
                && final(self).spec_entries() == old(self).spec_entries().update(
                key_index(old(self).spec_entries(), flow_id),
                (flow_id, *final(r->Some_0)),
            ),
    {
        proof {
            use_type_invariant(&*self);
        }
        match self.position(flow_id) {
            Some(i) => Some(&mut self.flows[i]),
            None => None,
        }
    }

    /// Removes and hands back the flow filed under `flow_id`.
    pub fn remove(&mut self, flow_id: u64) -> (r: Option<WfpFlow>)
        ensures
            final(self).spec_max_entries() == old(self).spec_max_entries(),
            r is Some == has_key(old(self).spec_entries(), flow_id),
            r is None ==> final(self).spec_entries() == old(self).spec_entries(),
            r matches Some(f) ==> f == old(self).spec_entries()[key_index(old(self).spec_entries(), flow_id)].1
                && final(self).spec_entries() == old(self).spec_entries().remove(
                key_index(old(self).spec_entries(), flow_id),
            ),
            !has_key(final(self).spec_entries(), flow_id),
    {
        proof {
            use_type_invariant(&*self);
            lemma_zip_distinct(self.keys@, self.flows@);
        }
        match self.position(flow_id) {
            Some(i) => {
                let ghost o = self.spec_entries();
                let mut taken = WfpFlowTable::empty(self.max_entries);
                std::mem::swap(self, &mut taken);
                let WfpFlowTable { mut keys, mut flows, max_entries } = taken;
                keys.remove(i);
                let f = flows.remove(i);
                proof {
                    let n = zip_entries(keys@, flows@);
                    assert(n =~= o.remove(i as int));
                    assert forall|a: int, b: int|
                        0 <= a < n.len() && 0 <= b < n.len() && a != b implies (#[trigger] n[a]).0
                        != (#[trigger] n[b]).0 by {
                        let oa = if a < i { a } else { a + 1 };
                        let ob = if b < i { b } else { b + 1 };
                        assert(n[a] == o[oa]);
                        assert(n[b] == o[ob]);
                    }
                    if has_key(n, flow_id) {
                        let k = choose|k: int| 0 <= k < n.len() && (#[trigger] n[k]).0 == flow_id;
                        let ok = if k < i { k } else { k + 1 };
                        assert(n[k] == o[ok]);
                        assert(o[i as int].0 == flow_id);
                    }
                    lemma_zip_distinct(keys@, flows@);
                }
                *self = WfpFlowTable { keys, flows, max_entries };
                Some(f)
            },
            None => None,
        }
    }

    pub fn len(&self) -> (r: usize)
        ensures
            r == self.spec_entries().len(),
    {
        self.keys.len()
    }

    pub fn is_empty(&self) -> (r: bool)
        ensures
            r == (self.spec_entries().len() == 0),
    {
        self.keys.len() == 0
    }

    pub fn max_entries(&self) -> (r: usize)
        ensures
            r == self.spec_max_entries(),
    {
        self.max_entries
    }

    pub fn contains(&self, flow_id: u64) -> (r: bool)
        ensures
            r == has_key(self.spec_entries(), flow_id),
    {
        self.position(flow_id).is_some()
    }

    /// The flows, in the order they were added.
    pub fn values(&self) -> (r: &[WfpFlow])
        ensures
            r@ == self.spec_entries().map_values(|e: (u64, WfpFlow)| e.1),
    {
        proof {
            use_type_invariant(self);
            assert(self.flows@ =~= self.spec_entries().map_values(|e: (u64, WfpFlow)| e.1));
        }
        self.flows.as_slice()
    }

    /// Removes every flow idle for at least `timeout_ns` at `now_ns`, and
    /// says how many went; the others stay as they were, in their order.
    pub fn expire_idle(&mut self, now_ns: u64, timeout_ns: u64) -> (r: usize)
        ensures
            final(self).spec_max_entries() == old(self).spec_max_entries(),
            final(self).spec_entries() == old(self).spec_entries().filter(
                |e: (u64, WfpFlow)| !e.1.spec_idle(now_ns, timeout_ns),
            ),
            r == old(self).spec_entries().len() - final(self).spec_entries().len(),
            r == old(self).spec_entries().filter(|e: (u64, WfpFlow)| e.1.spec_idle(now_ns, timeout_ns)).len(),
            r == idle_ids(old(self).spec_entries(), now_ns, timeout_ns).len(),
            forall|i: int|
                0 <= i < old(self).spec_entries().len() && (#[trigger] old(self).spec_entries()[i]).1.spec_idle(
                    now_ns,
                    timeout_ns,
                ) ==> !has_key(final(self).spec_entries(), old(self).spec_entries()[i].0),
    {
        proof {
            use_type_invariant(&*self);
            lemma_zip_distinct(self.keys@, self.flows@);
        }
        let ghost pred = |e: (u64, WfpFlow)| !e.1.spec_idle(now_ns, timeout_ns);
        let ghost o = self.spec_entries();
        let mut taken = WfpFlowTable::empty(self.max_entries);
        std::mem::swap(self, &mut taken);
        let WfpFlowTable { keys: mut rest_keys, flows: mut rest_flows, max_entries } = taken;
        let ghost ok = rest_keys@;
        let ghost of = rest_flows@;
        let mut kept_keys: Vec<u64> = Vec::new();
        let mut kept_flows: Vec<WfpFlow> = Vec::new();
        let n = rest_keys.len();
        let mut i: usize = 0;
        while rest_keys.len() > 0
            invariant
                n == o.len(),
                o == zip_entries(ok, of),
                ok.len() == of.len(),
                i <= n,
                rest_keys@ == ok.skip(i as int),
                rest_flows@ == of.skip(i as int),
                pred == (|e: (u64, WfpFlow)| !e.1.spec_idle(now_ns, timeout_ns)),
                kept_keys@.len() == kept_flows@.len(),
                zip_entries(kept_keys@, kept_flows@) == o.take(i as int).filter(pred),
                kept_keys@.len() <= i,
            decreases rest_keys@.len(),
        {
            let ghost before = zip_entries(kept_keys@, kept_flows@);
            proof {
                assert(o.take(i + 1).drop_last() =~= o.take(i as int));
                reveal(Seq::filter);
                assert(ok.skip(i as int)[0] == ok[i as int]);
                assert(of.skip(i as int)[0] == of[i as int]);
                assert(o[i as int] == (ok[i as int], of[i as int]));
            }
            let k = rest_keys.remove(0);
            let f = rest_flows.remove(0);
            proof {
                assert(rest_keys@ =~= ok.skip(i + 1));
                assert(rest_flows@ =~= of.skip(i + 1));
            }
            if !f.is_idle(now_ns, timeout_ns) {
                kept_keys.push(k);
                kept_flows.push(f);
                proof {
                    assert(zip_entries(kept_keys@, kept_flows@) =~= before.push((k, f)));
                }
            }
            i = i + 1;
        }
        assert(o.take(n as int) =~= o);
        let removed = n - kept_keys.len();
        proof {
            let idle = |e: (u64, WfpFlow)| e.1.spec_idle(now_ns, timeout_ns);
            lemma_filter_split(o, idle, pred);
            lemma_idle_entries_are_idle_ids(o, now_ns, timeout_ns);
            let k = zip_entries(kept_keys@, kept_flows@);
            crate::namemap::lemma_filter_members(o, pred);
            assert forall|a: int, b: int|
                0 <= a < k.len() && 0 <= b < k.len() && a != b implies (#[trigger] k[a]).0 != (
                #[trigger] k[b]).0 by {
                lemma_filter_index(o, pred, a, b);
            }
            assert forall|i: int|
                0 <= i < o.len() && (#[trigger] o[i]).1.spec_idle(now_ns, timeout_ns) implies !has_key(
                k,
                o[i].0,
            ) by {
                if has_key(k, o[i].0) {
                    let m = choose|m: int| 0 <= m < k.len() && (#[trigger] k[m]).0 == o[i].0;
                    assert(o.contains(k[m]) && pred(k[m]));
                    let j = choose|j: int| 0 <= j < o.len() && o[j] == k[m];
                    assert(j != i);
                }
            }
            lemma_zip_distinct(kept_keys@, kept_flows@);
        }
        *self = WfpFlowTable { keys: kept_keys, flows: kept_flows, max_entries };
        removed
    }

    pub fn clear(&mut self)
        ensures
            final(self).spec_entries().len() == 0,
            final(self).spec_max_entries() == old(self).spec_max_entries(),
    {
        *self = WfpFlowTable::empty(self.max_entries);
    }
}

impl Default for WfpFlowTable {
    /// An empty table with no room: every insertion is refused.
    fn default() -> (r: Self)
        ensures
            r.spec_entries().len() == 0,
            r.spec_max_entries() == 0,
    {
        WfpFlowTable::empty(0)
    }
}

} // verus!
