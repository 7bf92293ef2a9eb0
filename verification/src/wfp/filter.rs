//! WFP filters: conditions on packet bytes, filters with an action and a
//! weight, and the table that evaluates them in order.
//!
//! Registering a filter with the kernel is the caller's work; the table
//! keeps what was registered, ordered by weight (heaviest first) and id.
use vstd::prelude::*;

use crate::error::{EngineError, EngineErrorCode};
use crate::text::{chars_of, is_blank, lower, lower_eq, str_is_blank, trim, trim_str};
use crate::wfp::engine::wfp_error;

verus! {

/// What a matching filter does with the packet.
#[derive(Debug, Clone, Copy, PartialEq, Eq, Structural)]
pub enum WfpAction {
    Permit,
    Block,
    Continue,
}

impl WfpAction {
    /// Permit and block end evaluation; continue passes to the next filter.
    pub fn is_terminal(self) -> (r: bool)
        ensures
            r == (self is Permit || self is Block),
    {
        matches!(self, WfpAction::Permit | WfpAction::Block)
    }

    pub fn is_block(self) -> (r: bool)
        ensures
            r == (self is Block),
    {
        self == WfpAction::Block
    }

    /// The action for an `FWP_ACTION_TYPE` value: 0x1000 permit, 0x1001
    /// block, 0x1002 continue.
    pub fn from_fwpm_action_type(v: u32) -> (r: Option<Self>)
        ensures
            v == 0x1000 ==> r == Some(WfpAction::Permit),
            v == 0x1001 ==> r == Some(WfpAction::Block),
            v == 0x1002 ==> r == Some(WfpAction::Continue),
            r is Some == (0x1000 <= v <= 0x1002),
    {
        match v {
            0x1000 => Some(WfpAction::Permit),
            0x1001 => Some(WfpAction::Block),
            0x1002 => Some(WfpAction::Continue),
            _ => None,
        }
    }

    /// The action with wire value 0 (permit), 1 (block) or 2 (continue).
    pub fn try_from(v: u8) -> (r: Result<Self, EngineError>)
        ensures
            v == 0 ==> r == Ok::<Self, EngineError>(WfpAction::Permit),
            v == 1 ==> r == Ok::<Self, EngineError>(WfpAction::Block),
            v == 2 ==> r == Ok::<Self, EngineError>(WfpAction::Continue),
            r is Ok == (v <= 2),
            r matches Err(e) ==> e.code == EngineErrorCode::InvalidArgument,
    {
        match v {
            0 => Ok(WfpAction::Permit),
            1 => Ok(WfpAction::Block),
            2 => Ok(WfpAction::Continue),
            _ => Err(EngineError::invalid_argument()),
        }
    }
}

/// The bytes of an optional byte string.
pub open spec fn opt_bytes(v: Option<Vec<u8>>) -> Option<Seq<u8>> {
    match v {
        Some(b) => Some(b@),
        None => None,
    }
}

/// `data` starts with `value`, compared under `mask` where there is one
/// (over the positions both value and mask cover).
pub open spec fn condition_matches(value: Seq<u8>, mask: Option<Seq<u8>>, data: Seq<u8>) -> bool {
    &&& data.len() >= value.len()
    &&& match mask {
        Some(m) => forall|i: int|
            0 <= i < value.len() && i < m.len() ==> (#[trigger] data[i] & m[i]) == (value[i] & m[i]),
        None => forall|i: int| 0 <= i < value.len() ==> #[trigger] data[i] == value[i],
    }
}

/// A condition on a field: the field's bytes, optionally masked.
#[derive(Debug, Clone, PartialEq, Eq)]
pub struct WfpFilterCondition {
    pub field: String,
    pub value: Vec<u8>,
    pub mask: Option<Vec<u8>>,
}

impl WfpFilterCondition {
    pub open spec fn spec_matches(self, data: Seq<u8>) -> bool {
        condition_matches(self.value@, opt_bytes(self.mask), data)
    }

    /// An unmasked condition; a blank field or empty value is refused.
    pub fn new(field: &str, value: Vec<u8>) -> (r: Result<Self, EngineError>)
        ensures
            r is Ok == (!is_blank(field@) && value@.len() > 0),
            r matches Err(e) ==> e.code == EngineErrorCode::InvalidArgument,
            r matches Ok(c) ==> c.field@ == field@ && c.value@ == value@ && c.mask is None,
    {
        if str_is_blank(field) || value.len() == 0 {
            return Err(EngineError::invalid_argument());
        }
        Ok(WfpFilterCondition { field: field.to_owned(), value, mask: None })
    }

    /// Adds a mask of the value's length.
    pub fn with_mask(self, mask: Vec<u8>) -> (r: Result<Self, EngineError>)
        ensures
            r is Ok == (mask@.len() == self.value@.len()),
            r matches Err(e) ==> e.code == EngineErrorCode::InvalidArgument,
            r matches Ok(c) ==> c.field@ == self.field@ && c.value@ == self.value@ && opt_bytes(
                c.mask,
            ) == Some(mask@),
    {
        if mask.len() != self.value.len() {
            return Err(EngineError::invalid_argument());
        }
        let mut s = self;
        s.mask = Some(mask);
        Ok(s)
    }

    pub fn matches(&self, data: &[u8]) -> (r: bool)
        ensures
            r == self.spec_matches(data@),
    {
        if data.len() < self.value.len() {
            return false;
        }
        match &self.mask {
            Some(m) => {
                let mut i: usize = 0;
                while i < self.value.len() && i < m.len()
                    invariant
                        i <= self.value@.len(),
                        i <= m@.len(),
                        opt_bytes(self.mask) == Some(m@),
                        data@.len() >= self.value@.len(),
                        forall|k: int|
                            0 <= k < i ==> (#[trigger] data@[k] & m@[k]) == (self.value@[k] & m@[k]),
                    decreases self.value@.len() - i,
                {
                    if (data[i] & m[i]) != (self.value[i] & m[i]) {
                        return false;
                    }
                    i = i + 1;
                }
                true
            },
            None => {
                let mut i: usize = 0;
                while i < self.value.len()
                    invariant
                        i <= self.value@.len(),
                        self.mask is None,
                        data@.len() >= self.value@.len(),
                        forall|k: int| 0 <= k < i ==> #[trigger] data@[k] == self.value@[k],
                    decreases self.value@.len() - i,
                {
                    if data[i] != self.value[i] {
                        return false;
                    }
                    i = i + 1;
                }
                true
            },
        }
    }
}

/// A filter: conditions on a layer with an action, a weight, and the id
/// the kernel gave it (0 until registered).
#[derive(Debug, Clone, PartialEq, Eq)]
pub struct WfpFilter {
    pub id: u64,
    pub name: String,
    pub layer: String,
    pub action: WfpAction,
    pub conditions: Vec<WfpFilterCondition>,
    pub enabled: bool,
    pub weight: u64,
    pub kernel_filter_id: u64,
}

/// Enabled, with every condition matching `p`.
pub open spec fn filter_matches(f: WfpFilter, p: Seq<u8>) -> bool {
    f.enabled && forall|i: int| 0 <= i < f.conditions@.len() ==> (#[trigger] f.conditions@[i]).spec_matches(p)
}

impl WfpFilter {
    /// An enabled filter without conditions, weight 0, not registered; id
    /// 0 and blank names or layers are refused.
    pub fn new(id: u64, name: &str, layer: &str, action: WfpAction) -> (r: Result<Self, EngineError>)
        ensures
            r is Ok == (id != 0 && !is_blank(name@) && !is_blank(layer@)),
            r matches Err(e) ==> e.code == EngineErrorCode::InvalidArgument,
            r matches Ok(f) ==> f.id == id && f.name@ == name@ && f.layer@ == layer@ && f.action
                == action && f.conditions@.len() == 0 && f.enabled && f.weight == 0
                && f.kernel_filter_id == 0,
    {
        if id == 0 {
            return Err(EngineError::invalid_argument());
        }
        if str_is_blank(name) || str_is_blank(layer) {
            return Err(EngineError::invalid_argument());
        }
        Ok(
            WfpFilter {
                id,
                name: name.to_owned(),
                layer: layer.to_owned(),
                action,
                conditions: Vec::new(),
                enabled: true,
                weight: 0,
                kernel_filter_id: 0,
            },
        )
    }

    pub fn add_condition(&mut self, c: WfpFilterCondition)
        ensures
            final(self).conditions@ == old(self).conditions@.push(c),
            final(self).id == old(self).id && final(self).action == old(self).action && final(self).enabled == old(self).enabled && final(self).weight == old(self).weight,
    {
        self.conditions.push(c);
    }

    pub fn clear_conditions(&mut self)
        ensures
            final(self).conditions@.len() == 0,
            final(self).id == old(self).id && final(self).action == old(self).action && final(self).enabled == old(self).enabled && final(self).weight == old(self).weight,
    {
        self.conditions = Vec::new();
    }

    pub fn set_enabled(&mut self, v: bool)
        ensures
            *final(self) == (WfpFilter { enabled: v, ..*old(self) }),
    {
        self.enabled = v;
    }

    pub fn set_weight(&mut self, v: u64)
        ensures
            *final(self) == (WfpFilter { weight: v, ..*old(self) }),
    {
        self.weight = v;
    }

    pub fn matches(&self, p: &[u8]) -> (r: bool)
        ensures
            r == filter_matches(*self, p@),
    {
        if !self.enabled {
            return false;
        }
        let mut i: usize = 0;
        while i < self.conditions.len()
            invariant
                i <= self.conditions@.len(),
                forall|k: int| 0 <= k < i ==> (#[trigger] self.conditions@[k]).spec_matches(p@),
            decreases self.conditions@.len() - i,
        {
            if !self.conditions[i].matches(p) {
                return false;
            }
            i = i + 1;
        }
        true
    }

    /// The action, when the filter matches.
    pub fn evaluate(&self, p: &[u8]) -> (r: Option<WfpAction>)
        ensures
            r == (if filter_matches(*self, p@) {
                Some(self.action)
            } else {
                None
            }),
    {
        if self.matches(p) {
            Some(self.action)
        } else {
            None
        }
    }

    pub fn condition_count(&self) -> (r: usize)
        ensures
            r == self.conditions@.len(),
    {
        self.conditions.len()
    }
}

/// `a` is evaluated before `b`: heavier first, then smaller id.
pub open spec fn filter_before(a: WfpFilter, b: WfpFilter) -> bool {
    a.weight > b.weight || (a.weight == b.weight && a.id < b.id)
}

/// Strictly in evaluation order.
pub open spec fn filters_ordered(fs: Seq<WfpFilter>) -> bool {
    forall|i: int, j: int| 0 <= i < j < fs.len() ==> filter_before(#[trigger] fs[i], #[trigger] fs[j])
}

pub open spec fn has_filter(fs: Seq<WfpFilter>, id: u64) -> bool {
    exists|i: int| 0 <= i < fs.len() && (#[trigger] fs[i]).id == id
}

/// The action of the first filter of `fs` that matches `p`.
pub open spec fn table_evaluate(fs: Seq<WfpFilter>, p: Seq<u8>) -> Option<WfpAction>
    decreases fs.len(),
{
    if fs.len() == 0 {
        None
    } else if filter_matches(fs[0], p) {
        Some(fs[0].action)
    } else {
        table_evaluate(fs.drop_first(), p)
    }
}

/// In a table in evaluation order, weights never increase along the table,
/// and filters of equal weight come in increasing id order.
pub proof fn lemma_evaluation_order(fs: Seq<WfpFilter>, i: int, j: int)
    requires
        filters_ordered(fs),
        0 <= i < j < fs.len(),
    ensures
        fs[i].weight >= fs[j].weight,
        fs[i].weight == fs[j].weight ==> fs[i].id < fs[j].id,
{
    assert(filter_before(fs[i], fs[j]));
}

/// Evaluation answers with the action of the first matching filter, and
/// gives no answer exactly when no filter matches.
proof fn lemma_first_match(fs: Seq<WfpFilter>, p: Seq<u8>)
    ensures
        table_evaluate(fs, p) is None <==> forall|j: int|
            0 <= j < fs.len() ==> !filter_matches(#[trigger] fs[j], p),
        table_evaluate(fs, p) matches Some(a) ==> exists|i: int|
            0 <= i < fs.len() && filter_matches(#[trigger] fs[i], p) && fs[i].action == a && forall|k: int|
                0 <= k < i ==> !filter_matches(#[trigger] fs[k], p),
    decreases fs.len(),
{
    if fs.len() > 0 {
        let t = fs.drop_first();
        lemma_first_match(t, p);
        if filter_matches(fs[0], p) {
            assert(filter_matches(fs[0], p) && fs[0].action == table_evaluate(fs, p)->Some_0);
        } else {
            assert forall|j: int| 0 < j < fs.len() implies fs[j] == #[trigger] t[j - 1] by {}
            if table_evaluate(t, p) is None {
                assert forall|j: int| 0 <= j < fs.len() implies !filter_matches(#[trigger] fs[j], p) by {
                    if j > 0 {
                        assert(fs[j] == t[j - 1]);
                    }
                }
            } else {
                let i = choose|i: int|
                    0 <= i < t.len() && filter_matches(#[trigger] t[i], p) && t[i].action
                        == table_evaluate(t, p)->Some_0 && forall|k: int|
                        0 <= k < i ==> !filter_matches(#[trigger] t[k], p);
                assert(fs[i + 1] == t[i]);
                assert forall|k: int| 0 <= k < i + 1 implies !filter_matches(#[trigger] fs[k], p) by {
                    if k > 0 {
                        assert(fs[k] == t[k - 1]);
                    }
                }
                assert(!(forall|j: int| 0 <= j < fs.len() ==> !filter_matches(#[trigger] fs[j], p))) by {
                    assert(filter_matches(fs[i + 1], p));
                }
            }
        }
    }
}

/// In a table in evaluation order, evaluation answers with the action of a
/// matching filter than which no matching filter is heavier, and gives no
/// answer exactly when no filter matches.
pub proof fn lemma_evaluate_heaviest(fs: Seq<WfpFilter>, p: Seq<u8>)
    requires
        filters_ordered(fs),
    ensures
        table_evaluate(fs, p) is None <==> forall|j: int|
            0 <= j < fs.len() ==> !filter_matches(#[trigger] fs[j], p),
        table_evaluate(fs, p) matches Some(a) ==> exists|i: int|
            0 <= i < fs.len() && filter_matches(#[trigger] fs[i], p) && fs[i].action == a && forall|j: int|
                0 <= j < fs.len() && filter_matches(#[trigger] fs[j], p) ==> fs[j].weight <= fs[i].weight,
{
    lemma_first_match(fs, p);
    if table_evaluate(fs, p) is Some {
        let a = table_evaluate(fs, p)->Some_0;
        let i = choose|i: int|
            0 <= i < fs.len() && filter_matches(#[trigger] fs[i], p) && fs[i].action == a && forall|k: int|
                0 <= k < i ==> !filter_matches(#[trigger] fs[k], p);
        assert forall|j: int| 0 <= j < fs.len() && filter_matches(#[trigger] fs[j], p) implies fs[j].weight
            <= fs[i].weight by {
            if j > i {
                lemma_evaluation_order(fs, i, j);
            } else if j < i {
                assert(!filter_matches(fs[j], p));
            }
        }
    }
}

/// The registered filters, in evaluation order, and the engine session
/// they belong to.
#[derive(Debug, Default)]
pub struct WfpFilterTable {
    filters: Vec<WfpFilter>,
    engine_handle: Option<usize>,
}

impl WfpFilterTable {
    pub closed spec fn spec_filters(self) -> Seq<WfpFilter> {
        self.filters@
    }

    pub closed spec fn spec_engine(self) -> Option<usize> {
        self.engine_handle
    }

    pub fn new() -> (r: Self)
        ensures
            r.spec_filters().len() == 0,
            r.spec_engine() is None,
    {
        WfpFilterTable { filters: Vec::new(), engine_handle: None }
    }

    /// Opens the table's engine session. Without the native platform the
    /// backend is unavailable; a second initialization is refused.
    pub fn initialize(&mut self) -> (r: Result<(), EngineError>)
        ensures
            r is Err,
            *final(self) == *old(self),
            old(self).spec_engine() is Some ==> r->Err_0.code == EngineErrorCode::AlreadyInitialized,
            old(self).spec_engine() is None ==> wfp_error(
                r->Err_0,
                EngineErrorCode::BackendUnavailable,
            ),
    {
        if self.engine_handle.is_some() {
            return Err(EngineError::already_initialized());
        }
        Err(EngineError::backend(EngineErrorCode::BackendUnavailable, "wfp"))
    }

    /// The table's engine session, if it has one.
    pub fn engine_handle(&self) -> (r: Option<usize>)
        ensures
            r == self.spec_engine(),
    {
        self.engine_handle
    }

    /// Checks an initialization request: a table with a session refuses.
    pub fn begin_initialize(&self) -> (r: Result<(), EngineError>)
        ensures
            r is Ok == self.spec_engine() is None,
            r matches Err(e) ==> e.code == EngineErrorCode::AlreadyInitialized,
    {
        if self.engine_handle.is_some() {
            return Err(EngineError::already_initialized());
        }
        Ok(())
    }

    /// Checks an insertion of a filter with id `id` and hands back the
    /// session to register it in: a known id is an invalid argument, and a
    /// table without a session is not initialized.
    pub fn begin_insert(&self, id: u64) -> (r: Result<usize, EngineError>)
        ensures
            has_filter(self.spec_filters(), id) ==> (r matches Err(e) && e.code == EngineErrorCode::InvalidArgument),
            !has_filter(self.spec_filters(), id) && self.spec_engine() is None ==> (r matches Err(e)
                && e.code == EngineErrorCode::NotInitialized),
            !has_filter(self.spec_filters(), id) && self.spec_engine() is Some ==> r == Ok::<
                usize,
                EngineError,
            >(self.spec_engine()->Some_0),
    {
        if self.position(id).is_some() {
            return Err(EngineError::invalid_argument());
        }
        match self.engine_handle {
            Some(h) => Ok(h),
            None => Err(EngineError::not_initialized()),
        }
    }

    /// Records the engine session opened (with its sublayer) for the table.
    pub fn attach_engine(&mut self, handle: usize) -> (r: Result<(), EngineError>)
        ensures
            final(self).spec_filters() == old(self).spec_filters(),
            r is Ok == old(self).spec_engine() is None,
            r is Ok ==> final(self).spec_engine() == Some(handle),
            r is Err ==> r->Err_0.code == EngineErrorCode::AlreadyInitialized && final(self).spec_engine() == old(self).spec_engine(),
    {
        if self.engine_handle.is_some() {
            return Err(EngineError::already_initialized());
        }
        self.engine_handle = Some(handle);
        Ok(())
    }

    /// Drops every filter and hands back the engine session for closing.
    pub fn detach_engine(&mut self) -> (r: Option<usize>)
        ensures
            r == old(self).spec_engine(),
            final(self).spec_engine() is None,
            final(self).spec_filters().len() == 0,
    {
        self.filters = Vec::new();
        let h = self.engine_handle;
        self.engine_handle = None;
        h
    }

    /// Drops every filter and the engine session.
    pub fn shutdown(&mut self) -> (r: Result<(), EngineError>)
        ensures
            r is Ok,
            final(self).spec_engine() is None,
            final(self).spec_filters().len() == 0,
    {
        let _ = self.detach_engine();
        Ok(())
    }

    fn position(&self, id: u64) -> (r: Option<usize>)
        ensures
            r is Some == has_filter(self.spec_filters(), id),
            r matches Some(i) ==> i < self.spec_filters().len() && self.spec_filters()[i as int].id
                == id && forall|j: int| 0 <= j < i ==> (#[trigger] self.spec_filters()[j]).id != id,
    {
        let mut i: usize = 0;
        while i < self.filters.len()
            invariant
                i <= self.filters@.len(),
                forall|j: int| 0 <= j < i ==> (#[trigger] self.filters@[j]).id != id,
            decreases self.filters@.len() - i,
        {
            if self.filters[i].id == id {
                return Some(i);
            }
            i = i + 1;
        }
        None
    }

    /// Adds a filter. Ids are unique; the table needs its engine session;
    /// without the native platform the kernel registration fails.
    pub fn insert(&mut self, filter: WfpFilter) -> (r: Result<(), EngineError>)
        ensures
            r is Err,
            *final(self) == *old(self),
            has_filter(old(self).spec_filters(), filter.id) ==> r->Err_0.code
                == EngineErrorCode::InvalidArgument,
            !has_filter(old(self).spec_filters(), filter.id) && old(self).spec_engine() is None
                ==> r->Err_0.code == EngineErrorCode::NotInitialized,
            !has_filter(old(self).spec_filters(), filter.id) && old(self).spec_engine() is Some
                ==> wfp_error(r->Err_0, EngineErrorCode::BackendUnavailable),
    {
        if self.position(filter.id).is_some() {
            return Err(EngineError::invalid_argument());
        }
        if self.engine_handle.is_none() {
            return Err(EngineError::not_initialized());
        }
        Err(EngineError::backend(EngineErrorCode::BackendUnavailable, "wfp"))
    }

    /// Adds a filter the kernel registered under `kernel_id`, at its place
    /// in evaluation order. A duplicate id is refused.
    pub fn insert_registered(&mut self, filter: WfpFilter, kernel_id: u64) -> (r: Result<
        (),
        EngineError,
    >)
        ensures
            final(self).spec_engine() == old(self).spec_engine(),
            r is Ok == !has_filter(old(self).spec_filters(), filter.id),
            r matches Err(e) ==> e.code == EngineErrorCode::InvalidArgument && final(self).spec_filters() == old(self).spec_filters(),
            r is Ok ==> exists|i: int|
                0 <= i <= old(self).spec_filters().len() && final(self).spec_filters() == old(self).spec_filters().insert(i, WfpFilter { kernel_filter_id: kernel_id, ..filter }),
            r is Ok && filters_ordered(old(self).spec_filters()) ==> filters_ordered(
                final(self).spec_filters(),
            ),
    {
        if self.position(filter.id).is_some() {
            return Err(EngineError::invalid_argument());
        }
        let mut f = filter;
        f.kernel_filter_id = kernel_id;
        let ghost fv = f;
        let ghost o = self.filters@;
        let mut i: usize = 0;
        while i < self.filters.len() && (self.filters[i].weight > f.weight || (self.filters[i].weight
            == f.weight && self.filters[i].id < f.id))
            invariant
                i <= o.len(),
                self.filters@ == o,
                fv == f,
                forall|k: int| 0 <= k < i ==> filter_before(#[trigger] o[k], fv),
            decreases o.len() - i,
        {
            i = i + 1;
        }
        proof {
            assert forall|k: int| i <= k < o.len() && filters_ordered(o) implies filter_before(
                fv,
                #[trigger] o[k],
            ) by {
                assert(o[k].id != fv.id);
                if k > i {
                    assert(filter_before(o[i as int], o[k]));
                }
            }
        }
        self.filters.insert(i, f);
        proof {
            let n = self.filters@;
            assert(n == o.insert(i as int, fv));
            if filters_ordered(o) {
                assert forall|a: int, b: int| 0 <= a < b < n.len() implies filter_before(
                    #[trigger] n[a],
                    #[trigger] n[b],
                ) by {
                    if a < i && b > i {
                        assert(n[b] == o[b - 1]);
                    } else if a > i {
                        assert(n[a] == o[a - 1]);
                        assert(n[b] == o[b - 1]);
                    } else if a == i {
                        assert(n[b] == o[b - 1]);
                    }
                }
            }
        }
        Ok(())
    }

    /// Removes and hands back the filter with id `id` (the caller deletes
    /// its kernel registration).
    pub fn remove(&mut self, id: u64) -> (r: Option<WfpFilter>)
        ensures
            final(self).spec_engine() == old(self).spec_engine(),
            r is Some == has_filter(old(self).spec_filters(), id),
            r is None ==> final(self).spec_filters() == old(self).spec_filters(),
            r matches Some(f) ==> f.id == id && exists|i: int|
                0 <= i < old(self).spec_filters().len() && old(self).spec_filters()[i] == f && final(self).spec_filters() == old(self).spec_filters().remove(i),
            filters_ordered(old(self).spec_filters()) ==> filters_ordered(final(self).spec_filters()),
    {
        match self.position(id) {
            Some(i) => {
                let ghost o = self.filters@;
                let f = self.filters.remove(i);
                proof {
                    let n = self.filters@;
                    if filters_ordered(o) {
                        assert forall|a: int, b: int| 0 <= a < b < n.len() implies filter_before(
                            #[trigger] n[a],
                            #[trigger] n[b],
                        ) by {
                            let oa = if a < i { a } else { a + 1 };
                            let ob = if b < i { b } else { b + 1 };
                            assert(n[a] == o[oa]);
                            assert(n[b] == o[ob]);
                        }
                    }
                }
                Some(f)
            },
            None => None,
        }
    }

    /// The first filter with id `id`.
    pub fn get(&self, id: u64) -> (r: Option<&WfpFilter>)
        ensures
            r is Some == has_filter(self.spec_filters(), id),
            r matches Some(f) ==> f.id == id && self.spec_filters().contains(*f),
    {
        match self.position(id) {
            Some(i) => {
                assert(self.filters@.contains(self.filters@[i as int]));
                Some(&self.filters[i])
            },
            None => None,
        }
    }

    /// The first filter with id `id`, for changing it.
    pub fn get_mut(&mut self, id: u64) -> (r: Option<&mut WfpFilter>)
        ensures
            final(self).spec_engine() == old(self).spec_engine(),
            r is Some == has_filter(old(self).spec_filters(), id),
            r is None ==> final(self).spec_filters() == old(self).spec_filters(),
            r is Some ==> exists|i: int|
                0 <= i < old(self).spec_filters().len() && old(self).spec_filters()[i].id == id
                    && *r->Some_0 == old(self).spec_filters()[i] && final(self).spec_filters() == old(self).spec_filters().update(i, *final(r->Some_0)),
    {
        match self.position(id) {
            Some(i) => Some(&mut self.filters[i]),
            None => None,
        }
    }

    pub fn len(&self) -> (r: usize)
        ensures
            r == self.spec_filters().len(),
    {
        self.filters.len()
    }

    pub fn is_empty(&self) -> (r: bool)
        ensures
            r == (self.spec_filters().len() == 0),
    {
        self.filters.len() == 0
    }

    /// The filters, in evaluation order.
    pub fn iter(&self) -> (r: &[WfpFilter])
        ensures
            r@ == self.spec_filters(),
    {
        self.filters.as_slice()
    }

    /// Removes every filter (the caller deletes their kernel
    /// registrations).
    pub fn clear(&mut self)
        ensures
            final(self).spec_filters().len() == 0,
            final(self).spec_engine() == old(self).spec_engine(),
    {
        self.filters = Vec::new();
    }

    /// The action of the first filter, in evaluation order, that matches.
    pub fn evaluate(&self, p: &[u8]) -> (r: Option<WfpAction>)
        ensures
            r == table_evaluate(self.spec_filters(), p@),
    {
        let ghost fs = self.filters@;
        let mut i: usize = 0;
        assert(fs.subrange(0, fs.len() as int) =~= fs);
        while i < self.filters.len()
            invariant
                i <= fs.len(),
                fs == self.filters@,
                table_evaluate(fs, p@) == table_evaluate(fs.subrange(i as int, fs.len() as int), p@),
            decreases fs.len() - i,
        {
            let ghost rest = fs.subrange(i as int, fs.len() as int);
            proof {
                assert(rest[0] == fs[i as int]);
                assert(rest.drop_first() =~= fs.subrange(i + 1, fs.len() as int));
            }
            match self.filters[i].evaluate(p) {
                Some(a) => {
                    return Some(a);
                },
                None => {},
            }
            i = i + 1;
        }
        proof {
            assert(fs.subrange(fs.len() as int, fs.len() as int).len() == 0);
        }
        None
    }
}

} // verus!
