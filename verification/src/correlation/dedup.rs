//! A bounded window of recently observed identifiers, used to drop
//! observations that were already seen.
use std::collections::{HashSet, VecDeque};
use vstd::prelude::*;

verus! {

broadcast use vstd::std_specs::hash::group_hash_axioms;

/// The window after `id`, which `w` does not hold, enters it, where `w`
/// lists the remembered identifiers in the order they arrived and holds at
/// most `max` of them: `id` is appended, and when that makes one too many,
/// the oldest arrival leaves.
pub open spec fn after_admission(w: Seq<u64>, id: u64, max: nat) -> Seq<u64> {
    let grown = w.push(id);
    if grown.len() > max {
        grown.drop_first()
    } else {
        grown
    }
}

/// The identifiers that have left the window, `gone`, after an identifier
/// enters the window `w` of capacity `max`: the oldest arrival joins them
/// when the window was full.
pub open spec fn retired_after(w: Seq<u64>, max: nat, gone: Set<u64>) -> Set<u64> {
    if w.len() + 1 > max {
        gone.insert(w[0])
    } else {
        gone
    }
}

/// An identifier that enters a window of positive capacity is in the
/// window afterwards, so it is reported as a duplicate on its next
/// arrival; the window never grows beyond its capacity and holds no
/// identifier twice.
pub proof fn lemma_entered_is_remembered(w: Seq<u64>, id: u64, max: nat)
    requires
        max > 0,
        w.len() <= max,
        w.no_duplicates(),
        !w.contains(id),
    ensures
        after_admission(w, id, max).contains(id),
        after_admission(w, id, max).len() <= max,
        after_admission(w, id, max).no_duplicates(),
{
    let grown = w.push(id);
    assert(grown[w.len() as int] == id);
    lemma_push_unique(w, id);
    if grown.len() > max {
        assert(grown.drop_first()[w.len() - 1] == id);
        lemma_drop_first_unique(grown);
    }
}

/// Appending an identifier that is not there keeps a sequence free of
/// repetitions.
proof fn lemma_push_unique(w: Seq<u64>, id: u64)
    requires
        w.no_duplicates(),
        !w.contains(id),
    ensures
        w.push(id).no_duplicates(),
{
    let g = w.push(id);
    assert forall|i: int, j: int| 0 <= i < g.len() && 0 <= j < g.len() && i != j implies g[i]
        != g[j] by {
        if i == w.len() {
            assert(w[j] == g[j]);
        } else if j == w.len() {
            assert(w[i] == g[i]);
        }
    }
}

/// Dropping the first element keeps a sequence free of repetitions.
proof fn lemma_drop_first_unique(g: Seq<u64>)
    requires
        g.no_duplicates(),
        g.len() > 0,
    ensures
        g.drop_first().no_duplicates(),
{
    let d = g.drop_first();
    assert forall|i: int, j: int| 0 <= i < d.len() && 0 <= j < d.len() && i != j implies d[i]
        != d[j] by {
        assert(d[i] == g[i + 1]);
        assert(d[j] == g[j + 1]);
    }
}

/// Remembers the last `max_size` identifiers it took in, in the order
/// they arrived, and answers whether an identifier is among them. An
/// identifier that has aged out of the window is not taken in again, so it
/// cannot push out newer ones.
#[derive(Debug)]
pub struct DedupFilter {
    ids: HashSet<u64>,
    order: VecDeque<u64>,
    expired: HashSet<u64>,
    max_size: usize,
}

impl DedupFilter {
    #[verifier::type_invariant]
    closed spec fn inv(self) -> bool {
        &&& self.order@.no_duplicates()
        &&& self.ids@ == self.order@.to_set()
        &&& self.order@.len() <= self.max_size
        &&& forall|x: u64| self.expired@.contains(x) ==> !self.ids@.contains(x)
    }

    /// The remembered identifiers, oldest arrival first.
    pub closed spec fn window(self) -> Seq<u64> {
        self.order@
    }

    /// The identifiers that have aged out of the window.
    pub closed spec fn retired(self) -> Set<u64> {
        self.expired@
    }

    /// How many identifiers the window holds at most.
    pub closed spec fn capacity(self) -> nat {
        self.max_size as nat
    }

    pub fn new(max_size: usize) -> (r: Self)
        ensures
            r.window() == Seq::<u64>::empty(),
            r.retired() == Set::<u64>::empty(),
            r.capacity() == max_size,
    {
        let ids: HashSet<u64> = HashSet::new();
        let order: VecDeque<u64> = VecDeque::new();
        let expired: HashSet<u64> = HashSet::new();
        proof {
            assert(order@.to_set() =~= ids@);
        }
        DedupFilter { ids, order, expired, max_size }
    }

    /// Whether `id` is in the window. An identifier that is not, and has
    /// not aged out of it before, enters it at the back; when the window is
    /// then over capacity its oldest arrival leaves and is remembered as
    /// aged out. A filter of capacity zero remembers nothing and never
    /// reports a duplicate.
    pub fn is_duplicate(&mut self, id: u64) -> (r: bool)
        ensures
            r == (old(self).capacity() > 0 && old(self).window().contains(id)),
            final(self).capacity() == old(self).capacity(),
            old(self).capacity() == 0 || r || old(self).retired().contains(id) ==> final(self).window()
                == old(self).window() && final(self).retired() == old(self).retired(),
            !(old(self).capacity() == 0 || r || old(self).retired().contains(id)) ==> final(self).window()
                == after_admission(old(self).window(), id, old(self).capacity())
                && final(self).retired() == retired_after(
                old(self).window(),
                old(self).capacity(),
                old(self).retired(),
            ),
            final(self).window().len() <= final(self).capacity(),
            final(self).window().no_duplicates(),
            forall|x: u64| final(self).retired().contains(x) ==> !final(self).window().contains(x),
    {
        proof {
            use_type_invariant(&*self);
            assert forall|x: u64| self.expired@.contains(x) implies !self.order@.contains(x) by {
                if self.order@.contains(x) {
                    assert(self.order@.to_set().contains(x));
                }
            }
        }
        if self.max_size == 0 {
            return false;
        }
        if self.ids.contains(&id) {
            return true;
        }
        if self.expired.contains(&id) {
            return false;
        }
        let ghost w = self.order@;
        let ghost e = self.expired@;
        proof {
            assert(!w.contains(id)) by {
                if w.contains(id) {
                    assert(w.to_set().contains(id));
                }
            }
        }
        let mut taken = DedupFilter::new(self.max_size);
        std::mem::swap(self, &mut taken);
        let DedupFilter { mut ids, mut order, mut expired, max_size } = taken;
        ids.insert(id);
        order.push_back(id);
        proof {
            assert(order@ =~= w.push(id));
            lemma_push_unique(w, id);
            assert forall|y: u64| order@.contains(y) <==> (w.contains(y) || y == id) by {
                if order@.contains(y) {
                    let k = choose|k: int| 0 <= k < order@.len() && order@[k] == y;
                    if k < w.len() {
                        assert(w[k] == y);
                    }
                }
                if w.contains(y) {
                    let k = choose|k: int| 0 <= k < w.len() && w[k] == y;
                    assert(order@[k] == y);
                }
                if y == id {
                    assert(order@[w.len() as int] == id);
                }
            }
            assert(ids@ =~= order@.to_set());
        }
        if order.len() > max_size {
            let ghost grown = order@;
            let oldest = order.pop_front();
            match oldest {
                Some(x) => {
                    ids.remove(&x);
                    expired.insert(x);
                    proof {
                        assert(grown[0] == w[0]);
                        assert(order@ =~= grown.drop_first());
                        lemma_drop_first_unique(grown);
                        assert forall|y: u64| ids@.contains(y) <==> order@.to_set().contains(y) by {
                            if y == x {
                                assert forall|k: int| 0 <= k < order@.len() implies order@[k] != x by {
                                    assert(grown[k + 1] == order@[k]);
                                    assert(grown[0] == x);
                                }
                            }
                            if order@.contains(y) {
                                let k = choose|k: int| 0 <= k < order@.len() && order@[k] == y;
                                assert(grown[k + 1] == y);
                            }
                            if grown.contains(y) && y != x {
                                let k = choose|k: int| 0 <= k < grown.len() && grown[k] == y;
                                assert(k != 0);
                                assert(order@[k - 1] == y);
                            }
                        }
                        assert(ids@ =~= order@.to_set());
                    }
                },
                None => {},
            }
        }
        proof {
            assert(expired@ =~= retired_after(w, max_size as nat, e));
            assert forall|x: u64| expired@.contains(x) implies !ids@.contains(x) by {
                if e.contains(x) && x != id {
                    assert(!w.to_set().contains(x));
                }
            }
        }
        *self = DedupFilter { ids, order, expired, max_size };
        proof {
            assert forall|x: u64| self.expired@.contains(x) implies !self.order@.contains(x) by {
                if self.order@.contains(x) {
                    assert(self.order@.to_set().contains(x));
                }
            }
        }
        false
    }

    /// Forgets every identifier, those that aged out included.
    pub fn clear(&mut self)
        ensures
            final(self).window() == Seq::<u64>::empty(),
            final(self).retired() == Set::<u64>::empty(),
            final(self).capacity() == old(self).capacity(),
    {
        *self = DedupFilter::new(self.max_size);
    }

    /// How many identifiers the window holds.
    pub fn len(&self) -> (r: usize)
        ensures
            r == self.window().len(),
    {
        proof {
            use_type_invariant(self);
            assert(self.order@.no_duplicates());
            self.order@.unique_seq_to_set();
        }
        self.ids.len()
    }

    pub fn is_empty(&self) -> (r: bool)
        ensures
            r == (self.window().len() == 0),
    {
        self.len() == 0
    }
}

impl Default for DedupFilter {
    fn default() -> (r: Self)
        ensures
            r.window() == Seq::<u64>::empty(),
            r.retired() == Set::<u64>::empty(),
            r.capacity() == 8192,
    {
        Self::new(8192)
    }
}

} // verus!
