//! A map from names to values, kept in name order.
//!
//! Backends are looked up by name and always listed in name order; holding
//! the entries sorted by name makes every listing deterministic.
use vstd::prelude::*;

use crate::text::{lemma_seq_lt_asymmetric, lemma_seq_lt_irreflexive, lemma_seq_lt_total,
    lemma_seq_lt_transitive, seq_lt, str_eq, str_lt};

verus! {

/// The character sequences of a list of strings.
pub open spec fn name_seq(v: Seq<String>) -> Seq<Seq<char>> {
    Seq::new(v.len(), |i: int| v[i]@)
}

/// Strictly increasing in lexicographic order (hence free of duplicates).
pub open spec fn names_sorted(v: Seq<Seq<char>>) -> bool {
    forall|i: int, j: int| 0 <= i < j < v.len() ==> seq_lt(v[i], v[j])
}

/// The position of `k` in a duplicate-free sequence holding it.
pub open spec fn pos_of(v: Seq<Seq<char>>, k: Seq<char>) -> int {
    choose|i: int| 0 <= i < v.len() && v[i] == k
}

pub proof fn lemma_sorted_unique(v: Seq<Seq<char>>, i: int, j: int)
    requires
        names_sorted(v),
        0 <= i < v.len(),
        0 <= j < v.len(),
        v[i] == v[j],
    ensures
        i == j,
{
    if i < j {
        lemma_seq_lt_irreflexive(v[i]);
    } else if j < i {
        lemma_seq_lt_irreflexive(v[i]);
    }
}

pub proof fn lemma_pos_of(v: Seq<Seq<char>>, i: int)
    requires
        names_sorted(v),
        0 <= i < v.len(),
    ensures
        pos_of(v, v[i]) == i,
{
    let k = v[i];
    assert(exists|j: int| 0 <= j < v.len() && v[j] == k);
    let p = pos_of(v, k);
    lemma_sorted_unique(v, p, i);
}

/// Every element of a filtered sequence comes from the sequence and
/// satisfies the predicate.
pub proof fn lemma_filter_members<A>(s: Seq<A>, pred: spec_fn(A) -> bool)
    ensures
        forall|i: int|
            0 <= i < s.filter(pred).len() ==> s.contains(#[trigger] s.filter(pred)[i]) && pred(
                s.filter(pred)[i],
            ),
    decreases s.len(),
{
    reveal(Seq::filter);
    if s.len() > 0 {
        lemma_filter_members(s.drop_last(), pred);
        let f = s.filter(pred);
        let g = s.drop_last().filter(pred);
        assert forall|i: int| 0 <= i < f.len() implies s.contains(#[trigger] f[i]) && pred(f[i]) by {
            if i < g.len() {
                assert(f[i] == g[i]);
                let j = choose|j: int| 0 <= j < s.drop_last().len() && s.drop_last()[j] == g[i];
                assert(s[j] == g[i]);
            } else {
                assert(f[i] == s.last());
                assert(s[s.len() - 1] == s.last());
            }
        }
    }
}

/// Position of `name` in a sorted name list, or where it would go.
pub fn name_position(names: &Vec<String>, name: &str) -> (r: (usize, bool))
    requires
        names_sorted(name_seq(names@)),
    ensures
        r.0 <= names@.len(),
        forall|k: int| 0 <= k < r.0 ==> seq_lt(names@[k]@, name@),
        forall|k: int| r.0 <= k < names@.len() ==> !seq_lt(#[trigger] names@[k]@, name@),
        r.1 == (r.0 < names@.len() && names@[r.0 as int]@ == name@),
        r.1 == name_seq(names@).contains(name@),
        !r.1 ==> forall|k: int| r.0 <= k < names@.len() ==> seq_lt(name@, #[trigger] names@[k]@),
{
    let mut i: usize = 0;
    while i < names.len() && str_lt(names[i].as_str(), name)
        invariant
            i <= names@.len(),
            names_sorted(name_seq(names@)),
            forall|k: int| 0 <= k < i ==> seq_lt(names@[k]@, name@),
        decreases names@.len() - i,
    {
        i = i + 1;
    }
    let found = i < names.len() && str_eq(names[i].as_str(), name);
    proof {
        let ns = name_seq(names@);
        assert forall|k: int| i <= k < names@.len() implies !seq_lt(#[trigger] names@[k]@, name@) by {
            if k > i {
                assert(ns[i as int] == names@[i as int]@);
                assert(ns[k] == names@[k]@);
                if seq_lt(names@[k]@, name@) {
                    lemma_seq_lt_transitive(names@[i as int]@, names@[k]@, name@);
                }
            }
        }
        if found {
            assert(ns[i as int] == name@);
        } else {
            if ns.contains(name@) {
                let k = choose|k: int| 0 <= k < ns.len() && ns[k] == name@;
                if k < i {
                    lemma_seq_lt_irreflexive(name@);
                } else if k > i {
                    assert(ns[i as int] == names@[i as int]@);
                    lemma_seq_lt_total(names@[i as int]@, name@);
                    lemma_seq_lt_asymmetric(names@[i as int]@, names@[k]@);
                }
            }
            assert forall|k: int| i <= k < names@.len() implies seq_lt(name@, #[trigger] names@[k]@) by {
                assert(ns[k] == names@[k]@);
                if k == i {
                    lemma_seq_lt_total(names@[k]@, name@);
                } else {
                    assert(ns[i as int] == names@[i as int]@);
                    lemma_seq_lt_total(names@[i as int]@, name@);
                    lemma_seq_lt_transitive(name@, names@[i as int]@, names@[k]@);
                }
            }
        }
    }
    (i, found)
}

/// Names in order, each with a value.
pub struct NameMap<V> {
    keys: Vec<String>,
    vals: Vec<V>,
}

impl<V> NameMap<V> {
    /// Keys sorted and one value per key.
    pub closed spec fn wf(self) -> bool {
        &&& names_sorted(name_seq(self.keys@))
        &&& self.keys@.len() == self.vals@.len()
    }

    /// The keys, in order.
    pub closed spec fn key_seq(self) -> Seq<Seq<char>> {
        name_seq(self.keys@)
    }

    /// The values, in key order.
    pub closed spec fn val_seq(self) -> Seq<V> {
        self.vals@
    }

    /// The map from each key to its value.
    pub open spec fn spec_map(self) -> Map<Seq<char>, V> {
        Map::new(
            |k: Seq<char>| self.key_seq().contains(k),
            |k: Seq<char>| self.val_seq()[pos_of(self.key_seq(), k)],
        )
    }

    pub proof fn lemma_wf(self)
        requires
            self.wf(),
        ensures
            names_sorted(self.key_seq()),
            self.key_seq().len() == self.val_seq().len(),
            forall|i: int|
                0 <= i < self.key_seq().len() ==> #[trigger] pos_of(self.key_seq(), self.key_seq()[i])
                    == i,
    {
        assert forall|i: int| 0 <= i < self.key_seq().len() implies #[trigger] pos_of(
            self.key_seq(),
            self.key_seq()[i],
        ) == i by {
            lemma_pos_of(self.key_seq(), i);
        }
    }

    pub fn new() -> (r: Self)
        ensures
            r.wf(),
            r.key_seq().len() == 0,
            r.spec_map() == Map::<Seq<char>, V>::empty(),
    {
        let r = NameMap { keys: Vec::new(), vals: Vec::new() };
        assert(r.spec_map() =~= Map::<Seq<char>, V>::empty());
        r
    }

    /// The keys of the map are exactly the listed names, one entry per name.
    pub proof fn lemma_dom(self)
        requires
            self.wf(),
        ensures
            self.spec_map().dom() == self.key_seq().to_set(),
            self.spec_map().dom().finite(),
            self.spec_map().dom().len() == self.key_seq().len(),
    {
        let ks = self.key_seq();
        assert(self.spec_map().dom() =~= ks.to_set());
        assert(ks.no_duplicates()) by {
            assert forall|i: int, j: int|
                0 <= i < ks.len() && 0 <= j < ks.len() && i != j implies ks[i] != ks[j] by {
                if ks[i] == ks[j] {
                    lemma_sorted_unique(ks, i, j);
                }
            }
        }
        ks.unique_seq_to_set();
    }

    pub fn len(&self) -> (r: usize)
        requires
            self.wf(),
        ensures
            r == self.key_seq().len(),
            r == self.spec_map().dom().len(),
    {
        proof {
            self.lemma_dom();
        }
        self.keys.len()
    }

    /// Where `name` sits, if present.
    pub fn find(&self, name: &str) -> (r: Option<usize>)
        requires
            self.wf(),
        ensures
            r.is_some() == self.key_seq().contains(name@),
            r matches Some(i) ==> i < self.key_seq().len() && self.key_seq()[i as int] == name@,
    {
        let (i, found) = name_position(&self.keys, name);
        if found {
            Some(i)
        } else {
            None
        }
    }

    pub fn key_at(&self, i: usize) -> (r: &String)
        requires
            self.wf(),
            i < self.key_seq().len(),
        ensures
            r@ == self.key_seq()[i as int],
    {
        &self.keys[i]
    }

    pub fn val_at(&self, i: usize) -> (r: &V)
        requires
            self.wf(),
            i < self.key_seq().len(),
        ensures
            *r == self.val_seq()[i as int],
    {
        &self.vals[i]
    }

    /// Replaces the value at position `i`.
    pub fn set_at(&mut self, i: usize, v: V)
        requires
            old(self).wf(),
            i < old(self).key_seq().len(),
        ensures
            final(self).wf(),
            final(self).key_seq() == old(self).key_seq(),
            final(self).val_seq() == old(self).val_seq().update(i as int, v),
    {
        self.vals.set(i, v);
    }

    /// The keys, in order.
    pub fn keys(&self) -> (r: &Vec<String>)
        requires
            self.wf(),
        ensures
            name_seq(r@) == self.key_seq(),
    {
        &self.keys
    }

    /// The values, in key order.
    pub fn values(&self) -> (r: &Vec<V>)
        requires
            self.wf(),
        ensures
            r@ == self.val_seq(),
    {
        &self.vals
    }

    /// Adds `name` with `v`, or replaces the value of `name`.
    pub fn insert(&mut self, name: String, v: V)
        requires
            old(self).wf(),
        ensures
            final(self).wf(),
            final(self).spec_map() == old(self).spec_map().insert(name@, v),
            old(self).key_seq().contains(name@) ==> final(self).key_seq() == old(self).key_seq(),
            !old(self).key_seq().contains(name@) ==> final(self).key_seq().len() == old(self).key_seq().len() + 1,
    {
        let ghost ok = self.key_seq();
        let ghost ov = self.val_seq();
        let (i, found) = name_position(&self.keys, name.as_str());
        if found {
            self.vals.set(i, v);
            proof {
                lemma_pos_of(ok, i as int);
                assert forall|k: Seq<char>| ok.contains(k) implies #[trigger] self.spec_map()[k]
                    == old(self).spec_map().insert(name@, v)[k] by {
                    let p = pos_of(ok, k);
                    lemma_pos_of(ok, p);
                    if k != name@ {
                        assert(p != i);
                    }
                }
                assert(self.spec_map() =~= old(self).spec_map().insert(name@, v));
            }
        } else {
            let ghost nm = name@;
            self.keys.insert(i, name);
            self.vals.insert(i, v);
            proof {
                let nk = self.key_seq();
                assert(nk =~= ok.insert(i as int, nm));
                assert forall|a: int, b: int| 0 <= a < b < nk.len() implies seq_lt(
                    nk[a],
                    nk[b],
                ) by {
                    if a < i && b > i {
                        assert(nk[b] == ok[b - 1]);
                        if b - 1 == a {
                        } else {
                            lemma_seq_lt_transitive(ok[a], nm, ok[b - 1]);
                        }
                    } else if a > i {
                        assert(nk[a] == ok[a - 1]);
                        assert(nk[b] == ok[b - 1]);
                    } else if a == i {
                        assert(nk[b] == ok[b - 1]);
                    }
                }
                assert(names_sorted(nk));
                assert forall|k: Seq<char>| #[trigger] nk.contains(k) <==> ok.contains(k) || k
                    == nm by {
                    if nk.contains(k) {
                        let p = choose|p: int| 0 <= p < nk.len() && nk[p] == k;
                        if p < i {
                            assert(ok[p] == k);
                        } else if p > i {
                            assert(ok[p - 1] == k);
                        }
                    }
                    if ok.contains(k) {
                        let p = choose|p: int| 0 <= p < ok.len() && ok[p] == k;
                        if p < i {
                            assert(nk[p] == k);
                        } else {
                            assert(nk[p + 1] == k);
                        }
                    }
                    if k == nm {
                        assert(nk[i as int] == k);
                    }
                }
                assert forall|k: Seq<char>| nk.contains(k) implies #[trigger] self.spec_map()[k]
                    == old(self).spec_map().insert(nm, v)[k] by {
                    if k == nm {
                        lemma_pos_of(nk, i as int);
                    } else {
                        let p = pos_of(ok, k);
                        lemma_pos_of(ok, p);
                        if p < i {
                            assert(nk[p] == k);
                            lemma_pos_of(nk, p);
                        } else {
                            assert(nk[p + 1] == k);
                            lemma_pos_of(nk, p + 1);
                        }
                    }
                }
                assert(self.spec_map() =~= old(self).spec_map().insert(nm, v));
            }
        }
    }

    /// Removes `name`, handing back its value when it was present.
    pub fn remove(&mut self, name: &str) -> (r: Option<V>)
        requires
            old(self).wf(),
        ensures
            final(self).wf(),
            final(self).spec_map() == old(self).spec_map().remove(name@),
            r.is_some() == old(self).spec_map().contains_key(name@),
            r matches Some(v) ==> v == old(self).spec_map()[name@],
            r is None ==> *final(self) == *old(self),
    {
        let ghost ok = self.key_seq();
        let ghost ov = self.val_seq();
        let (i, found) = name_position(&self.keys, name);
        if !found {
            assert(self.spec_map() =~= old(self).spec_map().remove(name@));
            return None;
        }
        self.keys.remove(i);
        let v = self.vals.remove(i);
        proof {
            lemma_pos_of(ok, i as int);
            let nk = self.key_seq();
            assert(nk =~= ok.remove(i as int));
            assert forall|a: int, b: int| 0 <= a < b < nk.len() implies seq_lt(nk[a], nk[b]) by {
                if a >= i {
                    assert(nk[a] == ok[a + 1]);
                }
                if b >= i {
                    assert(nk[b] == ok[b + 1]);
                }
            }
            assert forall|k: Seq<char>| #[trigger] nk.contains(k) <==> ok.contains(k) && k
                != name@ by {
                if nk.contains(k) {
                    let p = choose|p: int| 0 <= p < nk.len() && nk[p] == k;
                    let q = if p < i { p } else { p + 1 };
                    assert(ok[q] == k);
                    if k == name@ {
                        assert(ok[i as int] == name@);
                        lemma_sorted_unique(ok, q, i as int);
                    }
                }
                if ok.contains(k) && k != name@ {
                    let p = choose|p: int| 0 <= p < ok.len() && ok[p] == k;
                    if p < i {
                        assert(nk[p] == k);
                    } else {
                        assert(p != i);
                        assert(nk[p - 1] == k);
                    }
                }
            }
            assert forall|k: Seq<char>| nk.contains(k) implies #[trigger] self.spec_map()[k]
                == old(self).spec_map()[k] by {
                let p = pos_of(ok, k);
                lemma_pos_of(ok, p);
                if p < i {
                    assert(nk[p] == k);
                    lemma_pos_of(nk, p);
                } else {
                    assert(p != i);
                    assert(nk[p - 1] == k);
                    lemma_pos_of(nk, p - 1);
                }
            }
            assert(self.spec_map() =~= old(self).spec_map().remove(name@));
        }
        Some(v)
    }

    pub fn clear(&mut self)
        ensures
            final(self).wf(),
            final(self).key_seq().len() == 0,
            final(self).spec_map() == Map::<Seq<char>, V>::empty(),
    {
        self.keys = Vec::new();
        self.vals = Vec::new();
        assert(self.spec_map() =~= Map::<Seq<char>, V>::empty());
    }
}

} // verus!
