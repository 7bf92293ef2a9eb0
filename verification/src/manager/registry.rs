//! Registry of the capabilities that each backend declares.
//!
//! Backends are identified by their trimmed name; registering a name again
//! replaces what was declared for it before. The names of the backends
//! that declare a capability come out from the last name to the first;
//! every other listing comes out in name order.
use vstd::prelude::*;

use crate::manager::capabilities::{strictly_sorted, BackendCapability, CapabilitySet};
use crate::namemap::{name_seq, names_sorted, NameMap};
use crate::text::{trim, trim_str};

verus! {

/// Capabilities declared per backend name.
pub struct CapabilityRegistry {
    entries: NameMap<CapabilitySet>,
}

impl View for CapabilityRegistry {
    type V = Map<Seq<char>, Set<BackendCapability>>;

    /// Each registered name with its capability set.
    closed spec fn view(&self) -> Map<Seq<char>, Set<BackendCapability>> {
        Map::new(
            |k: Seq<char>| self.entries.spec_map().contains_key(k),
            |k: Seq<char>| self.entries.spec_map()[k]@,
        )
    }
}

impl Default for CapabilityRegistry {
    fn default() -> (r: Self)
        ensures
            r@ == Map::<Seq<char>, Set<BackendCapability>>::empty(),
    {
        Self::new()
    }
}

impl CapabilityRegistry {
    #[verifier::type_invariant]
    closed spec fn inv(self) -> bool {
        &&& self.entries.wf()
        &&& forall|k: Seq<char>|
            #[trigger] self.entries.spec_map().contains_key(k) ==> k.len() > 0 && trim(k) == k
    }

    /// The registered names, in order.
    pub closed spec fn names(self) -> Seq<Seq<char>> {
        self.entries.key_seq()
    }

    /// The names are sorted, distinct and exactly the registered ones; none
    /// is empty or padded with whitespace.
    proof fn lemma_names(self)
        requires
            self.inv(),
        ensures
            names_sorted(self.names()),
            self.names().to_set() == self@.dom(),
            self.names().len() == self@.dom().len(),
            forall|k: Seq<char>| #[trigger] self@.contains_key(k) ==> k.len() > 0 && trim(k) == k,
    {
        self.entries.lemma_wf();
        self.entries.lemma_dom();
        assert(self@.dom() =~= self.entries.spec_map().dom());
    }

    pub fn new() -> (r: Self)
        ensures
            r@ == Map::<Seq<char>, Set<BackendCapability>>::empty(),
    {
        let r = CapabilityRegistry { entries: NameMap::new() };
        assert(r@ =~= Map::<Seq<char>, Set<BackendCapability>>::empty());
        r
    }

    /// Declares the capabilities of a backend, replacing any earlier
    /// declaration under the same (trimmed) name. A blank name is refused.
    pub fn register_backend(&mut self, backend_name: &str, capabilities: &[BackendCapability]) -> (r:
        bool)
        ensures
            r == (trim(backend_name@).len() > 0),
            r ==> final(self)@ == old(self)@.insert(trim(backend_name@), capabilities@.to_set()),
            !r ==> final(self)@ == old(self)@,
    {
        proof {
            use_type_invariant(&*self);
        }
        let name = trim_str(backend_name);
        if name.as_str().unicode_len() == 0 {
            return false;
        }
        proof {
            crate::text::lemma_trim_idempotent(backend_name@);
        }
        let ghost old_map = self.entries.spec_map();
        let set = CapabilitySet::from(capabilities);
        let mut entries = NameMap::new();
        std::mem::swap(&mut entries, &mut self.entries);
        entries.insert(name, set);
        self.entries = entries;
        proof {
            assert(self@ =~= old(self)@.insert(trim(backend_name@), capabilities@.to_set()));
        }
        true
    }

    /// Drops a backend; `true` when it was registered.
    pub fn unregister_backend(&mut self, backend_name: &str) -> (r: bool)
        ensures
            r == old(self)@.contains_key(trim(backend_name@)),
            final(self)@ == old(self)@.remove(trim(backend_name@)),
    {
        proof {
            use_type_invariant(&*self);
        }
        let name = trim_str(backend_name);
        let mut entries = NameMap::new();
        std::mem::swap(&mut entries, &mut self.entries);
        let removed = entries.remove(name.as_str());
        self.entries = entries;
        proof {
            assert(self@ =~= old(self)@.remove(trim(backend_name@)));
        }
        removed.is_some()
    }

    pub fn contains_backend(&self, backend_name: &str) -> (r: bool)
        ensures
            r == self@.contains_key(trim(backend_name@)),
    {
        proof {
            use_type_invariant(self);
        }
        let name = trim_str(backend_name);
        self.entries.find(name.as_str()).is_some()
    }

    /// Whether the backend is registered with `capability`.
    pub fn supports(&self, backend_name: &str, capability: BackendCapability) -> (r: bool)
        ensures
            r == (self@.contains_key(trim(backend_name@)) && self@[trim(
                backend_name@,
            )].contains(capability)),
    {
        proof {
            use_type_invariant(self);
            self.entries.lemma_wf();
        }
        let name = trim_str(backend_name);
        match self.entries.find(name.as_str()) {
            Some(i) => self.entries.val_at(i).contains(capability),
            None => false,
        }
    }

    /// The capabilities of a backend in ABI order; empty when unknown.
    pub fn capabilities(&self, backend_name: &str) -> (r: Vec<BackendCapability>)
        ensures
            strictly_sorted(r@),
            self@.contains_key(trim(backend_name@)) ==> r@.to_set() == self@[trim(backend_name@)],
            !self@.contains_key(trim(backend_name@)) ==> r@.len() == 0,
    {
        proof {
            use_type_invariant(self);
            self.entries.lemma_wf();
        }
        let name = trim_str(backend_name);
        match self.entries.find(name.as_str()) {
            Some(i) => self.entries.val_at(i).to_vec(),
            None => Vec::new(),
        }
    }

    /// Names of the backends that declare `capability`, sorted by name
    /// from the last to the first.
    pub fn backends_with(&self, capability: BackendCapability) -> (r: Vec<String>)
        ensures
            name_seq(r@) == self.names().filter(|k: Seq<char>| self@[k].contains(capability)).reverse(),
    {
        let mut ascending = self.backends_with_ascending(capability);
        let ghost full = name_seq(ascending@);
        let ghost n = ascending@.len();
        let mut result: Vec<String> = Vec::new();
        proof {
            assert(full.take(n as int) =~= full);
            assert(name_seq(result@) =~= full.reverse().take(0));
        }
        while ascending.len() > 0
            invariant
                full.len() == n,
                ascending@.len() <= n,
                name_seq(ascending@) == full.take(ascending@.len() as int),
                name_seq(result@) == full.reverse().take(n - ascending@.len()),
            decreases ascending@.len(),
        {
            let ghost m = ascending@.len();
            let ghost a = ascending@;
            let ghost before = result@;
            match ascending.pop() {
                Some(x) => {
                    proof {
                        assert(x == a[m - 1]);
                        assert(name_seq(a)[m - 1] == a[m - 1]@);
                        assert(full.take(m as int)[m - 1] == full[m - 1]);
                        assert(x@ == full[m - 1]);
                        assert(full.reverse()[n - m] == full[m - 1]);
                    }
                    result.push(x);
                    proof {
                        assert(name_seq(ascending@) =~= full.take(m - 1));
                        assert(name_seq(result@) =~= name_seq(before).push(x@));
                        assert(full.reverse().len() == n);
                        assert(full.reverse().take(n - m + 1) =~= full.reverse().take(n - m).push(
                            full.reverse()[n - m],
                        ));
                        assert(name_seq(result@) =~= full.reverse().take(n - (m - 1)));
                    }
                },
                None => {},
            }
        }
        proof {
            assert(full.reverse().take(n as int) =~= full.reverse());
        }
        result
    }

    /// Names of the backends that declare `capability`, in name order.
    fn backends_with_ascending(&self, capability: BackendCapability) -> (r: Vec<String>)
        ensures
            name_seq(r@) == self.names().filter(|k: Seq<char>| self@[k].contains(capability)),
    {
        proof {
            use_type_invariant(self);
            self.entries.lemma_wf();
        }
        let ghost pred = |k: Seq<char>| self@[k].contains(capability);
        let ghost ks = self.names();
        let mut result: Vec<String> = Vec::new();
        let n = self.entries.len();
        let mut i: usize = 0;
        while i < n
            invariant
                n == ks.len(),
                i <= n,
                ks == self.names(),
                ks == self.entries.key_seq(),
                self.entries.wf(),
                pred == (|k: Seq<char>| self@[k].contains(capability)),
                forall|j: int|
                    0 <= j < ks.len() ==> #[trigger] crate::namemap::pos_of(ks, ks[j]) == j,
                name_seq(result@) == ks.take(i as int).filter(pred),
            decreases n - i,
        {
            let set = self.entries.val_at(i);
            let ghost before = result@;
            proof {
                assert(ks.take(i + 1).drop_last() =~= ks.take(i as int));
                reveal(Seq::filter);
                assert(self.entries.spec_map().contains_key(ks[i as int]));
                assert(self@[ks[i as int]] == set@);
            }
            if set.contains(capability) {
                let name = self.entries.key_at(i).clone();
                result.push(name);
                proof {
                    assert(name_seq(result@) =~= name_seq(before).push(ks[i as int]));
                }
            }
            i = i + 1;
        }
        assert(ks.take(n as int) =~= ks);
        result
    }

    /// Number of registered backends.
    pub fn backend_count(&self) -> (r: usize)
        ensures
            r == self@.dom().len(),
    {
        proof {
            use_type_invariant(self);
            self.lemma_names();
        }
        self.entries.len()
    }

    /// Number of distinct capabilities of a backend; 0 when unknown.
    pub fn capability_count(&self, backend_name: &str) -> (r: usize)
        ensures
            self@.contains_key(trim(backend_name@)) ==> r == self@[trim(backend_name@)].len(),
            !self@.contains_key(trim(backend_name@)) ==> r == 0,
    {
        proof {
            use_type_invariant(self);
            self.entries.lemma_wf();
        }
        let name = trim_str(backend_name);
        match self.entries.find(name.as_str()) {
            Some(i) => self.entries.val_at(i).len(),
            None => 0,
        }
    }

    pub fn clear(&mut self)
        ensures
            final(self)@ == Map::<Seq<char>, Set<BackendCapability>>::empty(),
    {
        self.entries = NameMap::new();
        assert(self@ =~= Map::<Seq<char>, Set<BackendCapability>>::empty());
    }

    /// The registered names, in order.
    pub fn backend_names(&self) -> (r: Vec<String>)
        ensures
            name_seq(r@) == self.names(),
    {
        proof {
            use_type_invariant(self);
        }
        self.entries.keys().clone()
    }

    /// Every backend with its capabilities in ABI order, in name order.
    pub fn snapshot(&self) -> (r: Vec<(String, Vec<BackendCapability>)>)
        ensures
            r@.len() == self.names().len(),
            forall|i: int|
                0 <= i < r@.len() ==> {
                    &&& (#[trigger] r@[i]).0@ == self.names()[i]
                    &&& strictly_sorted(r@[i].1@)
                    &&& r@[i].1@.to_set() == self@[self.names()[i]]
                },
    {
        proof {
            use_type_invariant(self);
            self.entries.lemma_wf();
        }
        let ghost ks = self.names();
        let n = self.entries.len();
        let mut result: Vec<(String, Vec<BackendCapability>)> = Vec::new();
        let mut i: usize = 0;
        while i < n
            invariant
                n == ks.len(),
                i <= n,
                ks == self.names(),
                ks == self.entries.key_seq(),
                self.entries.wf(),
                forall|j: int|
                    0 <= j < ks.len() ==> #[trigger] crate::namemap::pos_of(ks, ks[j]) == j,
                result@.len() == i,
                forall|j: int|
                    0 <= j < i ==> {
                        &&& (#[trigger] result@[j]).0@ == ks[j]
                        &&& strictly_sorted(result@[j].1@)
                        &&& result@[j].1@.to_set() == self@[ks[j]]
                    },
            decreases n - i,
        {
            let name = self.entries.key_at(i).clone();
            let caps = self.entries.val_at(i).to_vec();
            proof {
                assert(self.entries.spec_map().contains_key(ks[i as int]));
            }
            result.push((name, caps));
            i = i + 1;
        }
        result
    }
}

} // verus!
