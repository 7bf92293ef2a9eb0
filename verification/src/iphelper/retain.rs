//! Keeping the entries of a table that a run of marks selects, in order.
use vstd::prelude::*;

verus! {

/// The elements of `s` whose mark in `keep` is set, in order.
pub open spec fn kept<A>(s: Seq<A>, keep: Seq<bool>) -> Seq<A>
    decreases s.len(),
{
    if s.len() == 0 {
        Seq::empty()
    } else {
        let rest = kept(s.drop_last(), keep.take(s.len() - 1));
        if keep[s.len() - 1] {
            rest.push(s.last())
        } else {
            rest
        }
    }
}

/// No more elements are kept than there were.
pub proof fn lemma_kept_len<A>(s: Seq<A>, keep: Seq<bool>)
    ensures
        kept(s, keep).len() <= s.len(),
    decreases s.len(),
{
    if s.len() > 0 {
        lemma_kept_len(s.drop_last(), keep.take(s.len() - 1));
    }
}

/// An element is kept exactly when some position holding it is marked.
pub proof fn lemma_kept_members<A>(s: Seq<A>, keep: Seq<bool>, x: A)
    requires
        keep.len() == s.len(),
    ensures
        kept(s, keep).contains(x) <==> exists|i: int| 0 <= i < s.len() && keep[i] && s[i] == x,
    decreases s.len(),
{
    if s.len() > 0 {
        let n = s.len() - 1;
        let rest = kept(s.drop_last(), keep.take(n));
        lemma_kept_members(s.drop_last(), keep.take(n), x);
        if rest.contains(x) {
            let i = choose|i: int| 0 <= i < n && keep.take(n)[i] && s.drop_last()[i] == x;
            assert(keep[i] && s[i] == x);
        }
        if exists|i: int| 0 <= i < s.len() && keep[i] && s[i] == x {
            let i = choose|i: int| 0 <= i < s.len() && keep[i] && s[i] == x;
            if i < n {
                assert(keep.take(n)[i] && s.drop_last()[i] == x);
            }
        }
        if keep[n] {
            assert(rest.push(s.last())[rest.len() as int] == s.last());
            if rest.contains(x) {
                let q = choose|q: int| 0 <= q < rest.len() && rest[q] == x;
                assert(rest.push(s.last())[q] == x);
            }
            if kept(s, keep).contains(x) {
                let q = choose|q: int| 0 <= q < rest.len() + 1 && rest.push(s.last())[q] == x;
                if q < rest.len() {
                    assert(rest[q] == x);
                }
            }
        }
    }
}

/// The elements of `v` whose mark is set, in order.
pub fn retain_marked<A>(v: Vec<A>, keep: &[bool]) -> (r: Vec<A>)
    requires
        keep@.len() == v@.len(),
    ensures
        r@ == kept(v@, keep@),
{
    let ghost s = v@;
    let mut result: Vec<A> = Vec::new();
    let mut i: usize = 0;
    for x in it: v.into_iter()
        invariant
            it.seq() == s,
            i == it.index(),
            keep@.len() == s.len(),
            result@ == kept(s.take(i as int), keep@.take(i as int)),
    {
        proof {
            let t = s.take(i + 1);
            assert(t.drop_last() =~= s.take(i as int));
            assert(keep@.take(i + 1).take(i as int) =~= keep@.take(i as int));
            assert(t.last() == x);
        }
        if keep[i] {
            result.push(x);
        }
        i = i + 1;
    }
    proof {
        assert(s.take(s.len() as int) =~= s);
        assert(keep@.take(s.len() as int) =~= keep@);
    }
    result
}

} // verus!
