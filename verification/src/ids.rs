//! Lists of process and task identifiers, and removal of an identifier from one.

use vstd::prelude::*;

verus! {

/// `s` with every occurrence of `x` taken out, the rest in their old order.
pub open spec fn without(s: Seq<u64>, x: u64) -> Seq<u64>
    decreases s.len(),
{
    if s.len() == 0 {
        s
    } else if s.last() == x {
        without(s.drop_last(), x)
    } else {
        without(s.drop_last(), x).push(s.last())
    }
}

/// What is left after removing `x` is what was there, but for `x`.
pub proof fn lemma_without_contains(s: Seq<u64>, x: u64, y: u64)
    ensures
        without(s, x).contains(y) <==> s.contains(y) && y != x,
    decreases s.len(),
{
    if s.len() > 0 {
        let front = s.drop_last();
        lemma_without_contains(front, x, y);
        if s.contains(y) {
            let i = choose|i: int| 0 <= i < s.len() && s[i] == y;
            if i < front.len() {
                assert(front[i] == y);
            }
        }
        if front.contains(y) {
            let i = choose|i: int| 0 <= i < front.len() && front[i] == y;
            assert(s[i] == y);
        }
        if s.last() != x {
            let kept = without(front, x);
            let out = kept.push(s.last());
            if kept.contains(y) {
                let i = choose|i: int| 0 <= i < kept.len() && kept[i] == y;
                assert(out[i] == y);
            }
            if s.last() == y {
                assert(out[kept.len() as int] == y);
                assert(s[s.len() - 1] == y);
            }
        }
    }
}

/// Removing an identifier that does not occur changes nothing.
pub proof fn lemma_without_absent(s: Seq<u64>, x: u64)
    requires
        !s.contains(x),
    ensures
        without(s, x) == s,
    decreases s.len(),
{
    if s.len() > 0 {
        let front = s.drop_last();
        assert(s[s.len() - 1] != x);
        assert forall|i: int| 0 <= i < front.len() implies front[i] != x by {
            assert(s[i] == front[i]);
        }
        lemma_without_absent(front, x);
        assert(front.push(s.last()) =~= s);
    }
}

/// Takes every occurrence of `x` out of `v`, keeping the order of the rest.
pub fn remove_all(v: &mut Vec<u64>, x: u64)
    ensures
        final(v)@ == without(old(v)@, x),
{
    let mut kept: Vec<u64> = Vec::new();
    let mut i: usize = 0;
    while i < v.len()
        invariant
            i <= v.len(),
            v@ == old(v)@,
            kept@ == without(v@.take(i as int), x),
        decreases v.len() - i,
    {
        let t = v[i];
        proof {
            assert(v@.take(i + 1).drop_last() =~= v@.take(i as int));
        }
        if t != x {
            kept.push(t);
        }
        i += 1;
    }
    proof {
        assert(v@.take(v.len() as int) =~= v@);
    }
    *v = kept;
}

} // verus!
