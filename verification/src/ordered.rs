//! Walking an ordered map in key order.

use std::collections::BTreeMap;
use vstd::laws_cmp::*;
use vstd::prelude::*;
use vstd::std_specs::btree::*;
use vstd::std_specs::cmp::OrdSpec;
use vstd::std_specs::iter::IteratorSpec;

verus! {

/// `keys` lists exactly the members of `dom`, each once, smallest first.
pub open spec fn ascending_over(keys: Seq<usize>, dom: Set<usize>) -> bool {
    &&& forall|i: int, j: int| 0 <= i < j < keys.len() ==> keys[i] < keys[j]
    &&& forall|k: usize| dom.contains(k) <==> keys.contains(k)
}

/// The members of a finite set of hours, smallest first.
pub open spec fn ascending_keys(dom: Set<usize>) -> Seq<usize> {
    choose|keys: Seq<usize>| ascending_over(keys, dom)
}

/// A set has at most one ascending listing.
pub proof fn lemma_ascending_unique(a: Seq<usize>, b: Seq<usize>, dom: Set<usize>)
    requires
        ascending_over(a, dom),
        ascending_over(b, dom),
    ensures
        a == b,
    decreases a.len(),
{
    if a.len() == 0 {
        if b.len() > 0 {
            assert(b.contains(b[0]));
            assert(a.contains(b[0]));
        }
        assert(a =~= b);
    } else {
        assert(a.contains(a[0]));
        assert(b.contains(a[0]));
        let p = choose|p: int| 0 <= p < b.len() && b[p] == a[0];
        assert(b.contains(b[0]));
        assert(a.contains(b[0]));
        let q = choose|q: int| 0 <= q < a.len() && a[q] == b[0];
        assert(a[0] == b[0]);
        let rest = dom.remove(a[0]);
        let ta = a.drop_first();
        let tb = b.drop_first();
        assert forall|k: usize| rest.contains(k) <==> ta.contains(k) by {
            if rest.contains(k) {
                assert(a.contains(k));
                let i = choose|i: int| 0 <= i < a.len() && a[i] == k;
                assert(ta[i - 1] == k);
            }
            if ta.contains(k) {
                let i = choose|i: int| 0 <= i < ta.len() && ta[i] == k;
                assert(a[i + 1] == k);
                assert(a.contains(k));
            }
        }
        assert forall|k: usize| rest.contains(k) <==> tb.contains(k) by {
            if rest.contains(k) {
                assert(b.contains(k));
                let i = choose|i: int| 0 <= i < b.len() && b[i] == k;
                assert(tb[i - 1] == k);
            }
            if tb.contains(k) {
                let i = choose|i: int| 0 <= i < tb.len() && tb[i] == k;
                assert(b[i + 1] == k);
                assert(b.contains(k));
            }
        }
        lemma_ascending_unique(ta, tb, rest);
        assert(a =~= seq![a[0]] + ta);
        assert(b =~= seq![b[0]] + tb);
    }
}

/// The hours that a map of slots holds, smallest first.
pub(crate) fn hour_keys<V>(m: &BTreeMap<usize, V>) -> (keys: Vec<usize>)
    ensures
        ascending_over(keys@, m@.dom()),
        keys@ == ascending_keys(m@.dom()),
{
    broadcast use group_btree_axioms;
    broadcast use group_laws_cmp;

    let mut keys: Vec<usize> = Vec::new();
    for k in it: m.keys()
        invariant
            keys@ == it.seq().unref().take(it.index()),
    {
        keys.push(*k);
    }
    proof {
        let all = spec_keys_iter(m).remaining();
        axiom_spec_keys_iter(m);
        assert(keys@ == all.unref());
        axiom_increasing_seq_meaning::<&usize>(all);
        assert forall|i: int, j: int| 0 <= i < j < keys@.len() implies keys@[i] < keys@[j] by {
            assert(OrdSpec::cmp_spec(&all[i], &all[j]) is Less);
            assert(OrdSpec::cmp_spec(all[i], all[j]) is Less);
        }
        assert(ascending_over(keys@, m@.dom()));
        lemma_ascending_unique(keys@, ascending_keys(m@.dom()), m@.dom());
    }
    keys
}

/// The day numbers that a map of days holds, smallest first.
pub(crate) fn day_keys<V>(m: &BTreeMap<i32, V>) -> (keys: Vec<i32>)
    ensures
        forall|i: int, j: int| 0 <= i < j < keys@.len() ==> keys@[i] < keys@[j],
        forall|k: i32| m@.dom().contains(k) <==> keys@.contains(k),
{
    broadcast use group_btree_axioms;
    broadcast use group_laws_cmp;

    let mut keys: Vec<i32> = Vec::new();
    for k in it: m.keys()
        invariant
            keys@ == it.seq().unref().take(it.index()),
    {
        keys.push(*k);
    }
    proof {
        let all = spec_keys_iter(m).remaining();
        axiom_spec_keys_iter(m);
        assert(keys@ == all.unref());
        axiom_increasing_seq_meaning::<&i32>(all);
        assert forall|i: int, j: int| 0 <= i < j < keys@.len() implies keys@[i] < keys@[j] by {
            assert(OrdSpec::cmp_spec(&all[i], &all[j]) is Less);
            assert(OrdSpec::cmp_spec(all[i], all[j]) is Less);
        }
    }
    keys
}

} // verus!
