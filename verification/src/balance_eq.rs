use crate::balance::{GenericBalance, GenericBalanceView};
use crate::coin::{views, Entry};
use vstd::prelude::*;
use vstd::std_specs::cmp::PartialEqSpecImpl;

verus! {

/// Whether two ledgers hold the same entries, each as often as the other,
/// whatever the order of the entries.
pub open spec fn same_holdings(a: GenericBalanceView, b: GenericBalanceView) -> bool {
    &&& a.native.to_multiset() =~= b.native.to_multiset()
    &&& a.cw20.to_multiset() =~= b.cw20.to_multiset()
    &&& a.nfts.to_multiset() =~= b.nfts.to_multiset()
}

/// How often an entry with the view of `x` occurs in `v`.
pub fn count_entry<T: Entry>(v: &Vec<T>, x: &T) -> (n: usize)
    ensures
        n == views(v@).to_multiset().count(x@),
{
    broadcast use vstd::seq_lib::group_to_multiset_ensures;
    broadcast use vstd::multiset::group_multiset_axioms;

    let ghost s = views(v@);
    let mut n: usize = 0;
    let mut i: usize = 0;
    assert(s.take(0) =~= Seq::<T::V>::empty());
    assert(s.take(0).to_multiset().count(x@) == 0) by {
        assert(s.take(0).to_multiset().len() == 0);
        if s.take(0).to_multiset().count(x@) > 0 {
            assert(s.take(0).contains(x@));
        }
    }
    while i < v.len()
        invariant
            i <= v.len(),
            s == views(v@),
            n <= i,
            n == s.take(i as int).to_multiset().count(x@),
        decreases v.len() - i,
    {
        proof {
            assert(s.take(i as int + 1) =~= s.take(i as int).push(s[i as int]));
            vstd::seq_lib::to_multiset_build(s.take(i as int), s[i as int]);
        }
        if v[i].same(x) {
            n += 1;
        }
        i += 1;
    }
    assert(s.take(i as int) =~= s);
    n
}

/// Whether every entry of `a` occurs in `b` as often as in `a`.
fn counts_agree<T: Entry>(a: &Vec<T>, b: &Vec<T>) -> (r: bool)
    ensures
        r == forall|i: int|
            0 <= i < a.len() ==> views(a@).to_multiset().count(#[trigger] views(a@)[i]) == views(
                b@,
            ).to_multiset().count(views(a@)[i]),
{
    let mut i: usize = 0;
    while i < a.len()
        invariant
            i <= a.len(),
            forall|j: int|
                0 <= j < i ==> views(a@).to_multiset().count(#[trigger] views(a@)[j]) == views(
                    b@,
                ).to_multiset().count(views(a@)[j]),
        decreases a.len() - i,
    {
        if count_entry(a, &a[i]) != count_entry(b, &a[i]) {
            assert(views(a@)[i as int] == a[i as int]@);
            return false;
        }
        assert(views(a@)[i as int] == a[i as int]@);
        i += 1;
    }
    true
}

/// Whether the two lists hold the same entries, each as often as the other.
pub fn same_multiset<T: Entry>(a: &Vec<T>, b: &Vec<T>) -> (r: bool)
    ensures
        r == (views(a@).to_multiset() =~= views(b@).to_multiset()),
{
    let forth = counts_agree(a, b);
    let back = counts_agree(b, a);
    proof {
        broadcast use vstd::seq_lib::group_to_multiset_ensures;
        broadcast use vstd::multiset::group_multiset_axioms;

        let ma = views(a@).to_multiset();
        let mb = views(b@).to_multiset();
        if forth && back {
            assert forall|x: T::V| ma.count(x) == mb.count(x) by {
                if views(a@).contains(x) {
                    let i = choose|i: int| 0 <= i < views(a@).len() && views(a@)[i] == x;
                    assert(ma.count(views(a@)[i]) == mb.count(views(a@)[i]));
                } else if views(b@).contains(x) {
                    let i = choose|i: int| 0 <= i < views(b@).len() && views(b@)[i] == x;
                    assert(mb.count(views(b@)[i]) == ma.count(views(b@)[i]));
                } else {
                    assert(ma.count(x) == 0);
                    assert(mb.count(x) == 0);
                }
            }
            assert(ma =~= mb);
        }
    }
    forth && back
}

impl PartialEq for GenericBalance {
    /// Ledgers are equal when they hold the same entries, whatever the order.
    fn eq(&self, other: &Self) -> (r: bool) {
        same_multiset(&self.native, &other.native) && same_multiset(&self.cw20, &other.cw20)
            && same_multiset(&self.nfts, &other.nfts)
    }
}

impl PartialEqSpecImpl for GenericBalance {
    open spec fn obeys_eq_spec() -> bool {
        true
    }

    open spec fn eq_spec(&self, other: &Self) -> bool {
        same_holdings(self@, other@)
    }
}

} // verus!
