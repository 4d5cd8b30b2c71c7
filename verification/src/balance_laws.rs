use crate::balance::{
    add_holding, add_holdings, add_nft_view, as_ledger, first_index, has_key, holds_something,
    is_empty_deposit, is_first, lemma_add_holdings_grows, lemma_first_index,
    lemma_has_key_first, merge_fits, merged, some_amount, unique_keys, well_formed, with_nft,
    BalanceView, GenericBalanceView,
};
use crate::balance_eq::same_holdings;
use crate::coin::{Holding, NftView};
use vstd::prelude::*;

verus! {

/// The amount that `s` holds under the key `k`: that of the first entry
/// with the key, and zero where there is none.
pub open spec fn amount_at(s: Seq<Holding>, k: Seq<char>) -> nat {
    if has_key(s, k) {
        s[first_index(s, k)].amount
    } else {
        0
    }
}

/// The sum of the amounts that the entries of `d` have under the key `k`.
pub open spec fn total(d: Seq<Holding>, k: Seq<char>) -> nat
    decreases d.len(),
{
    if d.len() == 0 {
        0
    } else {
        total(d.drop_last(), k) + if d.last().key == k {
            d.last().amount
        } else {
            0
        }
    }
}

/// What an entry counts towards the sum under the key `k`.
pub open spec fn share(h: Holding, k: Seq<char>) -> nat {
    if h.key == k {
        h.amount
    } else {
        0
    }
}

/// Replacing one entry changes the sum under a key by the difference of
/// what the two entries count towards it.
proof fn lemma_total_update(s: Seq<Holding>, i: int, x: Holding, k: Seq<char>)
    requires
        0 <= i < s.len(),
    ensures
        total(s.update(i, x), k) + share(s[i], k) == total(s, k) + share(x, k),
    decreases s.len(),
{
    let t = s.update(i, x);
    if i == s.len() - 1 {
        assert(t.drop_last() =~= s.drop_last());
    } else {
        assert(t.drop_last() =~= s.drop_last().update(i, x));
        assert(t.last() == s.last());
        lemma_total_update(s.drop_last(), i, x, k);
    }
}

/// An addition adds its amount to the sum under its key, and nothing to
/// the sum under any other key.
pub proof fn lemma_add_holding_conserves(s: Seq<Holding>, h: Holding, k: Seq<char>)
    ensures
        total(add_holding(s, h), k) == total(s, k) + share(h, k),
{
    if has_key(s, h.key) {
        lemma_has_key_first(s, h.key);
        let i = first_index(s, h.key);
        lemma_total_update(s, i, Holding { key: h.key, amount: s[i].amount + h.amount }, k);
    } else {
        assert(s.push(h).drop_last() =~= s);
    }
}

/// A run of additions adds to the sum under each key the sum of what was
/// added under it: a merge neither makes nor loses anything.
pub proof fn lemma_add_holdings_conserves(s: Seq<Holding>, d: Seq<Holding>, k: Seq<char>)
    ensures
        total(add_holdings(s, d), k) == total(s, k) + total(d, k),
    decreases d.len(),
{
    if d.len() > 0 {
        lemma_add_holdings_conserves(s, d.drop_last(), k);
        lemma_add_holding_conserves(add_holdings(s, d.drop_last()), d.last(), k);
    }
}

/// Among entries with unique keys, the sum under a key is the amount of
/// the entry with the key.
pub proof fn lemma_total_of_unique(s: Seq<Holding>, k: Seq<char>)
    requires
        unique_keys(s),
    ensures
        total(s, k) == amount_at(s, k),
    decreases s.len(),
{
    if s.len() > 0 {
        let p = s.drop_last();
        assert(unique_keys(p)) by {
            assert forall|a: int, b: int| 0 <= a < b < p.len() implies (#[trigger] p[a]).key != (
            #[trigger] p[b]).key by {
                assert(s[a].key != s[b].key);
            }
        }
        lemma_total_of_unique(p, k);
        lemma_has_key_last(s, k);
        if s.last().key == k {
            assert(!has_key(p, k)) by {
                if has_key(p, k) {
                    let j = choose|j: int| 0 <= j < p.len() && (#[trigger] p[j]).key == k;
                    assert(s[j].key != s[s.len() - 1].key);
                }
            }
            assert(is_first(s, k, s.len() - 1)) by {
                assert forall|m: int| 0 <= m < s.len() - 1 implies (#[trigger] s[m]).key != k by {
                    assert(s[m].key != s[s.len() - 1].key);
                }
            }
            lemma_first_index(s, k, s.len() - 1);
        } else if has_key(p, k) {
            lemma_has_key_first(p, k);
            let j = first_index(p, k);
            assert(is_first(s, k, j)) by {
                assert(s[j] == p[j]);
                assert forall|m: int| 0 <= m < j implies (#[trigger] s[m]).key != k by {
                    assert(s[m] == p[m]);
                }
            }
            lemma_first_index(s, k, j);
        }
    }
}

/// One addition to entries with unique keys: the keys stay unique, the
/// key of the addition is held afterwards, and only its amount grows.
pub proof fn lemma_add_holding(s: Seq<Holding>, h: Holding)
    requires
        unique_keys(s),
    ensures
        unique_keys(add_holding(s, h)),
        forall|k: Seq<char>| #[trigger]
            has_key(add_holding(s, h), k) <==> (has_key(s, k) || k == h.key),
        forall|k: Seq<char>| #[trigger]
            amount_at(add_holding(s, h), k) == amount_at(s, k) + if k == h.key {
                h.amount
            } else {
                0
            },
{
    let t = add_holding(s, h);
    if has_key(s, h.key) {
        lemma_has_key_first(s, h.key);
        let i = first_index(s, h.key);
        assert forall|j: int| 0 <= j < s.len() implies (#[trigger] t[j]).key == s[j].key by {}
        assert forall|k: Seq<char>| #[trigger]
            has_key(t, k) <==> (has_key(s, k) || k == h.key) by {
            if has_key(t, k) {
                let j = choose|j: int| 0 <= j < t.len() && (#[trigger] t[j]).key == k;
                assert(s[j].key == k);
            }
            if has_key(s, k) {
                let j = choose|j: int| 0 <= j < s.len() && (#[trigger] s[j]).key == k;
                assert(t[j].key == k);
            }
        }
        assert forall|k: Seq<char>| #[trigger]
            amount_at(t, k) == amount_at(s, k) + if k == h.key {
                h.amount
            } else {
                0
            } by {
            if has_key(s, k) {
                lemma_has_key_first(s, k);
                let j = first_index(s, k);
                assert(is_first(t, k, j)) by {
                    assert(t[j].key == s[j].key);
                    assert forall|m: int| 0 <= m < j implies (#[trigger] t[m]).key != k by {
                        assert(t[m].key == s[m].key);
                    }
                }
                lemma_first_index(t, k, j);
                if k == h.key {
                    assert(j == i);
                } else {
                    assert(j != i);
                }
            }
        }
    } else {
        let n = s.len() as int;
        assert forall|a: int, b: int| 0 <= a < b < t.len() implies (#[trigger] t[a]).key != (
        #[trigger] t[b]).key by {
            if b == n {
                assert(s[a].key != h.key);
            } else {
                assert(s[a].key != s[b].key);
            }
        }
        assert forall|k: Seq<char>| #[trigger]
            has_key(t, k) <==> (has_key(s, k) || k == h.key) by {
            if has_key(t, k) {
                let j = choose|j: int| 0 <= j < t.len() && (#[trigger] t[j]).key == k;
                if j < n {
                    assert(s[j].key == k);
                }
            }
            if has_key(s, k) {
                let j = choose|j: int| 0 <= j < s.len() && (#[trigger] s[j]).key == k;
                assert(t[j].key == k);
            }
            if k == h.key {
                assert(t[n].key == k);
            }
        }
        assert forall|k: Seq<char>| #[trigger]
            amount_at(t, k) == amount_at(s, k) + if k == h.key {
                h.amount
            } else {
                0
            } by {
            if has_key(s, k) {
                lemma_has_key_first(s, k);
                let j = first_index(s, k);
                assert(is_first(t, k, j)) by {
                    assert(t[j] == s[j]);
                    assert forall|m: int| 0 <= m < j implies (#[trigger] t[m]).key != k by {
                        assert(t[m] == s[m]);
                    }
                }
                lemma_first_index(t, k, j);
            } else if k == h.key {
                assert(is_first(t, k, n)) by {
                    assert forall|m: int| 0 <= m < n implies (#[trigger] t[m]).key != k by {
                        assert(t[m] == s[m]);
                    }
                }
                lemma_first_index(t, k, n);
            }
        }
    }
}

/// Whether the last entry or an earlier one has the key.
proof fn lemma_has_key_last(d: Seq<Holding>, k: Seq<char>)
    requires
        d.len() > 0,
    ensures
        has_key(d, k) <==> (has_key(d.drop_last(), k) || d.last().key == k),
{
    let p = d.drop_last();
    if has_key(d, k) {
        let j = choose|j: int| 0 <= j < d.len() && (#[trigger] d[j]).key == k;
        if j < p.len() {
            assert(p[j].key == k);
        }
    }
    if has_key(p, k) {
        let j = choose|j: int| 0 <= j < p.len() && (#[trigger] p[j]).key == k;
        assert(d[j].key == k);
    }
    if d.last().key == k {
        assert(d[d.len() - 1].key == k);
    }
}

/// A run of additions to entries with unique keys: the keys stay unique,
/// the keys held afterwards are those held before and those added, and
/// each amount grows by the sum of what was added under its key.
pub proof fn lemma_add_holdings(s: Seq<Holding>, d: Seq<Holding>)
    requires
        unique_keys(s),
    ensures
        unique_keys(add_holdings(s, d)),
        forall|k: Seq<char>| #[trigger]
            has_key(add_holdings(s, d), k) <==> (has_key(s, k) || has_key(d, k)),
        forall|k: Seq<char>| #[trigger]
            amount_at(add_holdings(s, d), k) == amount_at(s, k) + total(d, k),
    decreases d.len(),
{
    if d.len() == 0 {
        assert forall|k: Seq<char>| !has_key(d, k) by {}
    } else {
        let p = d.drop_last();
        lemma_add_holdings(s, p);
        let mid = add_holdings(s, p);
        lemma_add_holding(mid, d.last());
        assert forall|k: Seq<char>| #[trigger]
            has_key(add_holdings(s, d), k) <==> (has_key(s, k) || has_key(d, k)) by {
            lemma_has_key_last(d, k);
            assert(has_key(add_holding(mid, d.last()), k) <==> (has_key(mid, k) || k
                == d.last().key));
            assert(has_key(mid, k) <==> (has_key(s, k) || has_key(p, k)));
        }
        assert forall|k: Seq<char>| #[trigger]
            amount_at(add_holdings(s, d), k) == amount_at(s, k) + total(d, k) by {
            assert(amount_at(add_holding(mid, d.last()), k) == amount_at(mid, k) + if k
                == d.last().key {
                d.last().amount
            } else {
                0
            });
            assert(amount_at(mid, k) == amount_at(s, k) + total(p, k));
        }
    }
}

/// Among entries with unique keys an entry occurs once where its key is
/// held with its amount, and not at all otherwise.
proof fn lemma_count(s: Seq<Holding>, e: Holding)
    requires
        unique_keys(s),
    ensures
        s.to_multiset().count(e) == if has_key(s, e.key) && amount_at(s, e.key) == e.amount {
            1nat
        } else {
            0nat
        },
    decreases s.len(),
{
    broadcast use vstd::seq_lib::group_to_multiset_ensures;
    broadcast use vstd::multiset::group_multiset_axioms;

    if s.len() == 0 {
        assert(!s.contains(e));
    } else {
        let p = s.drop_last();
        let last = s.last();
        assert(s =~= p.push(last));
        vstd::seq_lib::to_multiset_build(p, last);
        assert(unique_keys(p)) by {
            assert forall|a: int, b: int| 0 <= a < b < p.len() implies (#[trigger] p[a]).key != (
            #[trigger] p[b]).key by {
                assert(s[a].key != s[b].key);
            }
        }
        lemma_count(p, e);
        lemma_has_key_last(s, e.key);
        if last.key == e.key {
            assert(!has_key(p, e.key)) by {
                if has_key(p, e.key) {
                    let j = choose|j: int| 0 <= j < p.len() && (#[trigger] p[j]).key == e.key;
                    assert(s[j].key != s[s.len() - 1].key);
                }
            }
            assert(is_first(s, e.key, s.len() - 1)) by {
                assert forall|m: int| 0 <= m < s.len() - 1 implies (#[trigger] s[m]).key
                    != e.key by {
                    assert(s[m].key != s[s.len() - 1].key);
                }
            }
            lemma_first_index(s, e.key, s.len() - 1);
        } else {
            if has_key(p, e.key) {
                lemma_has_key_first(p, e.key);
                let j = first_index(p, e.key);
                assert(is_first(s, e.key, j)) by {
                    assert(s[j] == p[j]);
                    assert forall|m: int| 0 <= m < j implies (#[trigger] s[m]).key != e.key by {
                        assert(s[m] == p[m]);
                    }
                }
                lemma_first_index(s, e.key, j);
            }
        }
    }
}

/// Entries with unique keys that hold the same keys with the same amounts
/// are the same entries, whatever their order.
pub proof fn lemma_same_amounts(x: Seq<Holding>, y: Seq<Holding>)
    requires
        unique_keys(x),
        unique_keys(y),
        forall|k: Seq<char>| #[trigger] has_key(x, k) <==> has_key(y, k),
        forall|k: Seq<char>| #[trigger] amount_at(x, k) == amount_at(y, k),
    ensures
        x.to_multiset() =~= y.to_multiset(),
{
    assert forall|e: Holding| x.to_multiset().count(e) == y.to_multiset().count(e) by {
        lemma_count(x, e);
        lemma_count(y, e);
        assert(has_key(x, e.key) <==> has_key(y, e.key));
        assert(amount_at(x, e.key) == amount_at(y, e.key));
    }
}

/// Two runs of additions give the same entries in either order.
pub proof fn lemma_additions_commute(s: Seq<Holding>, a: Seq<Holding>, b: Seq<Holding>)
    requires
        unique_keys(s),
    ensures
        add_holdings(add_holdings(s, a), b).to_multiset() =~= add_holdings(
            add_holdings(s, b),
            a,
        ).to_multiset(),
{
    let sa = add_holdings(s, a);
    let sb = add_holdings(s, b);
    let x = add_holdings(sa, b);
    let y = add_holdings(sb, a);
    lemma_add_holdings(s, a);
    lemma_add_holdings(s, b);
    lemma_add_holdings(sa, b);
    lemma_add_holdings(sb, a);
    assert forall|k: Seq<char>| #[trigger] has_key(x, k) <==> has_key(y, k) by {
        assert(has_key(x, k) <==> (has_key(sa, k) || has_key(b, k)));
        assert(has_key(y, k) <==> (has_key(sb, k) || has_key(a, k)));
        assert(has_key(sa, k) <==> (has_key(s, k) || has_key(a, k)));
        assert(has_key(sb, k) <==> (has_key(s, k) || has_key(b, k)));
    }
    assert forall|k: Seq<char>| #[trigger] amount_at(x, k) == amount_at(y, k) by {
        assert(amount_at(x, k) == amount_at(sa, k) + total(b, k));
        assert(amount_at(y, k) == amount_at(sb, k) + total(a, k));
        assert(amount_at(sa, k) == amount_at(s, k) + total(a, k));
        assert(amount_at(sb, k) == amount_at(s, k) + total(b, k));
    }
    lemma_same_amounts(x, y);
}

/// Adding one run of entries and then another is adding the two runs as one.
pub proof fn lemma_additions_associate(s: Seq<Holding>, a: Seq<Holding>, b: Seq<Holding>)
    ensures
        add_holdings(add_holdings(s, a), b) == add_holdings(s, a + b),
    decreases b.len(),
{
    if b.len() == 0 {
        assert(a + b =~= a);
    } else {
        lemma_additions_associate(s, a, b.drop_last());
        assert((a + b).drop_last() =~= a + b.drop_last());
        assert((a + b).last() == b.last());
    }
}

/// The entries of a deposit, as a run of additions to one kind of asset.
pub open spec fn native_part(d: BalanceView) -> Seq<Holding> {
    match d {
        BalanceView::Native(coins) => coins,
        BalanceView::Cw20(_) => Seq::empty(),
    }
}

/// The entries of a deposit, as a run of additions to one kind of asset.
pub open spec fn cw20_part(d: BalanceView) -> Seq<Holding> {
    match d {
        BalanceView::Native(_) => Seq::empty(),
        BalanceView::Cw20(token) => seq![token],
    }
}

/// A merge adds the deposit's native entries to the native entries and its
/// token to the tokens.
proof fn lemma_merged_parts(l: GenericBalanceView, d: BalanceView)
    ensures
        merged(l, d).native == add_holdings(l.native, native_part(d)),
        merged(l, d).cw20 == add_holdings(l.cw20, cw20_part(d)),
        merged(l, d).nfts == l.nfts,
{
    match d {
        BalanceView::Native(coins) => {},
        BalanceView::Cw20(token) => {
            let one = seq![token];
            assert(one.drop_last() =~= Seq::<Holding>::empty());
            assert(one.last() == token);
            assert(add_holdings(l.cw20, one.drop_last()) == l.cw20);
        },
    }
}

/// Merging the deposit that holds nothing leaves a ledger as it is.
pub proof fn lemma_merge_zero(l: GenericBalanceView)
    ensures
        merged(l, BalanceView::Native(Seq::empty())) == l,
{
}

/// A merge keeps a ledger in good order, and so does a token put into it.
pub proof fn lemma_merge_well_formed(l: GenericBalanceView, d: BalanceView, n: NftView)
    requires
        well_formed(l),
    ensures
        well_formed(merged(l, d)),
        well_formed(with_nft(l, n)),
{
    lemma_merged_parts(l, d);
    lemma_add_holdings(l.native, native_part(d));
    lemma_add_holdings(l.cw20, cw20_part(d));
}

/// Whether the entries of a deposit have unique keys.
pub open spec fn deposit_well_formed(d: BalanceView) -> bool {
    unique_keys(native_part(d))
}

/// A deposit with unique keys that carries something becomes a ledger in
/// good order that holds something.
pub proof fn lemma_deposit_as_ledger(d: BalanceView)
    requires
        !is_empty_deposit(d),
    ensures
        holds_something(as_ledger(d)),
        deposit_well_formed(d) ==> well_formed(as_ledger(d)),
{
    match d {
        BalanceView::Native(coins) => {
            let i = choose|i: int| 0 <= i < coins.len() && (#[trigger] coins[i]).amount != 0;
            assert(coins[i].amount > 0);
        },
        BalanceView::Cw20(token) => {
            assert(seq![token][0].amount > 0);
        },
    }
}

/// A ledger that holds something still does after a merge, and after a
/// token was put into it.
pub proof fn lemma_merge_holds_something(l: GenericBalanceView, d: BalanceView, n: NftView)
    requires
        holds_something(l),
    ensures
        holds_something(merged(l, d)),
        holds_something(with_nft(l, n)),
{
    lemma_merged_parts(l, d);
    lemma_add_holdings_grows(l.native, native_part(d));
    lemma_add_holdings_grows(l.cw20, cw20_part(d));
    if some_amount(l.native) {
        let i = choose|i: int| 0 <= i < l.native.len() && (#[trigger] l.native[i]).amount > 0;
        assert(merged(l, d).native[i].amount > 0);
    }
    if some_amount(l.cw20) {
        let i = choose|i: int| 0 <= i < l.cw20.len() && (#[trigger] l.cw20[i]).amount > 0;
        assert(merged(l, d).cw20[i].amount > 0);
    }
}

/// A merge conserves every amount: under each key the merged ledger holds
/// the sum of what the ledger held and what the deposit brought.
pub proof fn lemma_merge_conserves(l: GenericBalanceView, d: BalanceView, k: Seq<char>)
    ensures
        total(merged(l, d).native, k) == total(l.native, k) + total(native_part(d), k),
        total(merged(l, d).cw20, k) == total(l.cw20, k) + total(cw20_part(d), k),
        merged(l, d).nfts == l.nfts,
{
    lemma_merged_parts(l, d);
    lemma_add_holdings_conserves(l.native, native_part(d), k);
    lemma_add_holdings_conserves(l.cw20, cw20_part(d), k);
}

/// No entry holds more than the sum under its key.
proof fn lemma_amount_within_total(s: Seq<Holding>, i: int)
    requires
        0 <= i < s.len(),
    ensures
        s[i].amount <= total(s, s[i].key),
    decreases s.len(),
{
    if i < s.len() - 1 {
        assert(s.drop_last()[i] == s[i]);
        lemma_amount_within_total(s.drop_last(), i);
    }
}

/// A merge fits where, under every key, what the ledger holds and what the
/// deposit brings sum to an amount that a `u128` can hold.
pub proof fn lemma_merge_fits_by_totals(l: GenericBalanceView, d: BalanceView)
    requires
        forall|k: Seq<char>| #[trigger]
            total(l.native, k) + total(native_part(d), k) <= u128::MAX,
        forall|k: Seq<char>| #[trigger] total(l.cw20, k) + total(cw20_part(d), k) <= u128::MAX,
    ensures
        merge_fits(l, d),
{
    let m = merged(l, d);
    assert forall|i: int| 0 <= i < m.native.len() implies (#[trigger] m.native[i]).amount
        <= u128::MAX by {
        let k = m.native[i].key;
        lemma_amount_within_total(m.native, i);
        lemma_merge_conserves(l, d, k);
        assert(total(l.native, k) + total(native_part(d), k) <= u128::MAX);
    }
    assert forall|i: int| 0 <= i < m.cw20.len() implies (#[trigger] m.cw20[i]).amount
        <= u128::MAX by {
        let k = m.cw20[i].key;
        lemma_amount_within_total(m.cw20, i);
        lemma_merge_conserves(l, d, k);
        assert(total(l.cw20, k) + total(cw20_part(d), k) <= u128::MAX);
    }
}

/// The order of two merges does not matter: a ledger in good order that
/// takes two deposits holds the same entries whichever came first.
pub proof fn lemma_merge_order(l: GenericBalanceView, a: BalanceView, b: BalanceView)
    requires
        well_formed(l),
    ensures
        same_holdings(merged(merged(l, a), b), merged(merged(l, b), a)),
{
    lemma_merged_parts(l, a);
    lemma_merged_parts(l, b);
    lemma_merged_parts(merged(l, a), b);
    lemma_merged_parts(merged(l, b), a);
    lemma_additions_commute(l.native, native_part(a), native_part(b));
    lemma_additions_commute(l.cw20, cw20_part(a), cw20_part(b));
}

/// Two merges of native coins are one merge of the two lists of coins, one
/// after the other.
pub proof fn lemma_merge_associates(l: GenericBalanceView, a: Seq<Holding>, b: Seq<Holding>)
    ensures
        merged(merged(l, BalanceView::Native(a)), BalanceView::Native(b)) == merged(
            l,
            BalanceView::Native(a + b),
        ),
{
    lemma_additions_associate(l.native, a, b);
}

/// The order in which two tokens are put into a ledger does not matter.
pub proof fn lemma_nft_order(l: GenericBalanceView, a: NftView, b: NftView)
    ensures
        same_holdings(with_nft(with_nft(l, a), b), with_nft(with_nft(l, b), a)),
{
    broadcast use vstd::seq_lib::group_to_multiset_ensures;
    broadcast use vstd::multiset::group_multiset_axioms;

    let s = l.nfts;
    let x = add_nft_view(add_nft_view(s, a), b);
    let y = add_nft_view(add_nft_view(s, b), a);
    if a == b {
    } else if s.contains(a) && s.contains(b) {
    } else if s.contains(a) {
        let i = choose|i: int| 0 <= i < s.len() && s[i] == a;
        assert(s.push(b)[i] == a);
        assert(s.push(b).contains(a));
    } else if s.contains(b) {
        let i = choose|i: int| 0 <= i < s.len() && s[i] == b;
        assert(s.push(a)[i] == b);
        assert(s.push(a).contains(b));
    } else {
        assert(!s.push(a).contains(b)) by {
            if s.push(a).contains(b) {
                let i = choose|i: int| 0 <= i < s.push(a).len() && s.push(a)[i] == b;
                if i < s.len() {
                    assert(s[i] == b);
                }
            }
        }
        assert(!s.push(b).contains(a)) by {
            if s.push(b).contains(a) {
                let i = choose|i: int| 0 <= i < s.push(b).len() && s.push(b)[i] == a;
                if i < s.len() {
                    assert(s[i] == a);
                }
            }
        }
        vstd::seq_lib::to_multiset_build(s, a);
        vstd::seq_lib::to_multiset_build(s, b);
        vstd::seq_lib::to_multiset_build(s.push(a), b);
        vstd::seq_lib::to_multiset_build(s.push(b), a);
        assert(x.to_multiset() =~= y.to_multiset());
    }
}

/// A merge and a token put into the ledger do not get in each other's way.
pub proof fn lemma_merge_nft_order(l: GenericBalanceView, d: BalanceView, n: NftView)
    ensures
        with_nft(merged(l, d), n) == merged(with_nft(l, n), d),
{
}

} // verus!
