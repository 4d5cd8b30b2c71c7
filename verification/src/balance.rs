use crate::coin::{
    copy_entries, same_entries, views, Coin, Cw20CoinVerified, Entry, Holding, Nft, NftView,
};
use vstd::prelude::*;

verus! {

/// A fungible entry: its view is a `Holding`, and its key and amount can be read.
pub trait Fungible: Entry + View<V = Holding> {
    fn same_key(&self, other: &Self) -> (r: bool)
        ensures
            r == (self@.key == other@.key),
    ;

    fn amount(&self) -> (r: u128)
        ensures
            r == self@.amount,
    ;

    fn with_amount(&self, amount: u128) -> (r: Self)
        ensures
            r@ == (Holding { key: self@.key, amount: amount as nat }),
    ;

    /// The amount of an entry is one that a `u128` can hold.
    proof fn lemma_bounded(&self)
        ensures
            self@.amount <= u128::MAX,
    ;
}

impl Fungible for Coin {
    fn same_key(&self, other: &Self) -> (r: bool) {
        self.denom == other.denom
    }

    fn amount(&self) -> (r: u128) {
        self.amount
    }

    fn with_amount(&self, amount: u128) -> (r: Self) {
        Coin { denom: self.denom.clone(), amount }
    }

    proof fn lemma_bounded(&self) {
    }
}

impl Fungible for Cw20CoinVerified {
    fn same_key(&self, other: &Self) -> (r: bool) {
        self.address.same(&other.address)
    }

    fn amount(&self) -> (r: u128) {
        self.amount
    }

    fn with_amount(&self, amount: u128) -> (r: Self) {
        Cw20CoinVerified { address: self.address.clone(), amount }
    }

    proof fn lemma_bounded(&self) {
    }
}

/// Whether some entry of `s` has the key `k`.
pub open spec fn has_key(s: Seq<Holding>, k: Seq<char>) -> bool {
    exists|i: int| 0 <= i < s.len() && (#[trigger] s[i]).key == k
}

/// Whether `i` is the place of the first entry of `s` with the key `k`.
pub open spec fn is_first(s: Seq<Holding>, k: Seq<char>, i: int) -> bool {
    &&& 0 <= i < s.len()
    &&& s[i].key == k
    &&& forall|j: int| 0 <= j < i ==> (#[trigger] s[j]).key != k
}

/// The place of the first entry of `s` with the key `k`, where there is one.
pub open spec fn first_index(s: Seq<Holding>, k: Seq<char>) -> int {
    choose|i: int| is_first(s, k, i)
}

/// No two entries of `s` have the same key.
pub open spec fn unique_keys(s: Seq<Holding>) -> bool {
    forall|i: int, j: int| 0 <= i < j < s.len() ==> (#[trigger] s[i]).key != (#[trigger] s[j]).key
}

/// `s` after `h` was added: the first entry with `h`'s key grows by `h`'s
/// amount; where there is none, `h` becomes the last entry.
pub open spec fn add_holding(s: Seq<Holding>, h: Holding) -> Seq<Holding> {
    if has_key(s, h.key) {
        let i = first_index(s, h.key);
        s.update(i, Holding { key: h.key, amount: s[i].amount + h.amount })
    } else {
        s.push(h)
    }
}

/// `s` after the entries of `d` were added one by one, first to last.
pub open spec fn add_holdings(s: Seq<Holding>, d: Seq<Holding>) -> Seq<Holding>
    decreases d.len(),
{
    if d.len() == 0 {
        s
    } else {
        add_holding(add_holdings(s, d.drop_last()), d.last())
    }
}

/// Whether adding `h` to `s` gives an amount that a `u128` can hold.
pub open spec fn add_fits(s: Seq<Holding>, h: Holding) -> bool {
    has_key(s, h.key) ==> s[first_index(s, h.key)].amount + h.amount <= u128::MAX
}

/// Whether every addition of `add_holdings(s, d)` gives an amount that a
/// `u128` can hold.
pub open spec fn adds_fit(s: Seq<Holding>, d: Seq<Holding>) -> bool
    decreases d.len(),
{
    d.len() == 0 || (adds_fit(s, d.drop_last()) && add_fits(
        add_holdings(s, d.drop_last()),
        d.last(),
    ))
}

/// Whether every amount of `s` is one that a `u128` can hold.
pub open spec fn representable(s: Seq<Holding>) -> bool {
    forall|i: int| 0 <= i < s.len() ==> (#[trigger] s[i]).amount <= u128::MAX
}

/// The entries of a list are representable.
pub proof fn lemma_entries_representable<T: Fungible>(v: Seq<T>)
    ensures
        representable(views(v)),
{
    assert forall|i: int| 0 <= i < views(v).len() implies (#[trigger] views(v)[i]).amount
        <= u128::MAX by {
        assert(views(v)[i] == v[i]@);
        v[i].lemma_bounded();
    }
}

/// `s` with `n` in it: unchanged where `n` is already there.
pub open spec fn add_nft_view(s: Seq<NftView>, n: NftView) -> Seq<NftView> {
    if s.contains(n) {
        s
    } else {
        s.push(n)
    }
}

/// The first place with a key is the only place that `is_first` accepts.
pub proof fn lemma_first_index(s: Seq<Holding>, k: Seq<char>, i: int)
    requires
        is_first(s, k, i),
    ensures
        has_key(s, k),
        first_index(s, k) == i,
{
    let c = first_index(s, k);
    assert(is_first(s, k, c));
    if c < i {
        assert(s[c].key != k);
    }
    if i < c {
        assert(s[i].key != k);
    }
}

/// A key that occurs has a first place.
pub proof fn lemma_has_key_first(s: Seq<Holding>, k: Seq<char>)
    requires
        has_key(s, k),
    ensures
        is_first(s, k, first_index(s, k)),
{
    let w = choose|i: int| 0 <= i < s.len() && (#[trigger] s[i]).key == k;
    lemma_least_index(s, k, w);
}

proof fn lemma_least_index(s: Seq<Holding>, k: Seq<char>, w: int)
    requires
        0 <= w < s.len(),
        s[w].key == k,
    ensures
        exists|i: int| is_first(s, k, i),
    decreases w,
{
    if exists|j: int| 0 <= j < w && (#[trigger] s[j]).key == k {
        let j = choose|j: int| 0 <= j < w && (#[trigger] s[j]).key == k;
        lemma_least_index(s, k, j);
    } else {
        assert(is_first(s, k, w));
    }
}

/// The place of the first entry of `v` with the key of `e`.
pub fn find_entry<T: Fungible>(v: &Vec<T>, e: &T) -> (r: Option<usize>)
    ensures
        match r {
            Some(i) => is_first(views(v@), e@.key, i as int),
            None => !has_key(views(v@), e@.key),
        },
{
    let mut i: usize = 0;
    while i < v.len()
        invariant
            i <= v.len(),
            forall|j: int| 0 <= j < i ==> (#[trigger] views(v@)[j]).key != e@.key,
        decreases v.len() - i,
    {
        if v[i].same_key(e) {
            return Some(i);
        }
        i += 1;
    }
    None
}

/// Adds `e` to `v` where the sum fits; tells whether it did.
pub fn add_entry<T: Fungible>(v: &mut Vec<T>, e: T) -> (ok: bool)
    ensures
        ok == add_fits(views(old(v)@), e@),
        ok ==> views(final(v)@) == add_holding(views(old(v)@), e@),
        !ok ==> views(final(v)@) == views(old(v)@),
{
    let found = find_entry(v, &e);
    match found {
        Some(i) => {
            proof {
                lemma_first_index(views(v@), e@.key, i as int);
            }
            match v[i].amount().checked_add(e.amount()) {
                Some(sum) => {
                    let grown = e.with_amount(sum);
                    v[i] = grown;
                    assert(views(v@) =~= add_holding(views(old(v)@), e@));
                    true
                },
                None => false,
            }
        },
        None => {
            v.push(e);
            assert(views(v@) =~= add_holding(views(old(v)@), e@));
            true
        },
    }
}

/// An addition keeps every entry in its place and lets no amount shrink.
pub proof fn lemma_add_holding_grows(s: Seq<Holding>, h: Holding)
    ensures
        add_holding(s, h).len() >= s.len(),
        forall|i: int|
            0 <= i < s.len() ==> (#[trigger] add_holding(s, h)[i]).amount >= s[i].amount,
{
    if has_key(s, h.key) {
        lemma_has_key_first(s, h.key);
    }
}

/// A run of additions keeps every entry in its place and lets no amount shrink.
pub proof fn lemma_add_holdings_grows(s: Seq<Holding>, d: Seq<Holding>)
    ensures
        add_holdings(s, d).len() >= s.len(),
        forall|i: int|
            0 <= i < s.len() ==> (#[trigger] add_holdings(s, d)[i]).amount >= s[i].amount,
    decreases d.len(),
{
    if d.len() > 0 {
        let mid = add_holdings(s, d.drop_last());
        lemma_add_holdings_grows(s, d.drop_last());
        lemma_add_holding_grows(mid, d.last());
        assert forall|i: int| 0 <= i < s.len() implies (#[trigger] add_holdings(s, d)[i]).amount
            >= s[i].amount by {
            assert(add_holding(mid, d.last())[i].amount >= mid[i].amount);
            assert(mid[i].amount >= s[i].amount);
        }
    }
}

/// One addition to representable entries fits exactly where its result is
/// representable.
proof fn lemma_add_fits(s: Seq<Holding>, h: Holding)
    requires
        representable(s),
        h.amount <= u128::MAX,
    ensures
        add_fits(s, h) <==> representable(add_holding(s, h)),
{
    let t = add_holding(s, h);
    if has_key(s, h.key) {
        lemma_has_key_first(s, h.key);
        let i = first_index(s, h.key);
        if representable(t) {
            assert(t[i].amount <= u128::MAX);
        }
        if add_fits(s, h) {
            assert forall|j: int| 0 <= j < t.len() implies (#[trigger] t[j]).amount
                <= u128::MAX by {
                if j != i {
                    assert(t[j] == s[j]);
                }
            }
        }
    } else {
        assert forall|j: int| 0 <= j < t.len() implies (#[trigger] t[j]).amount <= u128::MAX by {
            if j < s.len() {
                assert(t[j] == s[j]);
            }
        }
    }
}

/// A run of additions of representable entries to representable entries
/// fits exactly where its result is representable.
proof fn lemma_adds_fit(s: Seq<Holding>, d: Seq<Holding>)
    requires
        representable(s),
        representable(d),
    ensures
        adds_fit(s, d) <==> representable(add_holdings(s, d)),
    decreases d.len(),
{
    if d.len() > 0 {
        let p = d.drop_last();
        let mid = add_holdings(s, p);
        assert(representable(p)) by {
            assert forall|i: int| 0 <= i < p.len() implies (#[trigger] p[i]).amount
                <= u128::MAX by {
                assert(p[i] == d[i]);
            }
        }
        assert(d.last() == d[d.len() - 1]);
        lemma_adds_fit(s, p);
        lemma_add_holding_grows(mid, d.last());
        if representable(add_holdings(s, d)) {
            let fin = add_holding(mid, d.last());
            assert forall|i: int| 0 <= i < mid.len() implies (#[trigger] mid[i]).amount
                <= u128::MAX by {
                assert(fin[i].amount >= mid[i].amount);
            }
        }
        if representable(mid) {
            lemma_add_fits(mid, d.last());
        }
    }
}

/// A prefix of additions that fit is itself a run of additions that fit.
proof fn lemma_adds_fit_prefix(s: Seq<Holding>, d: Seq<Holding>, n: int)
    requires
        0 <= n <= d.len(),
        adds_fit(s, d),
    ensures
        adds_fit(s, d.take(n)),
    decreases d.len(),
{
    if n == d.len() {
        assert(d.take(n) =~= d);
    } else {
        assert(d.drop_last().take(n) =~= d.take(n));
        lemma_adds_fit_prefix(s, d.drop_last(), n);
    }
}

/// Adds the entries of `d` to `v` one by one where every sum fits; tells
/// whether they all did. Where one did not, `v` is left part-way.
fn add_entries<T: Fungible>(v: &mut Vec<T>, d: &Vec<T>) -> (ok: bool)
    ensures
        ok == adds_fit(views(old(v)@), views(d@)),
        ok ==> views(final(v)@) == add_holdings(views(old(v)@), views(d@)),
{
    let ghost s0 = views(v@);
    let ghost dv = views(d@);
    let mut i: usize = 0;
    assert(dv.take(0) =~= Seq::<Holding>::empty());
    while i < d.len()
        invariant
            i <= d.len(),
            dv == views(d@),
            s0 == views(old(v)@),
            adds_fit(s0, dv.take(i as int)),
            views(v@) == add_holdings(s0, dv.take(i as int)),
        decreases d.len() - i,
    {
        let ghost before = views(v@);
        let next = d[i].copy();
        let ok = add_entry(v, next);
        proof {
            let pre = dv.take(i as int + 1);
            assert(pre.drop_last() =~= dv.take(i as int));
            assert(pre.last() == dv[i as int]);
            assert(adds_fit(s0, pre) == ok);
            if !ok {
                if adds_fit(s0, dv) {
                    lemma_adds_fit_prefix(s0, dv, i as int + 1);
                }
            }
        }
        if !ok {
            return false;
        }
        i += 1;
    }
    assert(dv.take(i as int) =~= dv);
    true
}

/// A bundle of assets: native amounts, fungible-token amounts and
/// non-fungible tokens.
#[derive(Debug)]
pub struct GenericBalance {
    pub native: Vec<Coin>,
    pub cw20: Vec<Cw20CoinVerified>,
    pub nfts: Vec<Nft>,
}

/// What a `GenericBalance` holds, entry by entry and in order.
pub struct GenericBalanceView {
    pub native: Seq<Holding>,
    pub cw20: Seq<Holding>,
    pub nfts: Seq<NftView>,
}

/// Assets as they arrive with a request: native coins, or an amount of one
/// fungible token.
#[derive(Debug, PartialEq, Eq)]
pub enum Balance {
    Native(Vec<Coin>),
    Cw20(Cw20CoinVerified),
}

/// What a `Balance` holds.
pub enum BalanceView {
    Native(Seq<Holding>),
    Cw20(Holding),
}

impl View for GenericBalance {
    type V = GenericBalanceView;

    open spec fn view(&self) -> GenericBalanceView {
        GenericBalanceView {
            native: views(self.native@),
            cw20: views(self.cw20@),
            nfts: views(self.nfts@),
        }
    }
}

impl View for Balance {
    type V = BalanceView;

    open spec fn view(&self) -> BalanceView {
        match self {
            Balance::Native(coins) => BalanceView::Native(views(coins@)),
            Balance::Cw20(token) => BalanceView::Cw20(token@),
        }
    }
}

/// Whether `l` is a ledger in good order: no key twice among the native
/// entries, none twice among the fungible tokens, and no token twice.
pub open spec fn well_formed(l: GenericBalanceView) -> bool {
    &&& unique_keys(l.native)
    &&& unique_keys(l.cw20)
    &&& l.nfts.no_duplicates()
}

/// Whether some entry of `s` has an amount that is not zero.
pub open spec fn some_amount(s: Seq<Holding>) -> bool {
    exists|i: int| 0 <= i < s.len() && (#[trigger] s[i]).amount > 0
}

/// Whether the ledger `l` holds something: an amount that is not zero, or a token.
pub open spec fn holds_something(l: GenericBalanceView) -> bool {
    some_amount(l.native) || some_amount(l.cw20) || l.nfts.len() > 0
}

/// The ledger that holds nothing.
pub open spec fn empty_ledger() -> GenericBalanceView {
    GenericBalanceView { native: Seq::empty(), cw20: Seq::empty(), nfts: Seq::empty() }
}

/// Whether every entry of `s` has the amount zero.
pub open spec fn all_amounts_zero(s: Seq<Holding>) -> bool {
    forall|i: int| 0 <= i < s.len() ==> (#[trigger] s[i]).amount == 0
}

/// Whether a deposit carries nothing: every amount in it is zero.
pub open spec fn is_empty_deposit(b: BalanceView) -> bool {
    match b {
        BalanceView::Native(coins) => all_amounts_zero(coins),
        BalanceView::Cw20(token) => token.amount == 0,
    }
}

/// The ledger that a deposit becomes when nothing was held before: the
/// deposit's entries as they came.
pub open spec fn as_ledger(b: BalanceView) -> GenericBalanceView {
    match b {
        BalanceView::Native(coins) => GenericBalanceView {
            native: coins,
            cw20: Seq::empty(),
            nfts: Seq::empty(),
        },
        BalanceView::Cw20(token) => GenericBalanceView {
            native: Seq::empty(),
            cw20: seq![token],
            nfts: Seq::empty(),
        },
    }
}

/// The ledger `l` after the deposit `b` was merged into it.
pub open spec fn merged(l: GenericBalanceView, b: BalanceView) -> GenericBalanceView {
    match b {
        BalanceView::Native(coins) => GenericBalanceView {
            native: add_holdings(l.native, coins),
            ..l
        },
        BalanceView::Cw20(token) => GenericBalanceView { cw20: add_holding(l.cw20, token), ..l },
    }
}

/// Whether every amount of `l` is one that a `u128` can hold.
pub open spec fn ledger_representable(l: GenericBalanceView) -> bool {
    representable(l.native) && representable(l.cw20)
}

/// Whether every amount of `merged(l, b)` is one that a `u128` can hold.
pub open spec fn merge_fits(l: GenericBalanceView, b: BalanceView) -> bool {
    ledger_representable(merged(l, b))
}

/// The ledger `l` with the token `n` in it.
pub open spec fn with_nft(l: GenericBalanceView, n: NftView) -> GenericBalanceView {
    GenericBalanceView { nfts: add_nft_view(l.nfts, n), ..l }
}

/// Whether every coin of the list has the amount zero.
pub fn all_zero(coins: &Vec<Coin>) -> (r: bool)
    ensures
        r == all_amounts_zero(views(coins@)),
{
    let mut i: usize = 0;
    while i < coins.len()
        invariant
            i <= coins.len(),
            forall|j: int| 0 <= j < i ==> (#[trigger] views(coins@)[j]).amount == 0,
        decreases coins.len() - i,
    {
        if coins[i].amount != 0 {
            assert(views(coins@)[i as int].amount != 0);
            return false;
        }
        i += 1;
    }
    true
}

impl Clone for Balance {
    fn clone(&self) -> (r: Self)
        ensures
            r@ == self@,
    {
        match self {
            Balance::Native(coins) => Balance::Native(copy_entries(coins)),
            Balance::Cw20(token) => Balance::Cw20(token.copy()),
        }
    }
}

impl Balance {
    /// Whether the deposit carries nothing.
    pub fn is_empty(&self) -> (r: bool)
        ensures
            r == is_empty_deposit(self@),
    {
        match self {
            Balance::Native(coins) => all_zero(coins),
            Balance::Cw20(token) => token.amount == 0,
        }
    }

    /// The ledger that holds this deposit and nothing else.
    pub fn to_generic(&self) -> (r: GenericBalance)
        ensures
            r@ == as_ledger(self@),
    {
        match self {
            Balance::Native(coins) => {
                let r = GenericBalance {
                    native: copy_entries(coins),
                    cw20: Vec::new(),
                    nfts: Vec::new(),
                };
                assert(r@.cw20 =~= Seq::<Holding>::empty());
                assert(r@.nfts =~= Seq::<NftView>::empty());
                r
            },
            Balance::Cw20(token) => {
                let mut cw20: Vec<Cw20CoinVerified> = Vec::new();
                cw20.push(token.copy());
                assert(views(cw20@) =~= seq![token@]);
                let r = GenericBalance { native: Vec::new(), cw20, nfts: Vec::new() };
                assert(r@.native =~= Seq::<Holding>::empty());
                assert(r@.nfts =~= Seq::<NftView>::empty());
                r
            },
        }
    }
}

/// The ledger that holds the one token `nft`.
pub fn genbal_from_nft(nft: Nft) -> (r: GenericBalance)
    ensures
        r@ == with_nft(empty_ledger(), nft@),
{
    let mut nfts: Vec<Nft> = Vec::new();
    let ghost n = nft@;
    nfts.push(nft);
    assert(views(nfts@) =~= add_nft_view(Seq::empty(), n));
    let r = GenericBalance { native: Vec::new(), cw20: Vec::new(), nfts };
    assert(r@.native =~= Seq::<Holding>::empty());
    assert(r@.cw20 =~= Seq::<Holding>::empty());
    r
}

impl Clone for GenericBalance {
    fn clone(&self) -> (r: Self)
        ensures
            r@ == self@,
    {
        GenericBalance {
            native: copy_entries(&self.native),
            cw20: copy_entries(&self.cw20),
            nfts: copy_entries(&self.nfts),
        }
    }
}

/// A merge into a ledger fits exactly where each of its additions does.
proof fn lemma_merge_fits(l: GenericBalance, b: Balance)
    ensures
        merge_fits(l@, b@) <==> match b@ {
            BalanceView::Native(coins) => adds_fit(l@.native, coins),
            BalanceView::Cw20(token) => add_fits(l@.cw20, token),
        },
{
    lemma_entries_representable(l.native@);
    lemma_entries_representable(l.cw20@);
    match b {
        Balance::Native(coins) => {
            lemma_entries_representable(coins@);
            lemma_adds_fit(l@.native, views(coins@));
        },
        Balance::Cw20(token) => {
            token.lemma_bounded();
            lemma_add_fits(l@.cw20, token@);
        },
    }
}

impl GenericBalance {
    /// The ledger that holds nothing.
    pub fn new() -> (r: GenericBalance)
        ensures
            r@ == empty_ledger(),
    {
        let r = GenericBalance { native: Vec::new(), cw20: Vec::new(), nfts: Vec::new() };
        assert(r@.native =~= Seq::<Holding>::empty());
        assert(r@.cw20 =~= Seq::<Holding>::empty());
        assert(r@.nfts =~= Seq::<NftView>::empty());
        r
    }

    /// Whether the two ledgers hold the same entries in the same order.
    pub fn same(&self, other: &GenericBalance) -> (r: bool)
        ensures
            r == (self@ == other@),
    {
        same_entries(&self.native, &other.native) && same_entries(&self.cw20, &other.cw20)
            && same_entries(&self.nfts, &other.nfts)
    }

    /// Whether `add` can be merged into this ledger within `u128`.
    pub fn can_add_tokens(&self, add: &Balance) -> (r: bool)
        ensures
            r == merge_fits(self@, add@),
    {
        proof {
            lemma_merge_fits(*self, *add);
        }
        match add {
            Balance::Native(coins) => {
                let mut scratch = copy_entries(&self.native);
                add_entries(&mut scratch, coins)
            },
            Balance::Cw20(token) => {
                let mut scratch = copy_entries(&self.cw20);
                add_entry(&mut scratch, token.copy())
            },
        }
    }

    /// Merges a deposit into the ledger: each entry is added to the entry
    /// with its key, or becomes a new entry where there is none.
    pub fn add_tokens(&mut self, add: Balance)
        requires
            merge_fits(old(self)@, add@),
        ensures
            final(self)@ == merged(old(self)@, add@),
    {
        proof {
            lemma_merge_fits(*self, add);
        }
        match add {
            Balance::Native(coins) => {
                let ok = add_entries(&mut self.native, &coins);
            },
            Balance::Cw20(token) => {
                let ok = add_entry(&mut self.cw20, token);
            },
        }
    }

    /// Puts a token into the ledger, unless it is already there.
    pub fn add_nft(&mut self, nft: Nft)
        ensures
            final(self)@ == with_nft(old(self)@, nft@),
    {
        let mut i: usize = 0;
        while i < self.nfts.len()
            invariant
                i <= self.nfts.len(),
                forall|j: int| 0 <= j < i ==> (#[trigger] views(self.nfts@)[j]) != nft@,
            decreases self.nfts.len() - i,
        {
            if self.nfts[i].same(&nft) {
                assert(views(self.nfts@)[i as int] == nft@);
                return ;
            }
            i += 1;
        }
        let ghost n = nft@;
        self.nfts.push(nft);
        assert(!views(old(self).nfts@).contains(n));
        assert(views(self.nfts@) =~= views(old(self).nfts@).push(n));
    }
}

} // verus!
