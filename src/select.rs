//! The ranked account selections: most recently created accounts, and the
//! heaviest gas consumers of the last day.
use vstd::prelude::*;
use crate::page::account_views;
use crate::ranking::{TOP_N, is_top, lemma_top_shape, top_indices};
use crate::records::{Account, AccountView};
use crate::time::{Instant, MAX_ABS_SECS, NANOS_LIMIT, instant_of, lemma_key_order, parse_instant};

verus! {

/// `r` lists the items at the indices of the top selection of `keys`.
pub open spec fn ranked_as<A>(items: Seq<A>, keys: Seq<u128>, r: Seq<A>) -> bool {
    exists|sel: Seq<usize>|
        is_top(keys, keys.len() as int, TOP_N as int, sel) && r == sel.map_values(
            |i: usize| items[i as int],
        )
}

/// At most one sequence is ranked from given items and keys.
pub proof fn lemma_ranked_unique<A>(items: Seq<A>, keys: Seq<u128>, r1: Seq<A>, r2: Seq<A>)
    requires
        ranked_as(items, keys, r1),
        ranked_as(items, keys, r2),
    ensures
        r1 == r2,
{
    let s1 = choose|sel: Seq<usize>|
        is_top(keys, keys.len() as int, TOP_N as int, sel) && r1 == sel.map_values(|i: usize| items[i as int]);
    let s2 = choose|sel: Seq<usize>|
        is_top(keys, keys.len() as int, TOP_N as int, sel) && r2 == sel.map_values(|i: usize| items[i as int]);
    crate::ranking::lemma_top_unique(keys, keys.len() as int, TOP_N as int, s1, s2);
}

/// Whether `a` has a creation timestamp that reads as an RFC 3339 instant.
pub open spec fn is_dated(a: AccountView) -> bool {
    &&& a.creation_timestamp.len() > 0
    &&& instant_of(a.creation_timestamp) is Some
    &&& instant_of(a.creation_timestamp)->Some_0.wf()
}

/// The accounts whose creation timestamp is present and reads as an
/// instant, in their order.
pub open spec fn dated(accts: Seq<AccountView>) -> Seq<AccountView>
    decreases accts.len(),
{
    if accts.len() == 0 {
        Seq::empty()
    } else if is_dated(accts.last()) {
        dated(accts.drop_last()).push(accts.last())
    } else {
        dated(accts.drop_last())
    }
}

/// When a dated account was created.
pub open spec fn created_at(a: AccountView) -> Instant {
    instant_of(a.creation_timestamp)->Some_0
}

pub open spec fn recency_keys(c: Seq<AccountView>) -> Seq<u128> {
    c.map_values(|a: AccountView| created_at(a).key() as u128)
}

/// One account per sender, carrying the sender's gas total and no
/// creation timestamp.
pub open spec fn consumer_views(totals: Seq<(String, u64)>) -> Seq<AccountView> {
    totals.map_values(
        |e: (String, u64)| AccountView { address: e.0@, creation_timestamp: Seq::empty(), gas_used: e.1 },
    )
}

pub open spec fn gas_keys(totals: Seq<(String, u64)>) -> Seq<u128> {
    totals.map_values(|e: (String, u64)| e.1 as u128)
}

/// The items of `items` at the indices `sel`, in that order.
fn gather(items: &Vec<Account>, sel: &Vec<usize>) -> (r: Vec<Account>)
    requires
        forall|p: int| 0 <= p < sel@.len() ==> #[trigger] sel@[p] < items@.len(),
    ensures
        account_views(r@) == sel@.map_values(|i: usize| account_views(items@)[i as int]),
{
    let mut r: Vec<Account> = Vec::new();
    let mut p: usize = 0;
    while p < sel.len()
        invariant
            p <= sel@.len(),
            forall|q: int| 0 <= q < sel@.len() ==> #[trigger] sel@[q] < items@.len(),
            account_views(r@) == sel@.take(p as int).map_values(|i: usize| account_views(items@)[i as int]),
        decreases sel.len() - p,
    {
        let a = items[sel[p]].clone();
        let ghost before = account_views(r@);
        r.push(a);
        assert(account_views(r@) =~= before.push(account_views(items@)[sel@[p as int] as int]));
        assert(sel@.take(p + 1) =~= sel@.take(p as int).push(sel@[p as int]));
        assert(account_views(r@) =~= sel@.take(p + 1).map_values(|i: usize| account_views(items@)[i as int]));
        p += 1;
    }
    assert(sel@.take(sel@.len() as int) =~= sel@);
    r
}

/// The five most recently created accounts, latest first: accounts whose
/// creation timestamp is absent or does not read as RFC 3339 are left out,
/// and equal times keep their order.
pub fn select_recent(accounts: &Vec<Account>) -> (r: Vec<Account>)
    ensures
        ranked_as(
            dated(account_views(accounts@)),
            recency_keys(dated(account_views(accounts@))),
            account_views(r@),
        ),
{
    let ghost all = account_views(accounts@);
    let mut cands: Vec<Account> = Vec::new();
    let mut keys: Vec<u128> = Vec::new();
    let mut i: usize = 0;
    assert(all.take(0) =~= Seq::<AccountView>::empty());
    assert(account_views(cands@) =~= Seq::<AccountView>::empty());
    while i < accounts.len()
        invariant
            i <= accounts@.len(),
            all == account_views(accounts@),
            account_views(cands@) == dated(all.take(i as int)),
            keys@ == recency_keys(account_views(cands@)),
        decreases accounts.len() - i,
    {
        let a = &accounts[i];
        assert(all.take(i + 1).drop_last() =~= all.take(i as int));
        assert(all.take(i + 1).last() == a@);
        if a.creation_timestamp.as_str().unicode_len() > 0 {
            if let Some(t) = parse_instant(a.creation_timestamp.as_str()) {
                assert(is_dated(a@));
                assert(t == created_at(a@));
                let ghost before = account_views(cands@);
                keys.push(t.rank_key());
                cands.push(a.clone());
                assert(account_views(cands@) =~= before.push(a@));
                assert(keys@ =~= recency_keys(account_views(cands@)));
            }
        }
        i += 1;
    }
    assert(all.take(accounts@.len() as int) =~= all);
    let sel = top_indices(&keys, TOP_N);
    proof {
        lemma_top_shape(keys@, keys@.len() as int, TOP_N as int, sel@);
    }
    let r = gather(&cands, &sel);
    assert(account_views(r@) == sel@.map_values(|i: usize| dated(all)[i as int]));
    r
}

/// The five senders with the most gas, highest first, each as an account
/// with no creation timestamp; equal totals keep the order of `totals`.
pub fn top_gas_consumers(totals: &Vec<(String, u64)>) -> (r: Vec<Account>)
    ensures
        ranked_as(consumer_views(totals@), gas_keys(totals@), account_views(r@)),
{
    let mut items: Vec<Account> = Vec::new();
    let mut keys: Vec<u128> = Vec::new();
    let mut i: usize = 0;
    while i < totals.len()
        invariant
            i <= totals@.len(),
            account_views(items@) == consumer_views(totals@.take(i as int)),
            keys@ == gas_keys(totals@.take(i as int)),
        decreases totals.len() - i,
    {
        let ghost before = account_views(items@);
        let a = Account { address: totals[i].0.clone(), creation_timestamp: String::new(), gas_used: totals[i].1 };
        assert(a@ == consumer_views(totals@)[i as int]);
        items.push(a);
        assert(account_views(items@) =~= before.push(a@));
        keys.push(totals[i].1 as u128);
        assert(totals@.take(i + 1) =~= totals@.take(i as int).push(totals@[i as int]));
        assert(account_views(items@) =~= consumer_views(totals@.take(i + 1)));
        assert(keys@ =~= gas_keys(totals@.take(i + 1)));
        i += 1;
    }
    assert(totals@.take(totals@.len() as int) =~= totals@);
    let sel = top_indices(&keys, TOP_N);
    let r = gather(&items, &sel);
    r
}

} // verus!

verus! {

/// Every account kept by `dated` has a creation instant.
pub proof fn lemma_dated_all(accts: Seq<AccountView>)
    ensures
        forall|i: int| 0 <= i < dated(accts).len() ==> is_dated(#[trigger] dated(accts)[i]),
    decreases accts.len(),
{
    if accts.len() > 0 {
        let prev = dated(accts.drop_last());
        lemma_dated_all(accts.drop_last());
        if is_dated(accts.last()) {
            assert forall|i: int| 0 <= i < dated(accts).len() implies is_dated(#[trigger] dated(accts)[i]) by {
                if i < prev.len() {
                    assert(dated(accts)[i] == prev[i]);
                }
            }
        }
    }
}

/// The recent-accounts selection has at most five entries, each with a
/// creation timestamp that reads as an instant, the most recently created
/// first.
pub proof fn lemma_recent_selection_shape(accts: Seq<AccountView>, r: Seq<AccountView>)
    requires
        ranked_as(dated(accts), recency_keys(dated(accts)), r),
    ensures
        r.len() <= TOP_N,
        forall|p: int| 0 <= p < r.len() ==> is_dated(#[trigger] r[p]),
        forall|p: int, q: int|
            0 <= p < q < r.len() ==> created_at(#[trigger] r[q]).spec_le(created_at(#[trigger] r[p])),
{
    let items = dated(accts);
    let keys = recency_keys(items);
    let sel = choose|sel: Seq<usize>|
        is_top(keys, keys.len() as int, TOP_N as int, sel) && r == sel.map_values(|i: usize| items[i as int]);
    lemma_top_shape(keys, keys.len() as int, TOP_N as int, sel);
    lemma_dated_all(accts);
    assert forall|p: int| 0 <= p < r.len() implies is_dated(#[trigger] r[p]) by {
        assert(r[p] == items[sel[p] as int]);
    }
    assert forall|p: int, q: int| 0 <= p < q < r.len() implies created_at(#[trigger] r[q]).spec_le(
        created_at(#[trigger] r[p]),
    ) by {
        assert(r[p] == items[sel[p] as int]);
        assert(r[q] == items[sel[q] as int]);
        assert(keys[sel[p] as int] >= keys[sel[q] as int]);
        let a = created_at(r[p]);
        let b = created_at(r[q]);
        assert(is_dated(r[p]) && is_dated(r[q]));
        lemma_key_in_range(a);
        lemma_key_in_range(b);
        lemma_key_order(b, a);
    }
}

/// The key of a valid instant fits in 128 bits.
pub proof fn lemma_key_in_range(a: Instant)
    requires
        a.wf(),
    ensures
        0 <= a.key() < 0x1_0000_0000_0000_0000_0000_0000_0000_0000,
{
    assert(0 <= a.key() < 0x1_0000_0000_0000_0000_0000_0000_0000_0000) by (nonlinear_arith)
        requires
            a.wf(),
            a.key() == (a.secs + MAX_ABS_SECS) * NANOS_LIMIT + a.nanos,
    ;
}

/// The top-consumers selection has at most five entries, the largest gas
/// total first.
pub proof fn lemma_consumers_selection_shape(totals: Seq<(String, u64)>, r: Seq<AccountView>)
    requires
        ranked_as(consumer_views(totals), gas_keys(totals), r),
    ensures
        r.len() <= TOP_N,
        forall|p: int, q: int| 0 <= p < q < r.len() ==> (#[trigger] r[p]).gas_used >= (#[trigger] r[q]).gas_used,
{
    let items = consumer_views(totals);
    let keys = gas_keys(totals);
    let sel = choose|sel: Seq<usize>|
        is_top(keys, keys.len() as int, TOP_N as int, sel) && r == sel.map_values(|i: usize| items[i as int]);
    lemma_top_shape(keys, keys.len() as int, TOP_N as int, sel);
    assert forall|p: int, q: int| 0 <= p < q < r.len() implies (#[trigger] r[p]).gas_used >= (
    #[trigger] r[q]).gas_used by {
        assert(r[p] == items[sel[p] as int]);
        assert(r[q] == items[sel[q] as int]);
        assert(keys[sel[p] as int] >= keys[sel[q] as int]);
    }
}

} // verus!

verus! {

/// `dated` keeps at most all the accounts.
pub proof fn lemma_dated_len(accts: Seq<AccountView>)
    ensures
        dated(accts).len() <= accts.len(),
    decreases accts.len(),
{
    if accts.len() > 0 {
        lemma_dated_len(accts.drop_last());
    }
}

/// The recent-accounts selection holds as many accounts as it can, up to
/// five, and every dated account it leaves out was created no later than
/// any account it holds: it holds the latest ones.
pub proof fn lemma_recent_are_latest(accts: Seq<AccountView>, r: Seq<AccountView>)
    requires
        accts.len() <= usize::MAX,
        ranked_as(dated(accts), recency_keys(dated(accts)), r),
    ensures
        r.len() == if dated(accts).len() < TOP_N { dated(accts).len() } else { TOP_N as nat },
        forall|i: int, p: int|
            0 <= i < dated(accts).len() && !r.contains(dated(accts)[i]) && 0 <= p < r.len()
                ==> created_at(#[trigger] dated(accts)[i]).spec_le(created_at(#[trigger] r[p])),
{
    let items = dated(accts);
    let keys = recency_keys(items);
    let sel = choose|sel: Seq<usize>|
        is_top(keys, keys.len() as int, TOP_N as int, sel) && r == sel.map_values(|i: usize| items[i as int]);
    lemma_dated_all(accts);
    lemma_dated_len(accts);
    assert forall|i: int, p: int|
        0 <= i < items.len() && !r.contains(items[i]) && 0 <= p < r.len() implies created_at(
        #[trigger] items[i],
    ).spec_le(created_at(#[trigger] r[p])) by {
        assert(!sel.contains(i as usize)) by {
            if sel.contains(i as usize) {
                let q = choose|q: int| 0 <= q < sel.len() && sel[q] == i as usize;
                assert(r[q] == items[i]);
            }
        }
        assert(r[p] == items[sel[p] as int]);
        assert(crate::ranking::precedes(keys, sel[p] as int, i));
        lemma_key_in_range(created_at(items[i]));
        lemma_key_in_range(created_at(r[p]));
        lemma_key_order(created_at(items[i]), created_at(r[p]));
    }
}

} // verus!
