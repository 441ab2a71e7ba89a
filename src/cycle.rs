//! One refresh cycle: pagination of each source, and writing what was
//! gathered into the snapshot.
use vstd::prelude::*;
use crate::aggregate::{OpsAggregator, active_senders, capped, gas_total, op_count};
use crate::keys::{ActivityStatName, ActivityStatsKeys, SelectAccountsBy};
use crate::page::account_views;
use crate::ranking::{TOP_N, lemma_top_shape};
use crate::records::{Account, UserOpView};
use crate::select::{consumer_views, dated, gas_keys, ranked_as, recency_keys, select_recent, top_gas_consumers};
use crate::stats::{ActivityStats, Selection, StatRow, WindowValue};
use crate::time::{Instant, TimeWindow};
use crate::page::opt_text;

verus! {

/// How one source fared in a refresh cycle.
#[derive(Clone, Copy, Debug, PartialEq, Eq, Structural)]
pub enum SourceOutcome {
    /// Every page was read.
    Complete,
    /// Some pages were read, then a fetch or decode failed.
    Partial,
    /// The first page already failed.
    Failed,
}

/// How both sources fared in a refresh cycle.
#[derive(Clone, Copy, Debug, PartialEq, Eq, Structural)]
pub struct CycleReport {
    pub operations: SourceOutcome,
    pub accounts: SourceOutcome,
}

/// Where the pagination of one source stands within a cycle. Pages are
/// read one after another, each request carrying the token the previous
/// page returned, until a page comes without one or a request fails; a
/// failure is not retried within the cycle.
pub struct PageCursor {
    /// Pages read and decoded so far.
    pub pages_read: u64,
    /// Token for the next request; `None` for the first page.
    pub token: Option<String>,
    pub finished: bool,
    pub failed: bool,
}

impl PageCursor {
    /// Before the first page.
    pub fn start() -> (r: PageCursor)
        ensures
            r.pages_read == 0,
            r.token is None,
            !r.finished,
            !r.failed,
    {
        PageCursor { pages_read: 0, token: None, finished: false, failed: false }
    }

    /// The token of the next request (`Some(None)` for the first page), or
    /// `None` once pagination is over.
    pub fn next_request(&self) -> (r: Option<Option<String>>)
        ensures
            self.finished ==> r is None,
            !self.finished ==> r is Some && opt_text(r.unwrap()) == opt_text(self.token),
    {
        if self.finished {
            None
        } else {
            match &self.token {
                Some(t) => Some(Some(t.clone())),
                None => Some(None),
            }
        }
    }

    /// A page was read; `next` is the token it returned.
    pub fn on_page(&mut self, next: Option<String>)
        requires
            !old(self).finished,
        ensures
            final(self).pages_read == capped(old(self).pages_read as nat + 1),
            final(self).finished == (next is None),
            final(self).token == next,
            final(self).failed == old(self).failed,
    {
        self.pages_read = if self.pages_read == u64::MAX { u64::MAX } else { self.pages_read + 1 };
        self.finished = next.is_none();
        self.token = next;
    }

    /// A request or its decoding failed: pagination stops.
    pub fn on_error(&mut self)
        ensures
            final(self).finished,
            final(self).failed,
            final(self).pages_read == old(self).pages_read,
            final(self).token == old(self).token,
    {
        self.finished = true;
        self.failed = true;
    }

    /// Whether any page was read.
    pub fn has_data(&self) -> (r: bool)
        ensures
            r == (self.pages_read > 0),
    {
        self.pages_read > 0
    }

    pub open spec fn outcome_spec(&self) -> SourceOutcome {
        if !self.failed {
            SourceOutcome::Complete
        } else if self.pages_read > 0 {
            SourceOutcome::Partial
        } else {
            SourceOutcome::Failed
        }
    }

    /// The outcome once pagination is over.
    pub fn outcome(&self) -> (r: SourceOutcome)
        ensures
            r == self.outcome_spec(),
    {
        if !self.failed {
            SourceOutcome::Complete
        } else if self.pages_read > 0 {
            SourceOutcome::Partial
        } else {
            SourceOutcome::Failed
        }
    }
}

/// The windows of a catalog, in its order.
pub open spec fn window_tags(entries: Seq<(TimeWindow, String)>) -> Seq<TimeWindow> {
    entries.map_values(|e: (TimeWindow, String)| e.0)
}

/// The windows of `keys`, in catalog order.
pub fn windows_of(keys: &ActivityStatsKeys) -> (r: Vec<TimeWindow>)
    ensures
        r@ == window_tags(keys.time_windows@),
{
    let mut r: Vec<TimeWindow> = Vec::new();
    let mut j: usize = 0;
    while j < keys.time_windows.len()
        invariant
            j <= keys.time_windows@.len(),
            r@ == window_tags(keys.time_windows@.take(j as int)),
        decreases keys.time_windows.len() - j,
    {
        r.push(keys.time_windows[j].0);
        assert(keys.time_windows@.take(j + 1) =~= keys.time_windows@.take(j as int).push(keys.time_windows@[j as int]));
        assert(r@ =~= window_tags(keys.time_windows@.take(j + 1)));
        j += 1;
    }
    assert(keys.time_windows@.take(keys.time_windows@.len() as int) =~= keys.time_windows@);
    r
}

/// The value of statistic `stat` over window `w` for the operations `ops`.
pub open spec fn stat_of(ops: Seq<UserOpView>, stat: ActivityStatName, w: TimeWindow, now: Instant) -> u64 {
    match stat {
        ActivityStatName::UserOps => capped(op_count(ops, w, now)),
        ActivityStatName::GasUsed => capped(gas_total(ops, w, now)),
        ActivityStatName::UniqueActiveAccounts => capped(active_senders(ops, w, now).len()),
    }
}

/// A ranked selection never holds more than `TOP_N` entries.
pub proof fn lemma_ranked_len<A>(items: Seq<A>, keys: Seq<u128>, r: Seq<A>)
    requires
        ranked_as(items, keys, r),
    ensures
        r.len() <= TOP_N,
{
    let sel = choose|sel: Seq<usize>|
        crate::ranking::is_top(keys, keys.len() as int, TOP_N as int, sel) && r == sel.map_values(
            |i: usize| items[i as int],
        );
    lemma_top_shape(keys, keys.len() as int, TOP_N as int, sel);
}

/// `rows` hold, in catalog order, every statistic of `keys` over every
/// window, with the values of the operations `agg` ingested.
pub open spec fn rows_hold(rows: Seq<StatRow>, n: int, keys: ActivityStatsKeys, agg: OpsAggregator) -> bool {
    forall|a: int|
        0 <= a < n ==> {
            &&& (#[trigger] rows[a]).name@ == keys.activity_stat_names@[a].1@
            &&& rows[a].values@.len() == keys.time_windows@.len()
            &&& forall|j: int|
                0 <= j < keys.time_windows@.len() ==> (#[trigger] rows[a].values@[j]).window@
                    == keys.time_windows@[j].1@ && rows[a].values@[j].value == stat_of(
                    agg.ingested@,
                    keys.activity_stat_names@[a].0,
                    keys.time_windows@[j].0,
                    agg.now,
                )
        }
}

/// The value of statistic `stat` over window `j` of `agg`.
fn stat_from(agg: &OpsAggregator, stat: ActivityStatName, j: usize) -> (r: u64)
    requires
        agg.wf(),
        j < agg.windows@.len(),
    ensures
        r == stat_of(agg.ingested@, stat, agg.windows@[j as int], agg.now),
{
    assert(agg.user_ops@[j as int] == capped(op_count(agg.ingested@, agg.windows@[j as int], agg.now)));
    proof {
        crate::aggregate::lemma_texts_len(agg.senders@[j as int]@);
    }
    match stat {
        ActivityStatName::UserOps => agg.user_ops[j],
        ActivityStatName::GasUsed => agg.gas_used[j],
        ActivityStatName::UniqueActiveAccounts => agg.senders[j].len() as u64,
    }
}

/// Writes the tallies of `agg` into `stats`: every statistic over every
/// window, and the day's top gas consumers. The other selections stay.
pub fn store_operations(stats: &mut ActivityStats, keys: &ActivityStatsKeys, agg: &OpsAggregator)
    requires
        old(stats).laid_out(*keys),
        agg.wf(),
        agg.windows@ == window_tags(keys.time_windows@),
    ensures
        final(stats).laid_out(*keys),
        forall|i: int, j: int|
            0 <= i < keys.activity_stat_names@.len() && 0 <= j < keys.time_windows@.len()
                ==> #[trigger] final(stats).value(i, j) == stat_of(
                agg.ingested@,
                keys.activity_stat_names@[i].0,
                keys.time_windows@[j].0,
                agg.now,
            ),
        forall|k: int|
            0 <= k < keys.select_accounts_by@.len() ==> if keys.select_accounts_by@[k].0
                == SelectAccountsBy::TopGasConsumers24h {
                ranked_as(
                    consumer_views(agg.gas_by_sender@),
                    gas_keys(agg.gas_by_sender@),
                    account_views(#[trigger] final(stats).selection(k)),
                )
            } else {
                final(stats).selection(k) == old(stats).selection(k)
            },
{
    let mut rows: Vec<StatRow> = Vec::new();
    let mut i: usize = 0;
    while i < keys.activity_stat_names.len()
        invariant
            i <= keys.activity_stat_names@.len(),
            agg.wf(),
            agg.windows@ == window_tags(keys.time_windows@),
            rows@.len() == i,
            rows_hold(rows@, i as int, *keys, *agg),
        decreases keys.activity_stat_names.len() - i,
    {
        let stat = keys.activity_stat_names[i].0;
        let mut values: Vec<WindowValue> = Vec::new();
        let mut j: usize = 0;
        while j < keys.time_windows.len()
            invariant
                j <= keys.time_windows@.len(),
                agg.wf(),
                agg.windows@ == window_tags(keys.time_windows@),
                stat == keys.activity_stat_names@[i as int].0,
                i < keys.activity_stat_names@.len(),
                values@.len() == j,
                forall|b: int|
                    0 <= b < j ==> (#[trigger] values@[b]).window@ == keys.time_windows@[b].1@
                        && values@[b].value == stat_of(agg.ingested@, stat, keys.time_windows@[b].0, agg.now),
            decreases keys.time_windows.len() - j,
        {
            assert(agg.windows@[j as int] == keys.time_windows@[j as int].0);
            let v = stat_from(agg, stat, j);
            values.push(WindowValue { window: keys.time_windows[j].1.clone(), value: v });
            j += 1;
        }
        rows.push(StatRow { name: keys.activity_stat_names[i].1.clone(), values });
        i += 1;
    }
    stats.stats = rows;
    let ghost mid = stats.selected_accounts@;
    let mut k: usize = 0;
    while k < keys.select_accounts_by.len()
        invariant
            k <= keys.select_accounts_by@.len(),
            stats.selected_accounts@.len() == keys.select_accounts_by@.len(),
            stats.selected_accounts@.len() == mid.len(),
            mid == old(stats).selected_accounts@,
            old(stats).laid_out(*keys),
            stats.stats@.len() == keys.activity_stat_names@.len(),
            rows_hold(stats.stats@, keys.activity_stat_names@.len() as int, *keys, *agg),
            forall|a: int|
                0 <= a < stats.selected_accounts@.len() ==> {
                    &&& (#[trigger] stats.selected_accounts@[a]).name@ == keys.select_accounts_by@[a].1@
                    &&& stats.selected_accounts@[a].accounts@.len() <= TOP_N
                },
            forall|a: int|
                0 <= a < k ==> if keys.select_accounts_by@[a].0 == SelectAccountsBy::TopGasConsumers24h {
                    ranked_as(
                        consumer_views(agg.gas_by_sender@),
                        gas_keys(agg.gas_by_sender@),
                        account_views((#[trigger] stats.selected_accounts@[a]).accounts@),
                    )
                } else {
                    stats.selected_accounts@[a].accounts@ == mid[a].accounts@
                },
            forall|a: int|
                k <= a < stats.selected_accounts@.len() ==> #[trigger] stats.selected_accounts@[a] == mid[a],
        decreases keys.select_accounts_by.len() - k,
    {
        assert(stats.selected_accounts@[k as int] == mid[k as int]);
        if keys.select_accounts_by[k].0 == SelectAccountsBy::TopGasConsumers24h {
            let top = top_gas_consumers(&agg.gas_by_sender);
            proof {
                lemma_ranked_len(consumer_views(agg.gas_by_sender@), gas_keys(agg.gas_by_sender@), account_views(top@));
            }
            let entry = Selection { name: keys.select_accounts_by[k].1.clone(), accounts: top };
            stats.selected_accounts.set(k, entry);
        }
        k += 1;
    }
    assert forall|i: int, j: int|
        0 <= i < keys.activity_stat_names@.len() && 0 <= j < keys.time_windows@.len() implies #[trigger] stats.value(i, j)
            == stat_of(agg.ingested@, keys.activity_stat_names@[i].0, keys.time_windows@[j].0, agg.now) by {
        assert(stats.stats@[i].values@[j].window@ == keys.time_windows@[j].1@);
    }
}

/// Writes the most recently created of `accounts` into the recent-accounts
/// selection. Everything else stays.
pub fn store_recent(stats: &mut ActivityStats, keys: &ActivityStatsKeys, accounts: &Vec<Account>)
    requires
        old(stats).laid_out(*keys),
    ensures
        final(stats).laid_out(*keys),
        final(stats).stats == old(stats).stats,
        forall|k: int|
            0 <= k < keys.select_accounts_by@.len() ==> if keys.select_accounts_by@[k].0
                == SelectAccountsBy::Recent {
                ranked_as(
                    dated(account_views(accounts@)),
                    recency_keys(dated(account_views(accounts@))),
                    account_views(#[trigger] final(stats).selection(k)),
                )
            } else {
                final(stats).selection(k) == old(stats).selection(k)
            },
{
    let ghost mid = stats.selected_accounts@;
    let mut k: usize = 0;
    while k < keys.select_accounts_by.len()
        invariant
            k <= keys.select_accounts_by@.len(),
                stats.stats == old(stats).stats,
            stats.selected_accounts@.len() == keys.select_accounts_by@.len(),
            mid == old(stats).selected_accounts@,
            old(stats).laid_out(*keys),
            forall|a: int|
                0 <= a < stats.selected_accounts@.len() ==> {
                    &&& (#[trigger] stats.selected_accounts@[a]).name@ == keys.select_accounts_by@[a].1@
                    &&& stats.selected_accounts@[a].accounts@.len() <= TOP_N
                },
            forall|a: int|
                0 <= a < k ==> if keys.select_accounts_by@[a].0 == SelectAccountsBy::Recent {
                    ranked_as(
                        dated(account_views(accounts@)),
                        recency_keys(dated(account_views(accounts@))),
                        account_views((#[trigger] stats.selected_accounts@[a]).accounts@),
                    )
                } else {
                    stats.selected_accounts@[a].accounts@ == mid[a].accounts@
                },
            forall|a: int|
                k <= a < stats.selected_accounts@.len() ==> #[trigger] stats.selected_accounts@[a] == mid[a],
        decreases keys.select_accounts_by.len() - k,
    {
        assert(stats.selected_accounts@[k as int] == mid[k as int]);
        if keys.select_accounts_by[k].0 == SelectAccountsBy::Recent {
            let recent = select_recent(accounts);
            proof {
                lemma_ranked_len(
                    dated(account_views(accounts@)),
                    recency_keys(dated(account_views(accounts@))),
                    account_views(recent@),
                );
            }
            let entry = Selection { name: keys.select_accounts_by[k].1.clone(), accounts: recent };
            stats.selected_accounts.set(k, entry);
        }
        k += 1;
    }
}

} // verus!

verus! {

/// `new` holds the operation statistics of `agg` and its top gas consumers.
pub open spec fn operations_stored(new: ActivityStats, keys: ActivityStatsKeys, agg: OpsAggregator) -> bool {
    &&& forall|i: int, j: int|
        0 <= i < keys.activity_stat_names@.len() && 0 <= j < keys.time_windows@.len()
            ==> #[trigger] new.value(i, j) == stat_of(
            agg.ingested@,
            keys.activity_stat_names@[i].0,
            keys.time_windows@[j].0,
            agg.now,
        )
    &&& forall|k: int|
        0 <= k < keys.select_accounts_by@.len() && keys.select_accounts_by@[k].0
            == SelectAccountsBy::TopGasConsumers24h ==> ranked_as(
            consumer_views(agg.gas_by_sender@),
            gas_keys(agg.gas_by_sender@),
            account_views(#[trigger] new.selection(k)),
        )
}

/// `new` holds the most recent of `accounts` as its recent selection.
pub open spec fn recent_stored(new: ActivityStats, keys: ActivityStatsKeys, accounts: Seq<Account>) -> bool {
    forall|k: int|
        0 <= k < keys.select_accounts_by@.len() && keys.select_accounts_by@[k].0 == SelectAccountsBy::Recent
            ==> ranked_as(
            dated(account_views(accounts)),
            recency_keys(dated(account_views(accounts))),
            account_views(#[trigger] new.selection(k)),
        )
}

/// Selections of kind `kind` are the same in `new` and `old`.
pub open spec fn selection_kept(new: ActivityStats, old: ActivityStats, keys: ActivityStatsKeys, kind: SelectAccountsBy) -> bool {
    forall|k: int|
        0 <= k < keys.select_accounts_by@.len() && keys.select_accounts_by@[k].0 == kind
            ==> #[trigger] new.selection(k) == old.selection(k)
}

/// Ends a refresh cycle: a source from which at least one page was read
/// replaces its part of the snapshot (operation statistics and top gas
/// consumers; recent accounts), a source whose first page failed leaves its
/// part as it was.
pub fn finish_cycle(
    stats: &mut ActivityStats,
    keys: &ActivityStatsKeys,
    agg: &OpsAggregator,
    ops_cursor: &PageCursor,
    accounts: &Vec<Account>,
    accounts_cursor: &PageCursor,
) -> (r: CycleReport)
    requires
        old(stats).laid_out(*keys),
        agg.wf(),
        agg.windows@ == window_tags(keys.time_windows@),
    ensures
        final(stats).laid_out(*keys),
        r.operations == ops_cursor.outcome_spec(),
        r.accounts == accounts_cursor.outcome_spec(),
        ops_cursor.pages_read > 0 ==> operations_stored(*final(stats), *keys, *agg),
        ops_cursor.pages_read == 0 ==> final(stats).stats == old(stats).stats && selection_kept(
            *final(stats),
            *old(stats),
            *keys,
            SelectAccountsBy::TopGasConsumers24h,
        ),
        accounts_cursor.pages_read > 0 ==> recent_stored(*final(stats), *keys, accounts@),
        accounts_cursor.pages_read == 0 ==> selection_kept(*final(stats), *old(stats), *keys, SelectAccountsBy::Recent),
{
    if ops_cursor.has_data() {
        store_operations(stats, keys, agg);
    }
    let ghost mid = *stats;
    if accounts_cursor.has_data() {
        store_recent(stats, keys, accounts);
        assert forall|i: int, j: int|
            0 <= i < keys.activity_stat_names@.len() && 0 <= j < keys.time_windows@.len() implies #[trigger] stats.value(i, j)
                == mid.value(i, j) by {}
    }
    CycleReport { operations: ops_cursor.outcome(), accounts: accounts_cursor.outcome() }
}

} // verus!

verus! {

/// The operation count stored for a window is the number of operations
/// whose timestamp parses and lies inside the window.
pub proof fn lemma_user_ops_stat(ops: Seq<UserOpView>, w: TimeWindow, now: Instant)
    ensures
        stat_of(ops, ActivityStatName::UserOps, w, now) == capped(
            ops.filter(|op: UserOpView| crate::aggregate::counts_toward(op, w, now)).len(),
        ),
{
    crate::aggregate::lemma_op_count_filter(ops, w, now);
}

/// The unique-active-accounts value stored for a window is the number of
/// distinct senders among the operations inside the window.
pub proof fn lemma_unique_active_accounts_stat(ops: Seq<UserOpView>, w: TimeWindow, now: Instant)
    ensures
        crate::aggregate::sender_set(ops, w, now).finite(),
        stat_of(ops, ActivityStatName::UniqueActiveAccounts, w, now) == capped(
            crate::aggregate::sender_set(ops, w, now).len(),
        ),
{
    crate::aggregate::lemma_unique_senders_count(ops, w, now);
}

} // verus!

verus! {

/// The operations of `ops` inside `w`.
pub open spec fn in_window_ops(ops: Seq<UserOpView>, w: TimeWindow, now: Instant) -> Seq<UserOpView> {
    ops.filter(|op: UserOpView| crate::aggregate::counts_toward(op, w, now))
}

/// Total gas of `ops`.
pub open spec fn gas_sum(ops: Seq<UserOpView>) -> nat
    decreases ops.len(),
{
    if ops.len() == 0 {
        0
    } else {
        gas_sum(ops.drop_last()) + ops.last().gas_used as nat
    }
}

/// The gas tally of a window is the total gas of the operations inside it.
pub proof fn lemma_gas_total_filter(ops: Seq<UserOpView>, w: TimeWindow, now: Instant)
    ensures
        gas_total(ops, w, now) == gas_sum(in_window_ops(ops, w, now)),
    decreases ops.len(),
{
    reveal(Seq::filter);
    if ops.len() > 0 {
        lemma_gas_total_filter(ops.drop_last(), w, now);
        let f = ops.drop_last().filter(|op: UserOpView| crate::aggregate::counts_toward(op, w, now));
        assert(f.push(ops.last()).drop_last() =~= f);
    }
}

/// After a cycle that read operations, each stored value is exact whenever
/// it fits in 64 bits: the number of operations inside the window, their
/// total gas, and the number of distinct senders among them.
pub proof fn lemma_stored_values_exact(new: ActivityStats, keys: ActivityStatsKeys, agg: OpsAggregator, i: int, j: int)
    requires
        operations_stored(new, keys, agg),
        0 <= i < keys.activity_stat_names@.len(),
        0 <= j < keys.time_windows@.len(),
    ensures
        ({
            let ops = agg.ingested@;
            let w = keys.time_windows@[j].0;
            match keys.activity_stat_names@[i].0 {
                ActivityStatName::UserOps => in_window_ops(ops, w, agg.now).len() <= u64::MAX ==> new.value(i, j)
                    == in_window_ops(ops, w, agg.now).len(),
                ActivityStatName::GasUsed => gas_sum(in_window_ops(ops, w, agg.now)) <= u64::MAX ==> new.value(i, j)
                    == gas_sum(in_window_ops(ops, w, agg.now)),
                ActivityStatName::UniqueActiveAccounts => crate::aggregate::sender_set(ops, w, agg.now).len()
                    <= u64::MAX ==> new.value(i, j) == crate::aggregate::sender_set(ops, w, agg.now).len(),
            }
        }),
{
    let ops = agg.ingested@;
    let w = keys.time_windows@[j].0;
    assert(new.value(i, j) == stat_of(ops, keys.activity_stat_names@[i].0, w, agg.now));
    crate::aggregate::lemma_op_count_filter(ops, w, agg.now);
    lemma_gas_total_filter(ops, w, agg.now);
    crate::aggregate::lemma_unique_senders_count(ops, w, agg.now);
}

/// One more operation inside `w` by a sender already active there adds one
/// to the window's operation count (below the cap) and leaves its number of
/// distinct senders unchanged.
pub proof fn lemma_repeat_sender(ops: Seq<UserOpView>, extra: UserOpView, w: TimeWindow, now: Instant, k: int)
    requires
        crate::aggregate::counts_toward(extra, w, now),
        0 <= k < ops.len(),
        crate::aggregate::counts_toward(ops[k], w, now),
        ops[k].sender == extra.sender,
        op_count(ops, w, now) < u64::MAX,
    ensures
        stat_of(ops.push(extra), ActivityStatName::UserOps, w, now) == stat_of(ops, ActivityStatName::UserOps, w, now)
            + 1,
        stat_of(ops.push(extra), ActivityStatName::UniqueActiveAccounts, w, now) == stat_of(
            ops,
            ActivityStatName::UniqueActiveAccounts,
            w,
            now,
        ),
{
    crate::aggregate::lemma_push_step(ops, extra, w, now);
    assert(crate::aggregate::sender_set(ops, w, now).contains(extra.sender));
    crate::aggregate::lemma_active_contains(ops, w, now, extra.sender);
}

} // verus!
